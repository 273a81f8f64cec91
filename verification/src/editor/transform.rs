//! Pixels picked up off a layer, or pasted onto one, being moved about.

use crate::editor::document::{Editor, Gesture};
use crate::editor::history::StackShape;
use crate::editor::session::{PixelRect, Selection};
use crate::geom::{Pos2, POINT};
use vstd::prelude::*;

verus! {

/// What the pointer has hold of.
#[derive(Clone, Copy, Debug, PartialEq, Eq, Structural)]
pub enum Handle {
    Move,
    Rotate,
    /// One of the box's corners or edges, by its number.
    Scale(u8),
}

impl Handle {
    /// A move and a rotation accumulate; a scale is absolute against the handle
    /// that was grabbed.
    pub open spec fn walks(self) -> bool {
        self == Handle::Move || self == Handle::Rotate
    }
}

/// A layer a float made for itself, what was selected before it did, and the
/// stack its undo entry will be made of.
#[derive(Debug)]
pub struct MadeLayer {
    pub id: u32,
    pub was_active: u32,
    /// The stack before the layer was added. Nothing is recorded until the
    /// commit, so abandoning a placement costs no redo.
    pub before: StackShape,
}

#[derive(Debug)]
pub struct Floating {
    /// The slice the pixels belong to.
    pub slot: u32,
    /// Whether they were taken out of the layer rather than pasted.
    pub lifted: bool,
    /// What the pointer has hold of, and where it grabbed or last was.
    pub drag: Option<(Handle, Pos2)>,
    /// The layer this float made for itself, where it made one.
    pub made: Option<MadeLayer>,
}

impl Editor {
    /// The rectangle a transform would pick up: the selection's, or the whole
    /// canvas where there is none.
    pub fn transform_region(&self) -> (r: PixelRect)
        ensures
            r == match self.page.selection {
                Some(selection) => selection.bounds,
                None => PixelRect {
                    x: 0,
                    y: 0,
                    width: self.page.doc.width,
                    height: self.page.doc.height,
                },
            },
    {
        match self.page.selection {
            Some(selection) => selection.bounds,
            None => PixelRect {
                x: 0,
                y: 0,
                width: self.page.doc.width,
                height: self.page.doc.height,
            },
        }
    }

    /// Whether a press would pick something up: inside the selection's outline,
    /// which `inside` says, or anywhere on the canvas where there is none.
    pub fn transform_would_grab(&self, doc: Pos2, inside: bool) -> (r: bool)
        ensures
            r == match self.page.selection {
                Some(_) => inside,
                None => 0 <= doc.x < self.page.doc.width * POINT && 0 <= doc.y
                    < self.page.doc.height * POINT,
            },
    {
        match self.page.selection {
            Some(_) => inside,
            None => {
                let width: i64 = self.page.doc.width as i64 * POINT;
                let height: i64 = self.page.doc.height as i64 * POINT;
                0 <= doc.x && 0 <= doc.y && doc.x < width && doc.y < height
            },
        }
    }

    /// A press with the transform tool in hand. `grabbed` is what the box has at
    /// that point. Returns what was taken hold of, if there is a float at all.
    pub fn transform_press(&mut self, doc: Pos2, grabbed: Handle) -> (r: Option<Handle>)
        ensures
            old(self).gesture.float is None ==> r is None && *final(self) == *old(self),
            old(self).gesture.float matches Some(float) ==> r == Some(grabbed) && *final(self) == (
            Editor {
                gesture: Gesture {
                    float: Some(Floating { drag: Some((grabbed, doc)), ..float }),
                    ..old(self).gesture
                },
                ..*old(self)
            }),
    {
        match self.gesture.float.take() {
            Some(mut float) => {
                float.drag = Some((grabbed, doc));
                self.gesture.float = Some(float);
                Some(grabbed)
            },
            None => None,
        }
    }

    /// The pointer moved. Returns the handle held and the point to drag it from,
    /// or nothing where none is held. Afterwards a move or a rotation is held
    /// from the new point, so each event applies only what is new; a scale stays
    /// held from where it was grabbed.
    pub fn transform_moved(&mut self, doc: Pos2) -> (r: Option<(Handle, Pos2)>)
        ensures
            r == match old(self).gesture.float {
                Some(float) => float.drag,
                None => None,
            },
            r is None ==> *final(self) == *old(self),
            r matches Some((handle, from)) ==> *final(self) == (Editor {
                gesture: Gesture {
                    float: Some(
                        Floating {
                            drag: Some(
                                (
                                    handle,
                                    if handle.walks() {
                                        doc
                                    } else {
                                        from
                                    },
                                ),
                            ),
                            ..old(self).gesture.float->0
                        },
                    ),
                    ..old(self).gesture
                },
                ..*old(self)
            }),
    {
        match self.gesture.float.take() {
            Some(mut float) => {
                let held = float.drag;
                if let Some((handle, _)) = held {
                    if matches!(handle, Handle::Move | Handle::Rotate) {
                        float.drag = Some((handle, doc));
                    }
                }
                self.gesture.float = Some(float);
                held
            },
            None => None,
        }
    }

    /// The button came up.
    pub fn transform_release(&mut self)
        ensures
            old(self).gesture.float is None ==> *final(self) == *old(self),
            old(self).gesture.float matches Some(float) ==> *final(self) == (Editor {
                gesture: Gesture {
                    float: Some(Floating { drag: None, ..float }),
                    ..old(self).gesture
                },
                ..*old(self)
            }),
    {
        match self.gesture.float.take() {
            Some(mut float) => {
                float.drag = None;
                self.gesture.float = Some(float);
            },
            None => {},
        }
    }

    /// Move the selection along with the pixels it described. `moved` is the
    /// outline after the transform, and `softened` the same with its feather put
    /// back, where that leaves anything of it: an outline carried hard is better
    /// than one lost.
    pub fn carry_selection(&mut self, moved: Option<Selection>, softened: Option<Selection>)
        ensures
            *final(self) == (Editor {
                page: crate::editor::session::DocumentState {
                    selection: match (old(self).page.selection, moved) {
                        (None, _) => None,
                        (Some(_), None) => None,
                        (Some(_), Some(sharp)) => Some(
                            match softened {
                                Some(soft) => soft,
                                None => sharp,
                            },
                        ),
                    },
                    ..old(self).page
                },
                ..*old(self)
            }),
    {
        if self.page.selection.is_none() {
            return;
        }
        self.page.selection = match moved {
            None => None,
            Some(sharp) => match softened {
                Some(soft) => Some(soft),
                None => Some(sharp),
            },
        };
    }
}

/// A move and a rotation are dragged on from where the pointer last was; a scale
/// from the handle that was grabbed.
pub proof fn only_a_scale_stays_where_it_was_grabbed(handle: Handle)
    ensures
        handle.walks() <==> !(handle is Scale),
{
}

} // verus!

//! The editor, and what opening, switching, closing, resizing and flipping do to
//! it.

use crate::colour::Hsv;
use crate::dock::layout::Layout;
use crate::dock::store::loaded;
use crate::editor::frames::{rate_of, FrameTimes, FRAMES};
use crate::editor::hand::{Brush, Color, Hand, Shelf};
use crate::editor::history::{gate_for, gate_of, Edit, EditBody, EditKind, History, StackShape};
use crate::editor::layers::{
    copy_layers, lemma_position, position, position_of, slot_ceiling, BlendMode, EditTarget, Layer,
    Stack,
};
use crate::editor::select::{undrafted, SelectionDraft};
use crate::editor::session::{
    holding, Camera, Document, DocumentState, Selection, Session, Tab,
};
use crate::editor::state::{
    text_layers, text_layers_of, Interaction, Notice, StepGate, UiState,
};
use crate::editor::stroke::StrokeStyle;
use crate::editor::transform::{Floating, MadeLayer};
use crate::editor::view::Viewport;
use crate::geom::{clamp_of, Pos2, POINT};
use crate::ratio::WHOLE;
use crate::text::{push_text, string_of};
use std::collections::HashMap;
use vstd::prelude::*;

verus! {

/// What the pointer is in the middle of.
#[derive(Debug)]
pub struct Gesture {
    pub interaction: Interaction,
    /// The selection outline being drawn, if one is.
    pub draft: Option<SelectionDraft>,
    /// The floating transform in progress, if there is one.
    pub float: Option<Floating>,
    /// Whether a stroke is in flight.
    pub stroking: bool,
    pub stroke_style: StrokeStyle,
    pub stroke_stamps_colour: bool,
    /// The slice the stroke started on.
    pub stroke_slot: u32,
}

/// What is held down and where it has been, between one event and the next.
/// Places are in window pixels.
#[derive(Debug)]
pub struct Pointer {
    /// The cursor of the reading before.
    pub last_cursor: Pos2,
    /// Space held: pan for as long as it is.
    pub space_down: bool,
    /// Where a drag with the zoom tool started, and what it keeps in its place.
    pub zoom_anchor: Pos2,
    /// The touches that are down, by what names them.
    pub touches: HashMap<u64, Pos2>,
    /// The touch that owns the stroke.
    pub drawing_touch: Option<u64>,
    /// How far apart two touches were at the reading before, and the middle
    /// between them.
    pub pinch: Option<(i64, Pos2)>,
}

/// What the model that makes pressures up has to go by.
#[derive(Clone, Copy, Debug, PartialEq, Eq, Structural)]
pub struct Pressure {
    /// Whether every pressure is the whole of it.
    pub constant: bool,
    /// Whether nothing is left in the model of what it has read.
    pub fresh: bool,
}

/// Everything that is not a GPU resource or a window.
pub struct Editor {
    /// The live document. Every other open one is parked in its tab.
    pub page: DocumentState,
    pub session: Session,
    pub hand: Hand,
    pub shelf: Shelf,
    pub viewport: Viewport,
    pub gesture: Gesture,
    pub ui: UiState,
    pub notice: Option<Notice>,
    pub layout: Layout,
    pub quit_requested: bool,
    pub frames: FrameTimes,
    pub pointer: Pointer,
    pub pressure: Pressure,
}

pub open spec fn white() -> Color {
    Color { r: WHOLE, g: WHOLE, b: WHOLE, a: WHOLE }
}

/// What an editor opens with: one document of one layer, and what is in hand.
#[derive(Debug)]
pub struct Start {
    pub doc: Document,
    /// What names the document, and what its tab is called.
    pub tab: u64,
    pub title: String,
    pub layer: Layer,
    pub brush: Brush,
    pub color: Color,
    /// The same colour as the picker holds it.
    pub hsv: Hsv,
    /// What a stroke is committed with before there has been one.
    pub style: StrokeStyle,
    pub shelf: Shelf,
    /// Whether the pressure model makes every pressure the whole of it.
    pub constant_pressure: bool,
}

/// The middle of a document, on the grid.
pub open spec fn middle_of(doc: Document) -> Pos2 {
    Pos2 { x: (doc.width * 5_000) as i64, y: (doc.height * 5_000) as i64 }
}

/// What is left of a gesture when another document takes the place of the one it
/// was on: nothing but the slice a stroke would be carried on by, which is the
/// new document's where it has one selected.
pub open spec fn put_down(gesture: Gesture, layers: Stack) -> Gesture {
    Gesture {
        interaction: Interaction::Idle,
        draft: None,
        float: None,
        stroke_slot: match layers.selected().slot {
            Some(slot) => slot,
            None => gesture.stroke_slot,
        },
        ..gesture
    }
}

impl Editor {
    pub open spec fn sound(self) -> bool {
        &&& self.session.sound()
        &&& self.page.layers.sound()
        &&& self.frames.sound()
    }

    /// An editor on one blank document. `saved` is the layout that was kept.
    pub fn new(start: Start, saved: Option<&str>) -> (r: Editor)
        requires
            !start.layer.folder(),
        ensures
            r.sound(),
            r.page.doc == start.doc,
            r.page.layers.layers@ == seq![start.layer],
            r.page.layers.active == 0,
            r.page.history.undo@.len() == 0,
            r.page.history.redo@.len() == 0,
            r.page.camera == (Camera { center: middle_of(start.doc), zoom: POINT }),
            r.page.selection is None,
            r.page.edit_target == EditTarget::Layer,
            r.session.tabs@.len() == 1,
            r.session.active == 0,
            r.session.tabs@[0].id == start.tab,
            r.session.tabs@[0].title == start.title,
            !r.session.tabs@[0].modified,
            r.session.tabs@[0].revision == 0,
            r.session.tabs@[0].path is None,
            r.session.tabs@[0].notes@.len() == 0,
            r.session.tabs@[0].parked is None,
            r.hand == (Hand {
                brush: start.brush,
                color: start.color,
                secondary: white(),
                hsv: start.hsv,
                active_preset: None,
                tip: None,
                tip_name: None,
                paper_name: None,
            }),
            r.shelf == start.shelf,
            r.viewport == (Viewport {
                canvas_pivot: Pos2 { x: 0, y: 0 },
                canvas_size: crate::geom::Vec2 { x: POINT, y: POINT },
                pixels_per_point: POINT,
                scroll_bars: (None, None),
                transform_buttons: (None, None),
                selection_buttons: (None, None, None),
                cursor: Pos2 { x: 0, y: 0 },
                sampled: 0,
                pen_pointer: false,
            }),
            r.gesture == (Gesture {
                interaction: Interaction::Idle,
                draft: None,
                float: None,
                stroking: false,
                stroke_style: start.style,
                stroke_stamps_colour: false,
                stroke_slot: 0,
            }),
            r.ui == UiState::shipped(),
            r.notice is None,
            r.layout@ == loaded(
                match saved {
                    Some(text) => Some(text@),
                    None => None,
                },
            ),
            !r.quit_requested,
            r.frames.times@ == Seq::new(FRAMES as nat, |i: int| 0u64),
            r.frames.cursor == 0,
            r.pointer.last_cursor == (Pos2 { x: 0, y: 0 }),
            !r.pointer.space_down,
            r.pointer.zoom_anchor == (Pos2 { x: 0, y: 0 }),
            r.pointer.touches@ == Map::<u64, Pos2>::empty(),
            r.pointer.drawing_touch is None,
            r.pointer.pinch is None,
            r.pressure == (Pressure { constant: start.constant_pressure, fresh: true }),
    {
        let layers: Vec<Layer> = vec![start.layer];
        let tabs: Vec<Tab> = vec![
            Tab {
                id: start.tab,
                title: start.title,
                modified: false,
                revision: 0,
                path: None,
                notes: Vec::new(),
                parked: None,
            },
        ];
        assert(layers@ =~= seq![start.layer]);
        assert(!layers@[0].folder());
        Editor {
            page: DocumentState {
                doc: start.doc,
                layers: Stack { layers, active: 0 },
                history: History::new(),
                camera: Camera {
                    center: Pos2 {
                        x: start.doc.width as i64 * 5_000,
                        y: start.doc.height as i64 * 5_000,
                    },
                    zoom: POINT,
                },
                selection: None,
                edit_target: EditTarget::Layer,
            },
            session: Session { tabs, active: 0 },
            hand: Hand {
                brush: start.brush,
                color: start.color,
                secondary: Color { r: WHOLE, g: WHOLE, b: WHOLE, a: WHOLE },
                hsv: start.hsv,
                active_preset: None,
                tip: None,
                tip_name: None,
                paper_name: None,
            },
            shelf: start.shelf,
            viewport: Viewport::new(),
            gesture: Gesture {
                interaction: Interaction::Idle,
                draft: None,
                float: None,
                stroking: false,
                stroke_style: start.style,
                stroke_stamps_colour: false,
                stroke_slot: 0,
            },
            ui: UiState::default(),
            notice: None,
            layout: Layout::load_or_default(saved),
            quit_requested: false,
            frames: FrameTimes::new(),
            pointer: Pointer {
                last_cursor: Pos2 { x: 0, y: 0 },
                space_down: false,
                zoom_anchor: Pos2 { x: 0, y: 0 },
                touches: HashMap::new(),
                drawing_touch: None,
                pinch: None,
            },
            pressure: Pressure { constant: start.constant_pressure, fresh: true },
        }
    }

    /// Put another document in front, handing back the one that was. The gesture
    /// does not travel: it belonged to the pointer.
    fn install_document(&mut self, state: DocumentState) -> (r: DocumentState)
        requires
            state.layers.sound(),
        ensures
            r == old(self).page,
            *final(self) == (Editor {
                page: state,
                gesture: put_down(old(self).gesture, state.layers),
                ..*old(self)
            }),
    {
        let mut outgoing = state;
        std::mem::swap(&mut self.page, &mut outgoing);
        self.gesture.draft = None;
        self.gesture.float = None;
        if let Some(slot) = self.page.layers.active_slot() {
            self.gesture.stroke_slot = slot;
        }
        self.gesture.interaction = Interaction::Idle;
        outgoing
    }

    /// Open a document that has already been built, in a tab of its own at the
    /// end. `id` is what names it, `camera` shows the whole of it.
    pub fn open_document(
        &mut self,
        state: DocumentState,
        id: u64,
        title: String,
        path: Option<String>,
        notes: Vec<String>,
        camera: Camera,
    ) -> (r: u64)
        requires
            old(self).sound(),
            state.layers.sound(),
            old(self).session.tabs@.len() + 1 < usize::MAX,
        ensures
            r == id,
            final(self).sound(),
            final(self).page == (DocumentState { camera, ..state }),
            final(self).gesture == put_down(old(self).gesture, state.layers),
            final(self).session.active == old(self).session.tabs@.len(),
            final(self).session.tabs@ == old(self).session.tabs@.update(
                old(self).session.active as int,
                holding(
                    old(self).session.tabs@[old(self).session.active as int],
                    Some(old(self).page),
                ),
            ).push(Tab { id, title, modified: false, revision: 0, path, notes, parked: None }),
            final(self).hand == old(self).hand,
            final(self).shelf == old(self).shelf,
            final(self).ui == old(self).ui,
            final(self).notice == old(self).notice,
            final(self).layout == old(self).layout,
            final(self).viewport == old(self).viewport,
            final(self).quit_requested == old(self).quit_requested,
            final(self).frames == old(self).frames,
            final(self).pointer == old(self).pointer,
            final(self).pressure == old(self).pressure,
    {
        let outgoing = self.install_document(state);
        let at: usize = self.session.active;
        self.session.exchange(at, Some(outgoing));
        self.session.tabs.push(
            Tab { id, title, modified: false, revision: 0, path, notes, parked: None },
        );
        self.session.active = self.session.tabs.len() - 1;
        self.page.camera = camera;
        id
    }

    /// Open a new blank document described by `doc`, of one layer.
    pub fn create_document(
        &mut self,
        doc: Document,
        id: u64,
        title: String,
        layer: Layer,
        camera: Camera,
    ) -> (r: u64)
        requires
            old(self).sound(),
            old(self).session.tabs@.len() + 1 < usize::MAX,
            !layer.folder(),
        ensures
            r == id,
            final(self).sound(),
            blank(final(self).page, doc, layer, camera),
            final(self).gesture == put_down(old(self).gesture, final(self).page.layers),
            final(self).session.active == old(self).session.tabs@.len(),
            final(self).session.tabs@.len() == old(self).session.tabs@.len() + 1,
            final(self).session.tabs@.drop_last() == old(self).session.tabs@.update(
                old(self).session.active as int,
                holding(
                    old(self).session.tabs@[old(self).session.active as int],
                    Some(old(self).page),
                ),
            ),
            ({
                let tab = final(self).session.tabs@.last();
                &&& tab.id == id
                &&& tab.title == title
                &&& !tab.modified
                &&& tab.revision == 0
                &&& tab.path is None
                &&& tab.notes@.len() == 0
                &&& tab.parked is None
            }),
            final(self).hand == old(self).hand,
            final(self).shelf == old(self).shelf,
            final(self).ui == old(self).ui,
            final(self).notice == old(self).notice,
            final(self).layout == old(self).layout,
            final(self).viewport == old(self).viewport,
            final(self).quit_requested == old(self).quit_requested,
            final(self).frames == old(self).frames,
            final(self).pointer == old(self).pointer,
            final(self).pressure == old(self).pressure,
    {
        let layers: Vec<Layer> = vec![layer];
        assert(layers@ =~= seq![layer]);
        assert(!layers@[0].folder());
        let state = DocumentState {
            doc,
            layers: Stack { layers, active: 0 },
            history: History::new(),
            camera,
            selection: None,
            edit_target: EditTarget::Layer,
        };
        let r: u64 = self.open_document(state, id, title, None, Vec::new(), camera);
        assert(self.session.tabs@.drop_last() =~= old(self).session.tabs@.update(
            old(self).session.active as int,
            holding(old(self).session.tabs@[old(self).session.active as int], Some(old(self).page)),
        ));
        r
    }

    /// Open a new blank document like the current one.
    pub fn new_document(&mut self, id: u64, title: String, layer: Layer, camera: Camera) -> (r: u64)
        requires
            old(self).sound(),
            old(self).session.tabs@.len() + 1 < usize::MAX,
            !layer.folder(),
        ensures
            r == id,
            final(self).sound(),
            blank(final(self).page, old(self).page.doc, layer, camera),
            final(self).session.active == old(self).session.tabs@.len(),
            final(self).session.tabs@.len() == old(self).session.tabs@.len() + 1,
            final(self).session.tabs@.drop_last() == old(self).session.tabs@.update(
                old(self).session.active as int,
                holding(
                    old(self).session.tabs@[old(self).session.active as int],
                    Some(old(self).page),
                ),
            ),
            ({
                let tab = final(self).session.tabs@.last();
                &&& tab.id == id
                &&& tab.title == title
                &&& !tab.modified
                &&& tab.revision == 0
                &&& tab.path is None
                &&& tab.notes@.len() == 0
                &&& tab.parked is None
            }),
            final(self).gesture == put_down(old(self).gesture, final(self).page.layers),
            final(self).hand == old(self).hand,
            final(self).shelf == old(self).shelf,
            final(self).ui == old(self).ui,
            final(self).notice == old(self).notice,
            final(self).layout == old(self).layout,
            final(self).viewport == old(self).viewport,
            final(self).quit_requested == old(self).quit_requested,
            final(self).frames == old(self).frames,
            final(self).pointer == old(self).pointer,
            final(self).pressure == old(self).pressure,
    {
        let doc: Document = self.page.doc;
        self.create_document(doc, id, title, layer, camera)
    }

    /// Make tab `index` the live document. Returns false when there is nothing
    /// to do.
    pub fn switch_tab(&mut self, index: usize) -> (r: bool)
        requires
            old(self).sound(),
        ensures
            r == (index < old(self).session.tabs@.len() && index != old(self).session.active),
            !r ==> *final(self) == *old(self),
            r ==> switched(*old(self), index as int, *final(self)),
            final(self).sound(),
    {
        if index >= self.session.tabs.len() || index == self.session.active {
            return false;
        }
        let at: usize = self.session.active;
        let taken = self.session.exchange(index, None);
        match taken {
            Some(incoming) => {
                let outgoing = self.install_document(incoming);
                self.session.exchange(at, Some(outgoing));
                self.session.active = index;
                true
            },
            None => {
                assert(false);
                false
            },
        }
    }

    /// Close tab `index`, handing back the id whose storage can be freed.
    /// `successor` is the tab that comes forward in its place, and is nothing
    /// for the last document, which cannot be closed.
    pub fn close_tab(&mut self, index: usize, successor: Option<usize>) -> (r: Option<u64>)
        requires
            old(self).sound(),
            successor matches Some(s) ==> index < old(self).session.tabs@.len() && s < old(
                self,
            ).session.tabs@.len() && s != index,
        ensures
            successor is None ==> r is None && *final(self) == *old(self),
            successor matches Some(s) ==> {
                &&& r == Some(old(self).session.tabs@[index as int].id)
                &&& closed(*old(self), index as int, s as int, *final(self))
            },
            final(self).sound(),
    {
        let next: usize = match successor {
            Some(next) => next,
            None => return None,
        };
        let id: u64 = self.session.tabs[index].id;
        let at: usize = self.session.active;
        if index == at {
            let taken = self.session.exchange(next, None);
            match taken {
                Some(incoming) => {
                    self.session.tabs.remove(index);
                    self.session.active = if next > index {
                        next - 1
                    } else {
                        next
                    };
                    self.install_document(incoming);
                },
                None => {
                    assert(false);
                },
            }
        } else {
            self.session.tabs.remove(index);
            if index < at {
                self.session.active = at - 1;
            }
        }
        Some(id)
    }

    // --- the canvas ----------------------------------------------------------------

    /// Whether a canvas flip is refused whole.
    pub fn flip_refused_by_lock(&self) -> (r: bool)
        ensures
            r == self.page.layers.some_locked(),
    {
        self.page.layers.any_locked()
    }

    /// What carrying the entry at the top of the undo stack backwards needs
    /// first, or why it cannot be carried out.
    pub fn undo_gate(&self) -> (r: StepGate)
        ensures
            r == gate_of(History::top(self.page.history.undo@), self.page.layers.some_locked()),
    {
        gate_for(self.page.history.next_undo(), self.flip_refused_by_lock())
    }

    /// The same for the redo stack.
    pub fn redo_gate(&self) -> (r: StepGate)
        ensures
            r == gate_of(History::top(self.page.history.redo@), self.page.layers.some_locked()),
    {
        gate_for(self.page.history.next_redo(), self.flip_refused_by_lock())
    }

    /// Apply new canvas settings to the live document. Returns whether its size
    /// changed. Only a real change is a change. With the size go the history,
    /// the selection and every text record, each of them about a canvas that no
    /// longer exists, and a loss of text is said.
    pub fn apply_canvas(&mut self, doc: Document) -> (r: bool)
        requires
            old(self).sound(),
        ensures
            final(self).sound(),
            r == !old(self).page.doc.same_size(doc),
            final(self).page.doc == doc,
            final(self).session.active == old(self).session.active,
            final(self).session.tabs@ == if doc == old(self).page.doc {
                old(self).session.tabs@
            } else {
                changed(old(self).session)
            },
            !r ==> {
                &&& final(self).page == (DocumentState { doc, ..old(self).page })
                &&& final(self).gesture == old(self).gesture
                &&& final(self).notice == old(self).notice
            },
            r ==> {
                &&& final(self).page.layers.layers@ == without_text(old(self).page.layers.layers@)
                &&& final(self).page.layers.active == old(self).page.layers.active
                &&& final(self).page.history.undo@.len() == 0
                &&& final(self).page.history.redo@.len() == 0
                &&& final(self).page.selection is None
                &&& final(self).page.edit_target == old(self).page.edit_target
                &&& final(self).page.camera == (Camera {
                    center: held_to(old(self).page.camera.center, doc),
                    ..old(self).page.camera
                })
                &&& final(self).gesture == (Gesture { draft: None, ..old(self).gesture })
                &&& says_lost(
                    old(self).notice,
                    final(self).notice,
                    text_count(old(self).page.layers.layers@),
                    "Text on this document is paint now"@,
                    resize_line(text_count(old(self).page.layers.layers@)),
                )
            },
            final(self).hand == old(self).hand,
            final(self).shelf == old(self).shelf,
            final(self).ui == old(self).ui,
            final(self).layout == old(self).layout,
            final(self).viewport == old(self).viewport,
            final(self).quit_requested == old(self).quit_requested,
            final(self).frames == old(self).frames,
            final(self).pointer == old(self).pointer,
            final(self).pressure == old(self).pressure,
    {
        let resized = doc.width != self.page.doc.width || doc.height != self.page.doc.height;
        if doc != self.page.doc {
            self.session.mark_modified();
        }
        self.page.doc = doc;
        if resized {
            self.page.history.clear();
            self.page.selection = None;
            self.gesture.draft = None;
            let dropped: usize = drop_text_objects(&mut self.page.layers.layers);
            proof {
                lemma_still_paints(old(self).page.layers.layers@, self.page.layers.layers@);
            }
            if dropped > 0 {
                let mut line: Vec<char> = Vec::new();
                push_text(
                    &mut line,
                    "The canvas changed size, so Umber no longer knows where the text on ",
                );
                let count = text_layers(dropped);
                push_text(&mut line, count.as_str());
                push_text(
                    &mut line,
                    " goes. Every pixel is still there. What is lost is that it can be set again.",
                );
                assert(line@ =~= resize_line(dropped as int));
                self.notice = Some(
                    Notice {
                        title: "Text on this document is paint now".to_owned(),
                        lines: vec![string_of(&line)],
                    },
                );
            }
            let center = self.page.camera.center;
            self.page.camera.center = Pos2 {
                x: crate::geom::clamp(center.x, 0, doc.width as i64 * POINT),
                y: crate::geom::clamp(center.y, 0, doc.height as i64 * POINT),
            };
        }
        resized
    }

    /// Mirror the live document, in everything but its pixels. `mirrored` is the
    /// selection turned over, and `lost` names the layers whose text record could
    /// not be. The history and the camera are untouched; the outline being drawn
    /// is abandoned.
    pub fn flip_canvas(&mut self, mirrored: Option<Selection>, lost: &Vec<u32>)
        requires
            old(self).sound(),
        ensures
            final(self).sound(),
            final(self).page.layers.layers@ == forgotten(old(self).page.layers.layers@, lost@),
            final(self).page.layers.active == old(self).page.layers.active,
            final(self).page.selection == match old(self).page.selection {
                Some(_) => mirrored,
                None => None,
            },
            final(self).page.doc == old(self).page.doc,
            final(self).page.history == old(self).page.history,
            final(self).page.camera == old(self).page.camera,
            final(self).page.edit_target == old(self).page.edit_target,
            final(self).gesture == undrafted(old(self).gesture),
            says_lost(
                old(self).notice,
                final(self).notice,
                lost_count(old(self).page.layers.layers@, lost@),
                "Some text is paint now"@,
                flip_line(lost_count(old(self).page.layers.layers@, lost@)),
            ),
            final(self).session == old(self).session,
            final(self).hand == old(self).hand,
            final(self).shelf == old(self).shelf,
            final(self).ui == old(self).ui,
            final(self).layout == old(self).layout,
            final(self).viewport == old(self).viewport,
            final(self).quit_requested == old(self).quit_requested,
            final(self).frames == old(self).frames,
            final(self).pointer == old(self).pointer,
            final(self).pressure == old(self).pressure,
    {
        if self.page.selection.is_some() {
            self.page.selection = mirrored;
        }
        let dropped: usize = forget_text(&mut self.page.layers.layers, lost);
        proof {
            lemma_still_paints(old(self).page.layers.layers@, self.page.layers.layers@);
        }
        if dropped > 0 {
            let mut line: Vec<char> = Vec::new();
            let count = text_layers(dropped);
            push_text(&mut line, count.as_str());
            push_text(
                &mut line,
                " sat outside the canvas, so Umber could not mirror where the text goes. Every pixel is still there. What is lost is that it can be set again.",
            );
            assert(line@ =~= flip_line(dropped as int));
            self.notice = Some(
                Notice {
                    title: "Some text is paint now".to_owned(),
                    lines: vec![string_of(&line)],
                },
            );
        }
        self.gesture.cancel_draft();
    }

    /// Every open document with what storage it needs. `needed` is the slices
    /// the live one has claimed, and `parked` those of the document in each tab.
    pub fn open_documents(&self, needed: u32, parked: &Vec<u32>) -> (r: Vec<
        (u64, Document, u32),
    >)
        requires
            self.sound(),
            parked@.len() == self.session.tabs@.len(),
        ensures
            r@.len() == self.session.tabs@.len(),
            forall|i: int|
                0 <= i < r@.len() ==> #[trigger] r@[i] == (
                    self.session.tabs@[i].id,
                    match self.session.tabs@[i].parked {
                        Some(state) => state.doc,
                        None => self.page.doc,
                    },
                    match self.session.tabs@[i].parked {
                        Some(_) => parked@[i],
                        None => needed,
                    },
                ),
    {
        let mut out: Vec<(u64, Document, u32)> = Vec::new();
        let mut i: usize = 0;
        while i < self.session.tabs.len()
            invariant
                i <= self.session.tabs@.len(),
                parked@.len() == self.session.tabs@.len(),
                out@.len() == i,
                forall|k: int|
                    0 <= k < i ==> #[trigger] out@[k] == (
                        self.session.tabs@[k].id,
                        match self.session.tabs@[k].parked {
                            Some(state) => state.doc,
                            None => self.page.doc,
                        },
                        match self.session.tabs@[k].parked {
                            Some(_) => parked@[k],
                            None => needed,
                        },
                    ),
            decreases self.session.tabs@.len() - i,
        {
            let tab = &self.session.tabs[i];
            match &tab.parked {
                Some(state) => out.push((tab.id, state.doc, parked[i])),
                None => out.push((tab.id, self.page.doc, needed)),
            }
            i += 1;
        }
        out
    }

    /// Record how long a frame took.
    pub fn record_frame_time(&mut self, nanos: u64)
        requires
            old(self).sound(),
        ensures
            final(self).sound(),
            final(self).frames.times@ == old(self).frames.times@.update(
                old(self).frames.cursor as int,
                nanos,
            ),
            final(self).frames.cursor == (old(self).frames.cursor + 1) % FRAMES as int,
            *final(self) == (Editor { frames: final(self).frames, ..*old(self) }),
    {
        self.frames.record(nanos);
    }

    /// Frames a second over the last of them, in thousandths.
    pub fn average_fps(&self) -> (r: u64)
        requires
            self.sound(),
        ensures
            r == rate_of(self.frames.times@),
    {
        self.frames.average()
    }

    // --- a layer for a placement -------------------------------------------------------

    /// Make the layer a text placement puts its words on. `granted` is the place,
    /// the folder, the id and the slice it gets, and nothing where the stack
    /// takes no more. Nothing is recorded: abandoning the placement is then free.
    pub fn make_text_layer(&mut self, name: String, granted: Option<Grant>) -> (r: Option<
        MadeLayer,
    >)
        requires
            old(self).sound(),
            granted matches Some(g) ==> g.fits(old(self).page.layers),
        ensures
            final(self).sound(),
            text_layer_made(*old(self), name, granted, r, *final(self)),
    {
        let g: Grant = match granted {
            Some(g) => g,
            None => return None,
        };
        let active: usize = self.page.layers.active;
        let was_active: u32 = self.page.layers.layers[active].id;
        let before = StackShape { layers: copy_layers(&self.page.layers.layers), active };
        self.page.layers.layers.insert(
            g.at,
            Layer {
                id: g.id,
                name,
                slot: Some(g.slot),
                mask: None,
                parent: g.parent,
                visible: true,
                locked: false,
                clipped: false,
                opacity: WHOLE,
                blend: BlendMode::Normal,
                text: false,
            },
        );
        self.page.layers.active = g.at;
        proof {
            lemma_inserted(old(self).page.layers, text_layer(name, g), g, self.page.layers);
        }
        Some(MadeLayer { id: g.id, was_active, before })
    }

    /// Record the one undo entry a placement onto its own layer gets, once its
    /// commit is certain.
    pub fn commit_made_layer(&mut self, made: MadeLayer)
        requires
            old(self).sound(),
        ensures
            final(self).sound(),
            final(self).page.history.undo@ == old(self).page.history.undo@.push(
                Edit { kind: EditKind::AddLayer, body: EditBody::Structure(made.before) },
            ),
            final(self).page.history.redo@.len() == 0,
            final(self).page == (DocumentState {
                history: final(self).page.history,
                ..old(self).page
            }),
            final(self).session.active == old(self).session.active,
            final(self).session.tabs@ == changed(old(self).session),
            final(self).gesture == old(self).gesture,
            final(self).hand == old(self).hand,
            final(self).shelf == old(self).shelf,
            final(self).ui == old(self).ui,
            final(self).notice == old(self).notice,
            final(self).layout == old(self).layout,
            final(self).viewport == old(self).viewport,
            final(self).quit_requested == old(self).quit_requested,
            final(self).frames == old(self).frames,
            final(self).pointer == old(self).pointer,
            final(self).pressure == old(self).pressure,
    {
        self.page.history.record(
            Edit { kind: EditKind::AddLayer, body: EditBody::Structure(made.before) },
        );
        self.session.mark_modified();
    }

    /// Take back a layer a placement made, for every way one can end without
    /// committing. The history is not touched. A document always keeps somewhere
    /// to paint.
    pub fn unmake_layer(&mut self, made: Option<MadeLayer>)
        requires
            old(self).sound(),
        ensures
            final(self).sound(),
            layer_unmade(*old(self), made, *final(self)),
    {
        let made: MadeLayer = match made {
            Some(made) => made,
            None => return,
        };
        let at: usize = match position(&self.page.layers.layers, made.id) {
            Some(at) => at,
            None => return,
        };
        if !paints_without(&self.page.layers.layers, at) {
            return;
        }
        let active: usize = self.page.layers.active;
        self.page.layers.layers.remove(at);
        self.page.layers.active = if active >= at && active > 0 {
            active - 1
        } else {
            active
        };
        if let Some(back) = position(&self.page.layers.layers, made.was_active) {
            self.page.layers.active = back;
        }
        proof {
            lemma_removed(old(self).page.layers, at as int, self.page.layers);
            lemma_position(self.page.layers.layers@, made.was_active, 0);
        }
    }
}

// --- what these come to -----------------------------------------------------------------

/// The editor after another tab has come forward.
pub open spec fn switched(before: Editor, index: int, after: Editor) -> bool {
    let incoming = before.session.tabs@[index].parked->0;
    &&& after.page == incoming
    &&& after.gesture == put_down(before.gesture, incoming.layers)
    &&& after.session.active == index
    &&& after.session.tabs@ == before.session.tabs@.update(
        index,
        holding(before.session.tabs@[index], None),
    ).update(
        before.session.active as int,
        holding(before.session.tabs@[before.session.active as int], Some(before.page)),
    )
    &&& after.hand == before.hand
    &&& after.shelf == before.shelf
    &&& after.ui == before.ui
    &&& after.notice == before.notice
    &&& after.layout == before.layout
    &&& after.viewport == before.viewport
    &&& after.quit_requested == before.quit_requested
    &&& after.frames == before.frames
    &&& after.pointer == before.pointer
    &&& after.pressure == before.pressure
}

/// The editor after a tab has gone. Closing the live one brings its successor
/// forward and drops what was live; closing another leaves the live one be.
pub open spec fn closed(before: Editor, index: int, successor: int, after: Editor) -> bool {
    let live = before.session.active as int;
    let incoming = before.session.tabs@[successor].parked->0;
    &&& index == live ==> {
        &&& after.page == incoming
        &&& after.gesture == put_down(before.gesture, incoming.layers)
        &&& after.session.tabs@ == before.session.tabs@.update(
            successor,
            holding(before.session.tabs@[successor], None),
        ).remove(index)
        &&& after.session.active == if successor > index {
            successor - 1
        } else {
            successor
        }
    }
    &&& index != live ==> {
        &&& after.page == before.page
        &&& after.gesture == before.gesture
        &&& after.session.tabs@ == before.session.tabs@.remove(index)
        &&& after.session.active == if index < live {
            live - 1
        } else {
            live
        }
    }
    &&& after.hand == before.hand
    &&& after.shelf == before.shelf
    &&& after.ui == before.ui
    &&& after.notice == before.notice
    &&& after.layout == before.layout
    &&& after.viewport == before.viewport
    &&& after.quit_requested == before.quit_requested
    &&& after.frames == before.frames
    &&& after.pointer == before.pointer
    &&& after.pressure == before.pressure
}

/// A document nothing has been done to yet.
pub open spec fn blank(page: DocumentState, doc: Document, layer: Layer, camera: Camera) -> bool {
    &&& page.doc == doc
    &&& page.layers.layers@ == seq![layer]
    &&& page.layers.active == 0
    &&& page.history.undo@.len() == 0
    &&& page.history.redo@.len() == 0
    &&& page.camera == camera
    &&& page.selection is None
    &&& page.edit_target == EditTarget::Layer
}

/// The document in a tab: the live one where that is the tab in front, and the
/// parked one where it is not.
pub open spec fn document_in(editor: Editor, index: int) -> DocumentState {
    if index == editor.session.active {
        editor.page
    } else {
        editor.session.tabs@[index].parked->0
    }
}

/// Switching tabs changes no document: each is in its tab as it was.
pub proof fn switching_changes_no_document(before: Editor, index: int, after: Editor, tab: int)
    requires
        before.sound(),
        0 <= index < before.session.tabs@.len(),
        index != before.session.active,
        switched(before, index, after),
        0 <= tab < before.session.tabs@.len(),
    ensures
        document_in(after, tab) == document_in(before, tab),
        after.session.tabs@[tab].id == before.session.tabs@[tab].id,
        after.session.tabs@[tab].modified == before.session.tabs@[tab].modified,
{
}

/// Switching away and back leaves every tab, and the document in front, exactly
/// as they were.
pub proof fn switching_back_undoes_a_switch(
    before: Editor,
    index: int,
    between: Editor,
    after: Editor,
)
    requires
        before.sound(),
        0 <= index < before.session.tabs@.len(),
        index != before.session.active,
        switched(before, index, between),
        switched(between, before.session.active as int, after),
    ensures
        after.page == before.page,
        after.session.active == before.session.active,
        after.session.tabs@ == before.session.tabs@,
        after.hand == before.hand,
        after.shelf == before.shelf,
        after.ui == before.ui,
        after.layout == before.layout,
{
    let live = before.session.active as int;
    let (a, b) = (before.session.tabs@, after.session.tabs@);
    assert(a[live].parked is None);
    assert(a[index].parked is Some);
    assert forall|i: int| 0 <= i < a.len() implies #[trigger] b[i] == a[i] by {
        assert(between.session.tabs@[i].id == a[i].id);
    }
    assert(b =~= a);
}

/// Closing a tab loses no other document.
pub proof fn closing_loses_no_other_document(
    before: Editor,
    index: int,
    successor: int,
    after: Editor,
    tab: int,
)
    requires
        before.sound(),
        0 <= index < before.session.tabs@.len(),
        0 <= successor < before.session.tabs@.len(),
        successor != index,
        closed(before, index, successor, after),
        0 <= tab < before.session.tabs@.len(),
        tab != index,
    ensures
        ({
            let now = if tab > index {
                tab - 1
            } else {
                tab
            };
            &&& 0 <= now < after.session.tabs@.len()
            &&& after.session.tabs@[now].id == before.session.tabs@[tab].id
            &&& document_in(after, now) == document_in(before, tab)
        }),
{
}

/// The editor once a placement has been given its layer, or refused one: the
/// layer stands where it was granted and is selected, what was there before is
/// remembered, and nothing else has changed.
pub open spec fn text_layer_made(
    before: Editor,
    name: String,
    granted: Option<Grant>,
    made: Option<MadeLayer>,
    after: Editor,
) -> bool {
    match granted {
        None => made is None && after == before,
        Some(g) => {
            let stack = before.page.layers;
            &&& made is Some
            &&& made->0.id == g.id
            &&& made->0.was_active == stack.selected().id
            &&& made->0.before.layers@ == stack.layers@
            &&& made->0.before.active == stack.active
            &&& after.page.layers.layers@ == stack.layers@.insert(
                g.at as int,
                text_layer(name, g),
            )
            &&& after.page.layers.active == g.at
            &&& after == (Editor {
                page: DocumentState { layers: after.page.layers, ..before.page },
                ..before
            })
        },
    }
}

/// The editor once a placement's layer has been taken back: the layer is gone if
/// it was there and not the last one to paint on, what was selected before it is
/// selected again, and nothing else has changed.
pub open spec fn layer_unmade(before: Editor, made: Option<MadeLayer>, after: Editor) -> bool {
    let stack = before.page.layers;
    let taken = match made {
        Some(m) => removable(stack, m.id),
        None => false,
    };
    &&& after == (Editor {
        page: DocumentState { layers: after.page.layers, ..before.page },
        ..before
    })
    &&& !taken ==> after.page.layers == stack
    &&& taken ==> {
        let at = position_of(stack.layers@, made->0.id, 0);
        let left = stack.layers@.remove(at);
        let back = position_of(left, made->0.was_active, 0);
        &&& after.page.layers.layers@ == left
        &&& back < left.len() ==> after.page.layers.active == back
        &&& back == left.len() ==> after.page.layers.active == stepped_down(
            stack.active as int,
            at,
        )
    }
}

/// Abandoning a placement takes back exactly what making its layer added: the
/// layers and what was selected among them are as they were, so are the slices
/// they hold, the whole history and everything else. A placement that got no layer
/// changed nothing to begin with.
pub proof fn abandoning_a_placement_takes_back_its_layer(
    before: Editor,
    name: String,
    granted: Option<Grant>,
    made: Option<MadeLayer>,
    during: Editor,
    after: Editor,
)
    requires
        before.page.layers.sound(),
        granted matches Some(g) ==> g.fits(before.page.layers),
        text_layer_made(before, name, granted, made, during),
        layer_unmade(during, made, after),
    ensures
        after.page.layers.layers@ == before.page.layers.layers@,
        after.page.layers.active == before.page.layers.active,
        slot_ceiling(after.page.layers.layers@) == slot_ceiling(before.page.layers.layers@),
        after.page.history == before.page.history,
        during.page.history == before.page.history,
        after == (Editor {
            page: DocumentState { layers: after.page.layers, ..before.page },
            ..before
        }),
        granted is None ==> after == before,
{
    if let Some(g) = granted {
        lemma_taken_back(before.page.layers, name, g, during.page.layers);
    }
}

proof fn lemma_taken_back(before: Stack, name: String, g: Grant, during: Stack)
    requires
        before.sound(),
        g.fits(before),
        during.layers@ == before.layers@.insert(g.at as int, text_layer(name, g)),
        during.active == g.at,
    ensures
        removable(during, g.id),
        position_of(during.layers@, g.id, 0) == g.at,
        during.layers@.remove(g.at as int) == before.layers@,
        position_of(before.layers@, before.selected().id, 0) == before.active,
{
    let (a, b, at) = (before.layers@, during.layers@, g.at as int);
    assert(b.remove(at) =~= a);
    lemma_position(b, g.id, 0);
    lemma_position(a, before.selected().id, 0);
    let p = position_of(b, g.id, 0);
    assert(b[at].id == g.id);
    if p < b.len() && p != at {
        if p < at {
            assert(b[p] == a[p]);
        } else {
            assert(b[p] == a[p - 1]);
        }
    }
    let i = choose|i: int| 0 <= i < a.len() && !(#[trigger] a[i]).folder();
    let j = if i < at {
        i
    } else {
        i + 1
    };
    assert(b[j] == a[i]);
    assert(paints_elsewhere(b, at));
}

/// The tabs once the live document has changed.
pub open spec fn changed(session: Session) -> Seq<Tab> {
    session.tabs@.update(
        session.active as int,
        Tab {
            modified: true,
            revision: session.tabs@[session.active as int].revision.wrapping_add(1),
            ..session.tabs@[session.active as int]
        },
    )
}

/// A place brought back onto a canvas.
pub open spec fn held_to(center: Pos2, doc: Document) -> Pos2 {
    Pos2 {
        x: clamp_of(center.x as int, 0, doc.width * POINT) as i64,
        y: clamp_of(center.y as int, 0, doc.height * POINT) as i64,
    }
}

pub open spec fn untexted(layer: Layer) -> Layer {
    Layer { text: false, ..layer }
}

/// The layers with every text record taken off.
pub open spec fn without_text(layers: Seq<Layer>) -> Seq<Layer> {
    layers.map_values(|l: Layer| untexted(l))
}

pub open spec fn text_count(layers: Seq<Layer>) -> int
    decreases layers.len(),
{
    if layers.len() == 0 {
        0
    } else {
        text_count(layers.drop_last()) + if layers.last().text {
            1int
        } else {
            0
        }
    }
}

/// Layers that keep their slices keep somewhere to paint.
proof fn lemma_still_paints(before: Seq<Layer>, after: Seq<Layer>)
    requires
        exists|i: int| 0 <= i < before.len() && !(#[trigger] before[i]).folder(),
        after.len() == before.len(),
        forall|i: int| 0 <= i < after.len() ==> (#[trigger] after[i]).slot == before[i].slot,
    ensures
        exists|i: int| 0 <= i < after.len() && !(#[trigger] after[i]).folder(),
{
    let i = choose|i: int| 0 <= i < before.len() && !(#[trigger] before[i]).folder();
    assert(!after[i].folder());
}

fn drop_text_objects(layers: &mut Vec<Layer>) -> (r: usize)
    ensures
        final(layers)@ == without_text(old(layers)@),
        r == text_count(old(layers)@),
{
    let ghost all = layers@;
    let mut dropped: usize = 0;
    let mut i: usize = 0;
    assert(all.take(0) =~= Seq::empty());
    while i < layers.len()
        invariant
            layers@.len() == all.len(),
            i <= all.len(),
            dropped == text_count(all.take(i as int)),
            dropped <= i,
            forall|k: int| 0 <= k < i ==> #[trigger] layers@[k] == untexted(all[k]),
            forall|k: int| i <= k < all.len() ==> #[trigger] layers@[k] == all[k],
        decreases all.len() - i,
    {
        assert(all.take(i + 1).drop_last() =~= all.take(i as int));
        assert(all.take(i + 1).last() == all[i as int]);
        if layers[i].text {
            dropped += 1;
            layers[i].text = false;
        }
        i += 1;
    }
    assert(all.take(all.len() as int) =~= all);
    assert(layers@ =~= without_text(all));
    dropped
}

pub open spec fn named(ids: Seq<u32>, id: u32) -> bool {
    ids.contains(id)
}

/// The layers with the text records of those named taken off.
pub open spec fn forgotten(layers: Seq<Layer>, lost: Seq<u32>) -> Seq<Layer> {
    layers.map_values(
        |l: Layer|
            if named(lost, l.id) {
                untexted(l)
            } else {
                l
            },
    )
}

pub open spec fn lost_count(layers: Seq<Layer>, lost: Seq<u32>) -> int
    decreases layers.len(),
{
    if layers.len() == 0 {
        0
    } else {
        lost_count(layers.drop_last(), lost) + if layers.last().text && named(
            lost,
            layers.last().id,
        ) {
            1int
        } else {
            0
        }
    }
}

fn is_named(ids: &Vec<u32>, id: u32) -> (r: bool)
    ensures
        r == named(ids@, id),
{
    let mut i: usize = 0;
    while i < ids.len()
        invariant
            i <= ids@.len(),
            forall|k: int| 0 <= k < i ==> #[trigger] ids@[k] != id,
        decreases ids@.len() - i,
    {
        if ids[i] == id {
            assert(ids@[i as int] == id);
            return true;
        }
        i += 1;
    }
    false
}

fn forget_text(layers: &mut Vec<Layer>, lost: &Vec<u32>) -> (r: usize)
    ensures
        final(layers)@ == forgotten(old(layers)@, lost@),
        r == lost_count(old(layers)@, lost@),
{
    let ghost all = layers@;
    let ghost after = forgotten(all, lost@);
    let mut dropped: usize = 0;
    let mut i: usize = 0;
    assert(all.take(0) =~= Seq::empty());
    while i < layers.len()
        invariant
            layers@.len() == all.len(),
            after == forgotten(all, lost@),
            i <= all.len(),
            dropped == lost_count(all.take(i as int), lost@),
            dropped <= i,
            forall|k: int| 0 <= k < i ==> #[trigger] layers@[k] == after[k],
            forall|k: int| i <= k < all.len() ==> #[trigger] layers@[k] == all[k],
        decreases all.len() - i,
    {
        assert(all.take(i + 1).drop_last() =~= all.take(i as int));
        assert(all.take(i + 1).last() == all[i as int]);
        if layers[i].text && is_named(lost, layers[i].id) {
            dropped += 1;
            layers[i].text = false;
        }
        assert(layers@[i as int] == after[i as int]);
        i += 1;
    }
    assert(all.take(all.len() as int) =~= all);
    assert(layers@ =~= after);
    dropped
}

pub open spec fn resize_line(dropped: int) -> Seq<char> {
    "The canvas changed size, so Umber no longer knows where the text on "@ + text_layers_of(dropped)
        + " goes. Every pixel is still there. What is lost is that it can be set again."@
}

pub open spec fn flip_line(dropped: int) -> Seq<char> {
    text_layers_of(dropped)
        + " sat outside the canvas, so Umber could not mirror where the text goes. Every pixel is still there. What is lost is that it can be set again."@
}

/// A loss is said, and where nothing was lost nothing is.
pub open spec fn says_lost(
    before: Option<Notice>,
    after: Option<Notice>,
    dropped: int,
    title: Seq<char>,
    line: Seq<char>,
) -> bool {
    if dropped > 0 {
        after matches Some(notice) && notice.title@ == title && notice.lines@.len() == 1
            && notice.lines@[0]@ == line
    } else {
        after == before
    }
}

/// What a new layer is given: where it goes, the folder that is in, what names
/// it, and its slice.
#[derive(Clone, Copy, Debug, PartialEq, Eq, Structural)]
pub struct Grant {
    pub at: usize,
    pub parent: Option<u32>,
    pub id: u32,
    pub slot: u32,
}

impl Grant {
    /// Whether a stack has room for it there and no entry of that name.
    pub open spec fn fits(self, stack: Stack) -> bool {
        &&& self.at <= stack.layers@.len()
        &&& stack.layers@.len() + 1 < u32::MAX
        &&& stack.layers@.len() + 1 <= usize::MAX
        &&& forall|i: int| 0 <= i < stack.layers@.len() ==> (#[trigger] stack.layers@[i]).id != self.id
    }
}

/// The layer a placement makes.
pub open spec fn text_layer(name: String, g: Grant) -> Layer {
    Layer {
        id: g.id,
        name,
        slot: Some(g.slot),
        mask: None,
        parent: g.parent,
        visible: true,
        locked: false,
        clipped: false,
        opacity: WHOLE,
        blend: BlendMode::Normal,
        text: false,
    }
}

proof fn lemma_inserted(before: Stack, layer: Layer, g: Grant, after: Stack)
    requires
        before.sound(),
        g.fits(before),
        layer.id == g.id,
        !layer.folder(),
        after.layers@ == before.layers@.insert(g.at as int, layer),
        after.active == g.at,
    ensures
        after.sound(),
{
    assert(!after.layers@[g.at as int].folder());
    assert forall|i: int, j: int| 0 <= i < j < after.layers@.len() implies (
    #[trigger] after.layers@[i]).id != (#[trigger] after.layers@[j]).id by {
        let at = g.at as int;
        let (a, b) = (before.layers@, after.layers@);
        if i < at {
            assert(b[i] == a[i]);
        } else if i > at {
            assert(b[i] == a[i - 1]);
        }
        if j < at {
            assert(b[j] == a[j]);
        } else if j > at {
            assert(b[j] == a[j - 1]);
        }
    }
}

proof fn lemma_removed(before: Stack, at: int, after: Stack)
    requires
        before.sound(),
        0 <= at < before.layers@.len(),
        paints_elsewhere(before.layers@, at),
        after.layers@ == before.layers@.remove(at),
        after.active < after.layers@.len(),
    ensures
        after.sound(),
{
    let kept = choose|i: int|
        0 <= i < before.layers@.len() && i != at && !(#[trigger] before.layers@[i]).folder();
    let now = if kept < at {
        kept
    } else {
        kept - 1
    };
    assert(after.layers@[now] == before.layers@[kept]);
    assert forall|i: int, j: int| 0 <= i < j < after.layers@.len() implies (
    #[trigger] after.layers@[i]).id != (#[trigger] after.layers@[j]).id by {
        let (a, b) = (before.layers@, after.layers@);
        if i < at {
            assert(b[i] == a[i]);
        } else {
            assert(b[i] == a[i + 1]);
        }
        if j < at {
            assert(b[j] == a[j]);
        } else {
            assert(b[j] == a[j + 1]);
        }
    }
}

/// Whether taking an entry out leaves somewhere to paint.
pub open spec fn paints_elsewhere(layers: Seq<Layer>, at: int) -> bool {
    exists|i: int| 0 <= i < layers.len() && i != at && !(#[trigger] layers[i]).folder()
}

fn paints_without(layers: &Vec<Layer>, at: usize) -> (r: bool)
    ensures
        r == paints_elsewhere(layers@, at as int),
{
    let mut i: usize = 0;
    while i < layers.len()
        invariant
            i <= layers@.len(),
            forall|k: int| 0 <= k < i && k != at ==> (#[trigger] layers@[k]).folder(),
        decreases layers@.len() - i,
    {
        if i != at && !layers[i].is_folder() {
            assert(!layers@[i as int].folder());
            return true;
        }
        i += 1;
    }
    false
}

/// Whether the entry of this id can be taken out.
pub open spec fn removable(stack: Stack, id: u32) -> bool {
    let at = position_of(stack.layers@, id, 0);
    at < stack.layers@.len() && paints_elsewhere(stack.layers@, at)
}

/// Where the selection goes when an entry under it, or it itself, is taken out.
pub open spec fn stepped_down(active: int, at: int) -> int {
    if active >= at && active > 0 {
        active - 1
    } else {
        active
    }
}

// --- what the pieces say ----------------------------------------------------

/// The camera of a resized document is on the new canvas, and where it was on it
/// already it is not moved; otherwise it is moved to the nearest edge, in each
/// direction on its own.
pub proof fn a_camera_is_held_to_the_canvas(center: Pos2, doc: Document)
    ensures
        ({
            let held = held_to(center, doc);
            &&& 0 <= held.x <= doc.width * 10_000
            &&& 0 <= held.y <= doc.height * 10_000
            &&& 0 <= center.x <= doc.width * 10_000 ==> held.x == center.x
            &&& 0 <= center.y <= doc.height * 10_000 ==> held.y == center.y
            &&& center.x < 0 ==> held.x == 0
            &&& center.y < 0 ==> held.y == 0
            &&& center.x > doc.width * 10_000 ==> held.x == doc.width * 10_000
            &&& center.y > doc.height * 10_000 ==> held.y == doc.height * 10_000
        }),
{
}

/// The middle of a document is as far from its left edge as from its right, and as
/// far from its top as from its bottom.
pub proof fn the_middle_is_halfway(doc: Document)
    ensures
        middle_of(doc).x == doc.width * 10_000 - middle_of(doc).x,
        middle_of(doc).y == doc.height * 10_000 - middle_of(doc).y,
{
}

/// What was being done to one document is not carried on in another: no outline, no
/// transform and no drag is left, and a stroke would go on the layer selected there.
pub proof fn a_gesture_does_not_follow_to_another_document(gesture: Gesture, layers: Stack)
    ensures
        ({
            let after = put_down(gesture, layers);
            &&& after.interaction == Interaction::Idle
            &&& after.draft is None
            &&& after.float is None
            &&& layers.layers@[layers.active as int].slot matches Some(slot) ==> after.stroke_slot
                == slot
            &&& layers.layers@[layers.active as int].slot is None ==> after.stroke_slot
                == gesture.stroke_slot
            &&& after.stroking == gesture.stroking
            &&& after.stroke_style == gesture.stroke_style
            &&& after.stroke_stamps_colour == gesture.stroke_stamps_colour
        }),
{
}

/// After a resize no layer holds text, and nothing else of any layer has changed.
pub proof fn a_resize_takes_only_the_text(layers: Seq<Layer>, i: int)
    requires
        0 <= i < layers.len(),
    ensures
        without_text(layers).len() == layers.len(),
        !without_text(layers)[i].text,
        without_text(layers)[i] == (Layer { text: false, ..layers[i] }),
        !layers[i].text ==> without_text(layers)[i] == layers[i],
{
}

/// A flip takes the text of the layers it could not mirror, and of no other; nothing
/// else of any layer changes.
pub proof fn a_flip_takes_only_the_text_it_lost(layers: Seq<Layer>, lost: Seq<u32>, i: int)
    requires
        0 <= i < layers.len(),
    ensures
        forgotten(layers, lost).len() == layers.len(),
        lost.contains(layers[i].id) ==> forgotten(layers, lost)[i] == (Layer {
            text: false,
            ..layers[i]
        }),
        !lost.contains(layers[i].id) ==> forgotten(layers, lost)[i] == layers[i],
{
}

/// The layers that are said to have lost their text are those that held some: none
/// before the first is counted, and each adds one just if it held text.
pub proof fn every_layer_that_held_text_is_counted(layers: Seq<Layer>, layer: Layer)
    ensures
        text_count(Seq::<Layer>::empty()) == 0,
        text_count(layers.push(layer)) == text_count(layers) + if layer.text {
            1int
        } else {
            0
        },
        text_count(layers) >= 0,
        text_count(layers) > 0 <==> exists|i: int|
            0 <= i < layers.len() && (#[trigger] layers[i]).text,
    decreases layers.len(),
{
    assert(layers.push(layer).drop_last() =~= layers);
    if layers.len() > 0 {
        let rest = layers.drop_last();
        every_layer_that_held_text_is_counted(rest, layer);
        if layers.last().text {
            assert(layers[layers.len() - 1].text);
        }
        if text_count(rest) > 0 {
            let i = choose|i: int| 0 <= i < rest.len() && (#[trigger] rest[i]).text;
            assert(layers[i].text);
        }
        if exists|i: int| 0 <= i < layers.len() && (#[trigger] layers[i]).text {
            let i = choose|i: int| 0 <= i < layers.len() && (#[trigger] layers[i]).text;
            if i < rest.len() {
                assert(rest[i].text);
            }
        }
    }
}

/// Of a flip, a layer is counted as lost just if it is named and held text; no more
/// are lost than held any.
pub proof fn only_text_that_was_there_is_lost(layers: Seq<Layer>, lost: Seq<u32>, layer: Layer)
    ensures
        lost_count(Seq::<Layer>::empty(), lost) == 0,
        lost_count(layers.push(layer), lost) == lost_count(layers, lost) + if layer.text
            && lost.contains(layer.id) {
            1int
        } else {
            0
        },
        0 <= lost_count(layers, lost) <= text_count(layers),
    decreases layers.len(),
{
    assert(layers.push(layer).drop_last() =~= layers);
    if layers.len() > 0 {
        only_text_that_was_there_is_lost(layers.drop_last(), lost, layer);
    }
}

/// A change marks the document in front, and steps what tells its states apart; every
/// other tab is as it was, and nothing else of this one changes.
pub proof fn a_change_marks_only_the_document_in_front(session: Session, i: int)
    requires
        session.sound(),
        0 <= i < session.tabs@.len(),
    ensures
        changed(session).len() == session.tabs@.len(),
        i != session.active ==> changed(session)[i] == session.tabs@[i],
        i == session.active ==> {
            &&& changed(session)[i].modified
            &&& changed(session)[i].revision != session.tabs@[i].revision
            &&& session.tabs@[i].revision < u64::MAX ==> changed(session)[i].revision
                == session.tabs@[i].revision + 1
            &&& changed(session)[i].title == session.tabs@[i].title
            &&& changed(session)[i].id == session.tabs@[i].id
            &&& changed(session)[i].parked == session.tabs@[i].parked
        },
{
}

/// A loss is said once, in one line, and where nothing was lost whatever was being
/// said stays.
pub proof fn a_loss_is_said_only_where_there_is_one(
    before: Option<Notice>,
    after: Option<Notice>,
    dropped: int,
    title: Seq<char>,
    line: Seq<char>,
)
    requires
        says_lost(before, after, dropped, title, line),
    ensures
        dropped <= 0 ==> after == before,
        dropped > 0 ==> after is Some && after->0.title@ == title && after->0.lines@.len() == 1
            && after->0.lines@[0]@ == line,
{
}

/// A layer made for text is an ordinary one: seen, unlocked, opaque, neither clipped
/// nor masked, and holding no text yet.
pub proof fn a_layer_made_for_text_is_an_ordinary_one(name: String, g: Grant)
    ensures
        ({
            let layer = text_layer(name, g);
            &&& layer.id == g.id
            &&& layer.name == name
            &&& layer.slot == Some(g.slot)
            &&& layer.parent == g.parent
            &&& layer.mask is None
            &&& layer.visible
            &&& !layer.locked
            &&& !layer.clipped
            &&& layer.opacity == 1_000_000
            &&& layer.blend == BlendMode::Normal
            &&& !layer.text
            &&& !layer.folder()
        }),
{
}

/// Taking a layer away keeps the same one selected where it is another, and selects
/// the one below where it is itself.
pub proof fn removing_a_layer_keeps_what_is_selected(layers: Seq<Layer>, active: int, at: int)
    requires
        0 <= active < layers.len(),
        0 <= at < layers.len(),
        layers.len() > 1,
    ensures
        ({
            let next = stepped_down(active, at);
            &&& 0 <= next < layers.len() - 1
            &&& active != at ==> layers.remove(at)[next] == layers[active]
            &&& active == at && at > 0 ==> layers.remove(at)[next] == layers[at - 1]
            &&& active == at && at == 0 ==> layers.remove(at)[next] == layers[1]
        }),
{
}

/// A layer is only taken away if it is there and another that can be painted on is
/// left.
pub proof fn a_document_keeps_something_to_paint_on(stack: Stack, id: u32, i: int, j: int)
    requires
        0 <= i < stack.layers@.len(),
        stack.layers@[i].id == id,
        forall|k: int| 0 <= k < i ==> (#[trigger] stack.layers@[k]).id != id,
        0 <= j < stack.layers@.len(),
    ensures
        j != i && !stack.layers@[j].folder() ==> removable(stack, id),
        removable(stack, id) ==> exists|k: int|
            0 <= k < stack.layers@.len() && k != i && !(#[trigger] stack.layers@[k]).folder(),
{
    lemma_position(stack.layers@, id, 0);
    let at = position_of(stack.layers@, id, 0);
    assert(at == i) by {
        if at < i {
            assert(stack.layers@[at].id != id);
        }
    }
}

/// The lines that say what is lost count the layers: one in words, more in digits.
pub proof fn lost_layers_are_counted_in_words(dropped: int)
    ensures
        dropped == 1 ==> text_layers_of(dropped) == "one text layer"@,
        dropped != 1 ==> text_layers_of(dropped) == crate::number::digits_of(dropped as nat)
            + " text layers"@,
{
}

/// A document made blank has one layer, nothing to undo or redo and nothing selected.
pub proof fn a_blank_document_is_blank(
    page: DocumentState,
    doc: Document,
    layer: Layer,
    camera: Camera,
)
    requires
        blank(page, doc, layer, camera),
    ensures
        page.doc == doc,
        page.layers.layers@.len() == 1,
        page.layers.selected() == layer,
        page.history.undo@.len() == 0,
        page.history.redo@.len() == 0,
        page.selection is None,
        page.camera == camera,
        page.edit_target == EditTarget::Layer,
{
}

/// White is all of every channel.
pub proof fn white_is_all_of_every_channel()
    ensures
        white().r == 1_000_000,
        white().g == 1_000_000,
        white().b == 1_000_000,
        white().a == 1_000_000,
{
}

/// Taking a layer back selects what was selected before it was made; where that has gone,
/// what is selected stays so, or the layer below what was taken back is selected. The
/// other layers keep their order.
pub proof fn taking_back_a_layer_selects_what_was_selected(
    before: Editor,
    made: MadeLayer,
    after: Editor,
    at: int,
    other: int,
    was: int,
)
    requires
        layer_unmade(before, Some(made), after),
        0 <= at < before.page.layers.layers@.len(),
        before.page.layers.layers@[at].id == made.id,
        forall|k: int| 0 <= k < at ==> (#[trigger] before.page.layers.layers@[k]).id != made.id,
        0 <= other < before.page.layers.layers@.len(),
        other != at,
        !before.page.layers.layers@[other].folder(),
    ensures
        after.page.layers.layers@ == before.page.layers.layers@.remove(at),
        0 <= was < after.page.layers.layers@.len() && after.page.layers.layers@[was].id
            == made.was_active && (forall|k: int|
            0 <= k < was ==> (#[trigger] after.page.layers.layers@[k]).id != made.was_active)
            ==> after.page.layers.active == was,
        (forall|k: int|
            0 <= k < after.page.layers.layers@.len() ==> (
            #[trigger] after.page.layers.layers@[k]).id != made.was_active) ==> {
            let (selected, active) = (before.page.layers.active as int, after.page.layers.active);
            &&& selected < at ==> active == selected
            &&& selected > at ==> active == selected - 1
            &&& selected == at && at > 0 ==> active == at - 1
            &&& selected == at && at == 0 ==> active == 0
        },
{
    let layers = before.page.layers.layers@;
    a_document_keeps_something_to_paint_on(before.page.layers, made.id, at, other);
    assert(removable(before.page.layers, made.id));
    lemma_position(layers, made.id, 0);
    let p = position_of(layers, made.id, 0);
    if p < at {
        assert(layers[p].id != made.id);
    }
    assert(p == at);
    let left = layers.remove(at);
    lemma_position(left, made.was_active, 0);
    let back = position_of(left, made.was_active, 0);
    assert(after.page.layers.layers@ == left);
    if back < left.len() {
        assert(after.page.layers.layers@[back].id == made.was_active);
    }
    if 0 <= was < left.len() && left[was].id == made.was_active {
        assert(back <= was);
    }
}

/// The one layer of a document is not taken back.
pub proof fn the_last_layer_is_not_taken_back(before: Editor, made: MadeLayer, after: Editor)
    requires
        layer_unmade(before, Some(made), after),
        before.page.layers.layers@.len() == 1,
    ensures
        after.page.layers == before.page.layers,
{
    lemma_position(before.page.layers.layers@, made.id, 0);
}

} // verus!

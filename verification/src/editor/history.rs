//! What has been done and can be undone.

use crate::editor::layers::{Layer, Stack};
use crate::editor::state::StepGate;
use vstd::prelude::*;

verus! {

/// Which way a flip mirrors.
#[derive(Clone, Copy, Debug, PartialEq, Eq, Structural)]
pub enum FlipAxis {
    Horizontal,
    Vertical,
}

/// What an entry was, which is what it is called in the history.
#[derive(Clone, Copy, Debug, PartialEq, Eq, Structural)]
pub enum EditKind {
    Paint,
    Erase,
    Transform,
    AddLayer,
    MoveLayer,
    FlipHorizontal,
    FlipVertical,
    /// Any of the others, by its number.
    Other(u32),
}

impl EditKind {
    pub open spec fn axis(self) -> Option<FlipAxis> {
        match self {
            EditKind::FlipHorizontal => Some(FlipAxis::Horizontal),
            EditKind::FlipVertical => Some(FlipAxis::Vertical),
            _ => None,
        }
    }

    pub fn flip_axis(self) -> (r: Option<FlipAxis>)
        ensures
            r == self.axis(),
    {
        match self {
            EditKind::FlipHorizontal => Some(FlipAxis::Horizontal),
            EditKind::FlipVertical => Some(FlipAxis::Vertical),
            _ => None,
        }
    }
}

/// The stack as it stood at some moment.
#[derive(Debug)]
pub struct StackShape {
    pub layers: Vec<Layer>,
    pub active: usize,
}

/// What an entry holds to be carried out with.
#[derive(Debug)]
pub enum EditBody {
    /// Pixels kept elsewhere, under this number.
    Pixels(u64),
    /// A mirror is its own inverse and needs nothing.
    Flip,
    Structure(StackShape),
}

#[derive(Debug)]
pub struct Edit {
    pub kind: EditKind,
    pub body: EditBody,
}

/// What can be undone and what can be redone, the next of each last.
#[derive(Debug)]
pub struct History {
    pub undo: Vec<Edit>,
    pub redo: Vec<Edit>,
}

impl History {
    pub fn new() -> (r: History)
        ensures
            r.undo@ == Seq::<Edit>::empty(),
            r.redo@ == Seq::<Edit>::empty(),
    {
        History { undo: Vec::new(), redo: Vec::new() }
    }

    /// Record something done. What had been undone can no longer be redone.
    pub fn record(&mut self, edit: Edit)
        ensures
            final(self).undo@ == old(self).undo@.push(edit),
            final(self).redo@ == Seq::<Edit>::empty(),
    {
        self.undo.push(edit);
        self.redo.clear();
    }

    pub fn clear(&mut self)
        ensures
            final(self).undo@ == Seq::<Edit>::empty(),
            final(self).redo@ == Seq::<Edit>::empty(),
    {
        self.undo.clear();
        self.redo.clear();
    }

    pub fn take_undo(&mut self) -> (r: Option<Edit>)
        ensures
            final(self).redo == old(self).redo,
            match r {
                Some(edit) => old(self).undo@ == final(self).undo@.push(edit),
                None => old(self).undo@.len() == 0 && final(self).undo@ == old(self).undo@,
            },
    {
        let r = self.undo.pop();
        proof {
            if r is Some {
                assert(old(self).undo@ =~= self.undo@.push(r->0));
            }
        }
        r
    }

    pub fn take_redo(&mut self) -> (r: Option<Edit>)
        ensures
            final(self).undo == old(self).undo,
            match r {
                Some(edit) => old(self).redo@ == final(self).redo@.push(edit),
                None => old(self).redo@.len() == 0 && final(self).redo@ == old(self).redo@,
            },
    {
        let r = self.redo.pop();
        proof {
            if r is Some {
                assert(old(self).redo@ =~= self.redo@.push(r->0));
            }
        }
        r
    }

    pub fn push_redo(&mut self, edit: Edit)
        ensures
            final(self).redo@ == old(self).redo@.push(edit),
            final(self).undo == old(self).undo,
    {
        self.redo.push(edit);
    }

    pub open spec fn top(entries: Seq<Edit>) -> Option<EditKind> {
        if entries.len() == 0 {
            None
        } else {
            Some(entries.last().kind)
        }
    }

    /// The kind of what an undo would take back.
    pub fn next_undo(&self) -> (r: Option<EditKind>)
        ensures
            r == History::top(self.undo@),
    {
        if self.undo.len() == 0 {
            None
        } else {
            Some(self.undo[self.undo.len() - 1].kind)
        }
    }

    pub fn next_redo(&self) -> (r: Option<EditKind>)
        ensures
            r == History::top(self.redo@),
    {
        if self.redo.len() == 0 {
            None
        } else {
            Some(self.redo[self.redo.len() - 1].kind)
        }
    }
}

/// What a step over an entry of this kind needs first. A flip mirrors every
/// layer or none, so one locked layer refuses it whole. With nothing on that
/// stack there is nothing in the way either.
pub open spec fn gate_of(next: Option<EditKind>, locked: bool) -> StepGate {
    match next {
        Some(kind) if kind.axis() is Some => if locked {
            StepGate::FlipLocked
        } else {
            StepGate::SettleForFlip
        },
        _ => StepGate::Clear,
    }
}

pub fn gate_for(next: Option<EditKind>, locked: bool) -> (r: StepGate)
    ensures
        r == gate_of(next, locked),
{
    let axis: Option<FlipAxis> = match next {
        Some(kind) => kind.flip_axis(),
        None => None,
    };
    match axis {
        None => StepGate::Clear,
        Some(_) => if locked {
            StepGate::FlipLocked
        } else {
            StepGate::SettleForFlip
        },
    }
}

/// Put the stack back to a shape, handing back the shape it had.
pub fn restore_shape(stack: &mut Stack, shape: StackShape) -> (r: StackShape)
    ensures
        final(stack).layers == shape.layers,
        final(stack).active == shape.active,
        r.layers == old(stack).layers,
        r.active == old(stack).active,
{
    let mut shape = shape;
    std::mem::swap(&mut stack.layers, &mut shape.layers);
    std::mem::swap(&mut stack.active, &mut shape.active);
    shape
}

/// A lock refuses a step over a flip, and over nothing else.
pub proof fn a_lock_refuses_only_a_flip(next: Option<EditKind>, locked: bool)
    ensures
        gate_of(next, locked) == StepGate::FlipLocked <==> locked && (next matches Some(kind)
            && kind.axis() is Some),
        gate_of(next, false) != StepGate::FlipLocked,
{
}

/// A step over a flip waits for the stroke in hand to settle, unless a lock
/// refuses it; every other step is clear, and so is one over nothing.
pub proof fn only_a_flip_asks_for_anything(next: Option<EditKind>, locked: bool)
    ensures
        ({
            let flip = next == Some(EditKind::FlipHorizontal) || next == Some(
                EditKind::FlipVertical,
            );
            &&& gate_of(next, locked) == StepGate::Clear <==> !flip
            &&& gate_of(next, locked) == StepGate::SettleForFlip <==> flip && !locked
            &&& gate_of(next, locked) == StepGate::FlipLocked <==> flip && locked
        }),
{
}

/// A flip mirrors the way its entry says, and no other entry mirrors at all.
pub proof fn a_flip_mirrors_the_way_it_says(kind: EditKind)
    ensures
        kind.axis() == Some(FlipAxis::Horizontal) <==> kind == EditKind::FlipHorizontal,
        kind.axis() == Some(FlipAxis::Vertical) <==> kind == EditKind::FlipVertical,
{
}

/// What is undone next is what was recorded last.
pub proof fn the_next_step_is_the_last_recorded(entries: Seq<Edit>, edit: Edit)
    ensures
        History::top(entries.push(edit)) == Some(edit.kind),
        History::top(Seq::empty()) is None,
{
}

} // verus!

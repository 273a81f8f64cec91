//! The documents that are open. The one in front is live; every other is parked
//! in its tab.

use crate::editor::history::History;
use crate::editor::layers::{EditTarget, Stack};
use crate::geom::Pos2;
use vstd::prelude::*;

verus! {

/// What a document is: its size in pixels, and a number that stands for
/// everything else its settings say.
#[derive(Clone, Copy, Debug, PartialEq, Eq, Structural)]
pub struct Document {
    pub width: u32,
    pub height: u32,
    pub settings: u64,
}

impl Document {
    pub open spec fn same_size(self, other: Document) -> bool {
        self.width == other.width && self.height == other.height
    }
}

#[derive(Clone, Copy, Debug, PartialEq, Eq, Structural)]
pub struct Camera {
    /// In document pixels, on the grid.
    pub center: Pos2,
    /// Screen pixels to a document pixel, on the grid.
    pub zoom: i64,
}

#[derive(Clone, Copy, Debug, PartialEq, Eq, Structural)]
pub struct PixelRect {
    pub x: u32,
    pub y: u32,
    pub width: u32,
    pub height: u32,
}

/// Where a document lets an edit land: a mask, by what tells it from every
/// other, and the rectangle it lies in.
#[derive(Clone, Copy, Debug, PartialEq, Eq, Structural)]
pub struct Selection {
    pub id: u64,
    pub bounds: PixelRect,
}

/// Everything about a document that travels with its tab.
#[derive(Debug)]
pub struct DocumentState {
    pub doc: Document,
    pub layers: Stack,
    pub history: History,
    pub camera: Camera,
    pub selection: Option<Selection>,
    pub edit_target: EditTarget,
}

#[derive(Debug)]
pub struct Tab {
    pub id: u64,
    pub title: String,
    /// Whether closing it would lose something.
    pub modified: bool,
    pub revision: u64,
    pub path: Option<String>,
    /// What could not be brought in with it.
    pub notes: Vec<String>,
    /// Its document, while another is in front.
    pub parked: Option<DocumentState>,
}

#[derive(Debug)]
pub struct Session {
    pub tabs: Vec<Tab>,
    pub active: usize,
}

/// A tab with something else parked in it.
pub open spec fn holding(tab: Tab, parked: Option<DocumentState>) -> Tab {
    Tab { parked, ..tab }
}

impl Session {
    /// Every tab but the one in front holds its document.
    pub open spec fn sound(self) -> bool {
        &&& self.active < self.tabs@.len() < usize::MAX
        &&& forall|i: int|
            0 <= i < self.tabs@.len() ==> ((#[trigger] self.tabs@[i]).parked is None <==> i
                == self.active)
        &&& forall|i: int|
            0 <= i < self.tabs@.len() ==> ((#[trigger] self.tabs@[i]).parked matches Some(state)
                ==> state.layers.sound())
    }

    /// Exchange what a tab holds.
    pub fn exchange(&mut self, index: usize, parked: Option<DocumentState>) -> (r: Option<
        DocumentState,
    >)
        requires
            index < old(self).tabs@.len(),
        ensures
            r == old(self).tabs@[index as int].parked,
            final(self).tabs@ == old(self).tabs@.update(
                index as int,
                holding(old(self).tabs@[index as int], parked),
            ),
            final(self).active == old(self).active,
    {
        let mut parked = parked;
        std::mem::swap(&mut self.tabs[index].parked, &mut parked);
        assert(self.tabs@ =~= old(self).tabs@.update(
            index as int,
            holding(old(self).tabs@[index as int], self.tabs@[index as int].parked),
        ));
        parked
    }

    /// The live document has changed, so closing it would lose work.
    pub fn mark_modified(&mut self)
        requires
            old(self).active < old(self).tabs@.len(),
        ensures
            final(self).active == old(self).active,
            final(self).tabs@ == old(self).tabs@.update(
                old(self).active as int,
                Tab {
                    modified: true,
                    revision: old(self).tabs@[old(self).active as int].revision.wrapping_add(1),
                    ..old(self).tabs@[old(self).active as int]
                },
            ),
    {
        let at: usize = self.active;
        let revision: u64 = self.tabs[at].revision.wrapping_add(1);
        self.tabs[at].modified = true;
        self.tabs[at].revision = revision;
        assert(self.tabs@ =~= old(self).tabs@.update(
            at as int,
            Tab { modified: true, revision, ..old(self).tabs@[at as int] },
        ));
    }

    /// The live document has been written to a path.
    pub fn mark_saved(&mut self, path: String)
        requires
            old(self).active < old(self).tabs@.len(),
        ensures
            final(self).active == old(self).active,
            final(self).tabs@ == old(self).tabs@.update(
                old(self).active as int,
                Tab {
                    modified: false,
                    path: Some(path),
                    ..old(self).tabs@[old(self).active as int]
                },
            ),
    {
        let at: usize = self.active;
        self.tabs[at].modified = false;
        self.tabs[at].path = Some(path);
        assert(self.tabs@ =~= old(self).tabs@.update(
            at as int,
            Tab { modified: false, path: Some(path), ..old(self).tabs@[at as int] },
        ));
    }

    /// The places, among the first `n` tabs, of those that would lose something.
    pub open spec fn unsaved_within(tabs: Seq<Tab>, n: int) -> Seq<usize>
        decreases n,
    {
        if n <= 0 {
            Seq::empty()
        } else {
            let before = Session::unsaved_within(tabs, n - 1);
            if tabs[n - 1].modified {
                before.push((n - 1) as usize)
            } else {
                before
            }
        }
    }

    /// Every open document that would lose something if it went now, as tab
    /// positions: all of them, and not only the one in front.
    pub fn unsaved_documents(&self) -> (r: Vec<usize>)
        ensures
            r@ == Session::unsaved_within(self.tabs@, self.tabs@.len() as int),
    {
        let mut out: Vec<usize> = Vec::new();
        let mut i: usize = 0;
        while i < self.tabs.len()
            invariant
                i <= self.tabs@.len(),
                out@ == Session::unsaved_within(self.tabs@, i as int),
            decreases self.tabs@.len() - i,
        {
            if self.tabs[i].modified {
                out.push(i);
            }
            i += 1;
        }
        out
    }
}

/// The prompt names every document that would lose something and no other.
pub proof fn every_unsaved_document_is_listed(tabs: Seq<Tab>, n: int)
    requires
        0 <= n <= tabs.len(),
        tabs.len() <= usize::MAX,
    ensures
        forall|i: int|
            0 <= i < n ==> (#[trigger] tabs[i]).modified == Session::unsaved_within(tabs, n).contains(
                i as usize,
            ),
        forall|k: int|
            0 <= k < Session::unsaved_within(tabs, n).len() ==> (
            #[trigger] Session::unsaved_within(tabs, n)[k]) < n,
    decreases n,
{
    if n > 0 {
        every_unsaved_document_is_listed(tabs, n - 1);
        let before = Session::unsaved_within(tabs, n - 1);
        let after = Session::unsaved_within(tabs, n);
        assert forall|i: int| 0 <= i < n implies (#[trigger] tabs[i]).modified == after.contains(
            i as usize,
        ) by {
            if i < n - 1 {
                if before.contains(i as usize) {
                    let k = choose|k: int| 0 <= k < before.len() && before[k] == i as usize;
                    assert(after[k] == i as usize);
                }
                if after.contains(i as usize) {
                    let k = choose|k: int| 0 <= k < after.len() && after[k] == i as usize;
                    if k < before.len() {
                        assert(before[k] == after[k]);
                    }
                }
            } else if tabs[i].modified {
                assert(after[after.len() - 1] == i as usize);
            } else if after.contains(i as usize) {
                let k = choose|k: int| 0 <= k < after.len() && after[k] == i as usize;
                assert(before[k] < n - 1);
            }
        }
        assert forall|k: int| 0 <= k < after.len() implies (#[trigger] after[k]) < n by {
            if k < before.len() {
                assert(after[k] == before[k]);
            }
        }
    }
}

/// Unsaved documents are listed in the order of their tabs, each once.
pub proof fn unsaved_documents_are_in_order(tabs: Seq<Tab>, n: int)
    requires
        0 <= n <= tabs.len(),
        tabs.len() <= usize::MAX,
    ensures
        forall|a: int, b: int|
            0 <= a < b < Session::unsaved_within(tabs, n).len() ==> (
            #[trigger] Session::unsaved_within(tabs, n)[a]) < (#[trigger] Session::unsaved_within(
                tabs,
                n,
            )[b]),
    decreases n,
{
    if n > 0 {
        unsaved_documents_are_in_order(tabs, n - 1);
        every_unsaved_document_is_listed(tabs, n - 1);
        let before = Session::unsaved_within(tabs, n - 1);
        let after = Session::unsaved_within(tabs, n);
        assert forall|a: int, b: int| 0 <= a < b < after.len() implies (#[trigger] after[a]) < (
        #[trigger] after[b]) by {
            assert(after[a] == before[a]);
            if b < before.len() {
                assert(after[b] == before[b]);
            }
        }
    }
}

/// Parking a document in a tab, or taking it out, changes nothing else of the tab.
pub proof fn parking_keeps_the_tab(tab: Tab, parked: Option<DocumentState>)
    ensures
        ({
            let after = holding(tab, parked);
            &&& after.parked == parked
            &&& after.id == tab.id
            &&& after.title == tab.title
            &&& after.modified == tab.modified
            &&& after.revision == tab.revision
            &&& after.path == tab.path
            &&& after.notes == tab.notes
        }),
{
}

/// Documents are of a size just if they are as wide as each other and as tall; their other
/// settings do not matter to that.
pub proof fn a_size_is_a_width_and_a_height(a: Document, b: Document)
    ensures
        a.width != b.width ==> !a.same_size(b),
        a.height != b.height ==> !a.same_size(b),
        a.width == b.width && a.height == b.height ==> a.same_size(b),
{
}

} // verus!

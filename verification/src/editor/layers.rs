//! The layer stack, and what the composite is told of it.
//!
//! Layers run from the bottom up. A folder is an entry without a slice of its
//! own, and stands above what it holds.

use crate::geom::max_of;
use vstd::prelude::*;

verus! {

/// Whether a stroke lands in the active layer or in its mask.
#[derive(Clone, Copy, Debug, PartialEq, Eq, Structural)]
pub enum EditTarget {
    Layer,
    Mask,
}

/// A rule for combining colours.
#[derive(Clone, Copy, Debug, PartialEq, Eq, Structural)]
pub enum BlendMode {
    Normal,
    Multiply,
    /// Any of the others, by its number.
    Other(u32),
}

/// Why an entry takes no edit.
#[derive(Clone, Copy, Debug, PartialEq, Eq, Structural)]
pub enum Refusal {
    /// A folder holds neither pixels nor a mask.
    Folder,
    /// It is locked, or a folder around it is.
    Locked,
    /// Its pixels are set from a text record, which paint would put out of step.
    Text,
}

#[derive(Debug)]
pub struct Layer {
    /// What names this entry for as long as it exists.
    pub id: u32,
    pub name: String,
    /// The slice its pixels are in. A folder has none.
    pub slot: Option<u32>,
    /// The slice its mask is in.
    pub mask: Option<u32>,
    /// The folder it is in, by id.
    pub parent: Option<u32>,
    pub visible: bool,
    pub locked: bool,
    pub clipped: bool,
    /// A share of a whole.
    pub opacity: i64,
    pub blend: BlendMode,
    /// Whether its pixels are set from a text record.
    pub text: bool,
}

impl Layer {
    pub open spec fn folder(self) -> bool {
        self.slot is None
    }

    pub fn is_folder(&self) -> (r: bool)
        ensures
            r == self.folder(),
    {
        self.slot.is_none()
    }

    pub fn copy(&self) -> (r: Layer)
        ensures
            r == *self,
    {
        Layer {
            id: self.id,
            name: self.name.clone(),
            slot: self.slot,
            mask: self.mask,
            parent: self.parent,
            visible: self.visible,
            locked: self.locked,
            clipped: self.clipped,
            opacity: self.opacity,
            blend: self.blend,
            text: self.text,
        }
    }
}

pub fn copy_layers(layers: &Vec<Layer>) -> (r: Vec<Layer>)
    ensures
        r@ == layers@,
{
    let mut out: Vec<Layer> = Vec::new();
    let mut i: usize = 0;
    while i < layers.len()
        invariant
            i <= layers@.len(),
            out@ == layers@.take(i as int),
        decreases layers@.len() - i,
    {
        out.push(layers[i].copy());
        i += 1;
        assert(out@ =~= layers@.take(i as int));
    }
    assert(out@ =~= layers@);
    out
}

/// Where the entry of this id is, or past the end where there is none.
pub open spec fn position_of(layers: Seq<Layer>, id: u32, from: int) -> int
    decreases layers.len() - from,
{
    if 0 <= from < layers.len() && layers[from].id != id {
        position_of(layers, id, from + 1)
    } else {
        from
    }
}

pub proof fn lemma_position(layers: Seq<Layer>, id: u32, from: int)
    requires
        0 <= from <= layers.len(),
    ensures
        from <= position_of(layers, id, from) <= layers.len(),
        position_of(layers, id, from) < layers.len() ==> layers[position_of(layers, id, from)].id
            == id,
        forall|i: int|
            from <= i < position_of(layers, id, from) ==> (#[trigger] layers[i]).id != id,
    decreases layers.len() - from,
{
    if from < layers.len() && layers[from].id != id {
        lemma_position(layers, id, from + 1);
    }
}

pub fn position(layers: &Vec<Layer>, id: u32) -> (r: Option<usize>)
    ensures
        match r {
            Some(i) => i == position_of(layers@, id, 0) && i < layers@.len() && layers@[i as int].id
                == id,
            None => position_of(layers@, id, 0) == layers@.len() && forall|i: int|
                0 <= i < layers@.len() ==> (#[trigger] layers@[i]).id != id,
        },
{
    let mut i: usize = 0;
    while i < layers.len()
        invariant
            i <= layers@.len(),
            position_of(layers@, id, 0) == position_of(layers@, id, i as int),
            forall|j: int| 0 <= j < i ==> (#[trigger] layers@[j]).id != id,
        decreases layers@.len() - i,
    {
        if layers[i].id == id {
            return Some(i);
        }
        i += 1;
    }
    None
}

/// The folder around an entry: it stands somewhere above.
pub open spec fn parent_of(layers: Seq<Layer>, i: int) -> Option<int> {
    match layers[i].parent {
        Some(id) => {
            let p = position_of(layers, id, 0);
            if i < p < layers.len() {
                Some(p)
            } else {
                None
            }
        },
        None => None,
    }
}

/// An entry shows where its own eye is open and every folder's around it is.
pub open spec fn shown(layers: Seq<Layer>, i: int) -> bool
    decreases layers.len() - i,
{
    layers[i].visible && match parent_of(layers, i) {
        Some(p) => if i < p < layers.len() {
            shown(layers, p)
        } else {
            true
        },
        None => true,
    }
}

/// An entry is held fast where it is locked or any folder around it is.
pub open spec fn fastened(layers: Seq<Layer>, i: int) -> bool
    decreases layers.len() - i,
{
    layers[i].locked || match parent_of(layers, i) {
        Some(p) => if i < p < layers.len() {
            fastened(layers, p)
        } else {
            false
        },
        None => false,
    }
}

/// Why an entry takes no edit, if it does not. A text record is about the
/// layer's own pixels and says nothing of its mask.
pub open spec fn refusal_of(layers: Seq<Layer>, i: int, target: EditTarget) -> Option<Refusal> {
    if layers[i].folder() {
        Some(Refusal::Folder)
    } else if fastened(layers, i) {
        Some(Refusal::Locked)
    } else if layers[i].text && target == EditTarget::Layer {
        Some(Refusal::Text)
    } else {
        None
    }
}

/// What the composite draws for one layer.
#[derive(Clone, Copy, Debug, PartialEq, Eq, Structural)]
pub struct LayerDraw {
    pub slot: u32,
    pub opacity: i64,
    pub blend: BlendMode,
    pub visible: bool,
    pub mask: Option<u32>,
    pub clipped: bool,
}

/// A draw, and the id of the layer whose effects go with it.
#[derive(Clone, Copy, Debug, PartialEq, Eq, Structural)]
pub struct LayerEffects {
    pub draw: LayerDraw,
    pub layer: u32,
}

/// The slice drawn for a layer's own: that of a floating transform's preview
/// where it stands in front of this layer.
pub open spec fn drawn_slot(slot: u32, float: Option<(u32, u32)>) -> u32 {
    match float {
        Some((from, to)) => if from == slot {
            to
        } else {
            slot
        },
        None => slot,
    }
}

/// The draw of one layer. Its mask is never swapped: a floating transform moves
/// the pixels and not what hides them.
pub open spec fn draw_of(layers: Seq<Layer>, i: int, float: Option<(u32, u32)>) -> LayerEffects {
    let l = layers[i];
    LayerEffects {
        draw: LayerDraw {
            slot: drawn_slot(l.slot->0, float),
            opacity: l.opacity,
            blend: l.blend,
            visible: shown(layers, i),
            mask: l.mask,
            clipped: l.clipped,
        },
        layer: l.id,
    }
}

/// The draws of the first `n` entries, bottom up, with folders left out.
pub open spec fn draws_of(layers: Seq<Layer>, n: int, float: Option<(u32, u32)>) -> Seq<
    LayerEffects,
>
    decreases n,
{
    if n <= 0 {
        Seq::empty()
    } else {
        let below = draws_of(layers, n - 1, float);
        if layers[n - 1].folder() {
            below
        } else {
            below.push(draw_of(layers, n - 1, float))
        }
    }
}

/// How many of the first `n` entries are not folders.
pub open spec fn painted_below(layers: Seq<Layer>, n: int) -> int
    decreases n,
{
    if n <= 0 {
        0
    } else {
        painted_below(layers, n - 1) + if layers[n - 1].folder() {
            0int
        } else {
            1
        }
    }
}

/// One past the highest slice the entries hold, for their pixels or their masks.
pub open spec fn slot_ceiling(layers: Seq<Layer>) -> int
    decreases layers.len(),
{
    if layers.len() == 0 {
        0
    } else {
        let last = layers.last();
        max_of(
            slot_ceiling(layers.drop_last()),
            max_of(past_slot(last.slot), past_slot(last.mask)),
        )
    }
}

/// One past a slice, where there is one.
pub open spec fn past_slot(slot: Option<u32>) -> int {
    match slot {
        Some(n) => n + 1,
        None => 0,
    }
}

/// The stack, and which entry of it is selected.
#[derive(Debug)]
pub struct Stack {
    pub layers: Vec<Layer>,
    pub active: usize,
}

impl Stack {
    pub open spec fn sound(self) -> bool {
        &&& self.active < self.layers@.len() < u32::MAX
        &&& self.paints()
        &&& forall|i: int, j: int|
            0 <= i < j < self.layers@.len() ==> (#[trigger] self.layers@[i]).id != (
            #[trigger] self.layers@[j]).id
    }

    /// Whether there is anywhere to paint: not every entry is a folder.
    pub open spec fn paints(self) -> bool {
        exists|i: int| 0 <= i < self.layers@.len() && !(#[trigger] self.layers@[i]).folder()
    }

    pub open spec fn selected(self) -> Layer {
        self.layers@[self.active as int]
    }

    pub fn active_slot(&self) -> (r: Option<u32>)
        requires
            self.sound(),
        ensures
            r == self.selected().slot,
    {
        self.layers[self.active].slot
    }

    pub fn active_mask(&self) -> (r: Option<u32>)
        requires
            self.sound(),
        ensures
            r == self.selected().mask,
    {
        self.layers[self.active].mask
    }

    fn parent(&self, i: usize) -> (r: Option<usize>)
        requires
            i < self.layers@.len(),
        ensures
            match (r, parent_of(self.layers@, i as int)) {
                (Some(p), Some(q)) => p == q && i < p < self.layers@.len(),
                (None, None) => true,
                _ => false,
            },
    {
        match self.layers[i].parent {
            Some(id) => match position(&self.layers, id) {
                Some(p) if i < p => Some(p),
                _ => None,
            },
            None => None,
        }
    }

    /// Whether an entry shows, through its own eye and those around it.
    pub fn effective_visible(&self, i: usize) -> (r: bool)
        requires
            i < self.layers@.len(),
        ensures
            r == shown(self.layers@, i as int),
    {
        let mut at: usize = i;
        loop
            invariant
                i <= at < self.layers@.len(),
                shown(self.layers@, i as int) == shown(self.layers@, at as int),
            decreases self.layers@.len() - at,
        {
            if !self.layers[at].visible {
                return false;
            }
            match self.parent(at) {
                Some(p) => at = p,
                None => return true,
            }
        }
    }

    /// Whether an entry is held fast, by its own lock or one around it.
    pub fn effective_locked(&self, i: usize) -> (r: bool)
        requires
            i < self.layers@.len(),
        ensures
            r == fastened(self.layers@, i as int),
    {
        let mut at: usize = i;
        loop
            invariant
                i <= at < self.layers@.len(),
                fastened(self.layers@, i as int) == fastened(self.layers@, at as int),
            decreases self.layers@.len() - at,
        {
            if self.layers[at].locked {
                return true;
            }
            match self.parent(at) {
                Some(p) => at = p,
                None => return false,
            }
        }
    }

    /// Why the selected entry takes no edit, if it does not.
    pub fn active_refusal(&self, target: EditTarget) -> (r: Option<Refusal>)
        requires
            self.sound(),
        ensures
            r == refusal_of(self.layers@, self.active as int, target),
    {
        let layer = &self.layers[self.active];
        if layer.is_folder() {
            Some(Refusal::Folder)
        } else if self.effective_locked(self.active) {
            Some(Refusal::Locked)
        } else if layer.text && matches!(target, EditTarget::Layer) {
            Some(Refusal::Text)
        } else {
            None
        }
    }

    pub open spec fn some_locked(self) -> bool {
        exists|i: int| 0 <= i < self.layers@.len() && (#[trigger] self.layers@[i]).locked
    }

    pub fn any_locked(&self) -> (r: bool)
        ensures
            r == self.some_locked(),
    {
        let mut i: usize = 0;
        while i < self.layers.len()
            invariant
                i <= self.layers@.len(),
                forall|j: int| 0 <= j < i ==> !(#[trigger] self.layers@[j]).locked,
            decreases self.layers@.len() - i,
        {
            if self.layers[i].locked {
                assert(self.layers@[i as int].locked);
                return true;
            }
            i += 1;
        }
        false
    }

    fn draw(&self, i: usize, slot: u32, float: Option<(u32, u32)>) -> (r: LayerEffects)
        requires
            i < self.layers@.len(),
            self.layers@[i as int].slot == Some(slot),
        ensures
            r == draw_of(self.layers@, i as int, float),
    {
        let visible = self.effective_visible(i);
        let l = &self.layers[i];
        let slot: u32 = match float {
            Some((from, to)) if from == slot => to,
            _ => slot,
        };
        LayerEffects {
            draw: LayerDraw {
                slot,
                opacity: l.opacity,
                blend: l.blend,
                visible,
                mask: l.mask,
                clipped: l.clipped,
            },
            layer: l.id,
        }
    }

    /// The stack flattened for the composite, bottom up, each draw with the
    /// layer whose effects go with it. Folders are flattened away: what one
    /// holds, drawn in place, is the group, and all it contributes is its eye.
    pub fn effected_draws(&self, float: Option<(u32, u32)>) -> (r: Vec<LayerEffects>)
        ensures
            r@ == draws_of(self.layers@, self.layers@.len() as int, float),
    {
        let mut out: Vec<LayerEffects> = Vec::new();
        let mut i: usize = 0;
        while i < self.layers.len()
            invariant
                i <= self.layers@.len(),
                out@ == draws_of(self.layers@, i as int, float),
            decreases self.layers@.len() - i,
        {
            if let Some(slot) = self.layers[i].slot {
                out.push(self.draw(i, slot, float));
            }
            i += 1;
        }
        out
    }

    /// The same draws without the effects.
    pub fn layer_draws(&self, float: Option<(u32, u32)>) -> (r: Vec<LayerDraw>)
        ensures
            r@ == draws_of(self.layers@, self.layers@.len() as int, float).map_values(
                |e: LayerEffects| e.draw,
            ),
    {
        let all = self.effected_draws(float);
        let mut out: Vec<LayerDraw> = Vec::new();
        let mut i: usize = 0;
        while i < all.len()
            invariant
                i <= all@.len(),
                out@ == all@.take(i as int).map_values(|e: LayerEffects| e.draw),
            decreases all@.len() - i,
        {
            out.push(all[i].draw);
            i += 1;
            assert(out@ =~= all@.take(i as int).map_values(|e: LayerEffects| e.draw));
        }
        assert(all@.take(all@.len() as int) =~= all@);
        out
    }

    /// Where the selected layer sits among the draws. A folder carries no
    /// stroke, and answers with a place past the end of any list.
    pub fn active_draw_index(&self) -> (r: u32)
        requires
            self.sound(),
        ensures
            r == (if self.selected().folder() {
                u32::MAX as int
            } else {
                painted_below(self.layers@, self.active as int)
            }),
    {
        if self.layers[self.active].is_folder() {
            return u32::MAX;
        }
        let mut count: u32 = 0;
        let mut i: usize = 0;
        while i < self.active
            invariant
                self.sound(),
                i <= self.active,
                count == painted_below(self.layers@, i as int),
                count <= i,
            decreases self.active - i,
        {
            if !self.layers[i].is_folder() {
                count += 1;
            }
            i += 1;
        }
        count
    }
}

/// The lowest slice a baked effect may take: past everything claimed, and past
/// the one a floating transform previews into.
pub fn effect_slot_base(claimed: u32) -> (r: u32)
    requires
        claimed < u32::MAX,
    ensures
        r == claimed + 1,
{
    claimed + 1
}

// --- laws ---------------------------------------------------------------------------

proof fn lemma_draw_count(layers: Seq<Layer>, n: int, float: Option<(u32, u32)>)
    requires
        0 <= n <= layers.len(),
    ensures
        draws_of(layers, n, float).len() == painted_below(layers, n),
        0 <= painted_below(layers, n) <= n,
    decreases n,
{
    if n > 0 {
        lemma_draw_count(layers, n - 1, float);
    }
}

/// The draws of more entries begin with those of fewer.
proof fn lemma_draws_extend(layers: Seq<Layer>, m: int, n: int, float: Option<(u32, u32)>, k: int)
    requires
        0 <= m <= n <= layers.len(),
        0 <= k < draws_of(layers, m, float).len(),
    ensures
        k < draws_of(layers, n, float).len(),
        draws_of(layers, n, float)[k] == draws_of(layers, m, float)[k],
    decreases n,
{
    if m < n {
        lemma_draws_extend(layers, m, n - 1, float, k);
    }
}

/// The stroke is previewed on the draw the selected layer actually is, however
/// many folders stand below it; a selected folder matches no draw at all.
pub proof fn the_stroke_is_previewed_on_its_own_layer(stack: Stack, float: Option<(u32, u32)>)
    requires
        stack.sound(),
    ensures
        ({
            let draws = draws_of(stack.layers@, stack.layers@.len() as int, float);
            let at = painted_below(stack.layers@, stack.active as int);
            &&& draws.len() < u32::MAX
            &&& !stack.selected().folder() ==> 0 <= at < draws.len() && draws[at] == draw_of(
                stack.layers@,
                stack.active as int,
                float,
            )
        }),
{
    let layers = stack.layers@;
    let i = stack.active as int;
    lemma_draw_count(layers, layers.len() as int, float);
    lemma_draw_count(layers, i, float);
    if !stack.selected().folder() {
        lemma_draws_extend(layers, i + 1, layers.len() as int, float, painted_below(layers, i));
    }
}

/// A folder never reaches the composite: every draw is that of a layer with a
/// slice of its own, and there is one for each of them.
pub proof fn a_folder_is_flattened_out(layers: Seq<Layer>, float: Option<(u32, u32)>)
    ensures
        draws_of(layers, layers.len() as int, float).len() == painted_below(
            layers,
            layers.len() as int,
        ),
        forall|k: int|
            0 <= k < draws_of(layers, layers.len() as int, float).len() ==> exists|i: int|
                0 <= i < layers.len() && !layers[i].folder() && #[trigger] draws_of(
                    layers,
                    layers.len() as int,
                    float,
                )[k] == #[trigger] draw_of(layers, i, float),
{
    lemma_draw_count(layers, layers.len() as int, float);
    lemma_draw_source(layers, layers.len() as int, float);
}

proof fn lemma_draw_source(layers: Seq<Layer>, n: int, float: Option<(u32, u32)>)
    requires
        0 <= n <= layers.len(),
    ensures
        forall|k: int|
            0 <= k < draws_of(layers, n, float).len() ==> exists|i: int|
                0 <= i < n && !layers[i].folder() && #[trigger] draws_of(layers, n, float)[k]
                    == #[trigger] draw_of(layers, i, float),
    decreases n,
{
    if n > 0 {
        lemma_draw_source(layers, n - 1, float);
        let below = draws_of(layers, n - 1, float);
        assert forall|k: int| 0 <= k < draws_of(layers, n, float).len() implies exists|i: int|
            0 <= i < n && !layers[i].folder() && #[trigger] draws_of(layers, n, float)[k]
                == #[trigger] draw_of(layers, i, float) by {
            if k < below.len() {
                assert(draws_of(layers, n, float)[k] == below[k]);
                let i = choose|i: int|
                    0 <= i < n - 1 && !layers[i].folder() && #[trigger] below[k]
                        == #[trigger] draw_of(layers, i, float);
                assert(draws_of(layers, n, float)[k] == draw_of(layers, i, float));
            } else {
                assert(draws_of(layers, n, float)[k] == draw_of(layers, n - 1, float));
            }
        }
    }
}

/// Hiding a folder hides everything in it, and its own eyes are not consulted.
pub proof fn a_hidden_folder_hides_what_it_holds(layers: Seq<Layer>, i: int)
    requires
        0 <= i < layers.len(),
        parent_of(layers, i) is Some,
        !shown(layers, parent_of(layers, i)->0),
    ensures
        !shown(layers, i),
{
}

/// A lock on a folder reaches everything in it, for either target.
pub proof fn a_locked_folder_refuses_what_it_holds(layers: Seq<Layer>, i: int, target: EditTarget)
    requires
        0 <= i < layers.len(),
        parent_of(layers, i) is Some,
        fastened(layers, parent_of(layers, i)->0),
    ensures
        refusal_of(layers, i, target) is Some,
{
}

/// The draws are those of the layers, bottom up: a layer's draw stands after the
/// draws of the layers below it and before those of the layers above, and it is
/// the layer's own in everything. It carries the layer's mask, opacity, blend and
/// clipping, whatever is floating, and it draws the layer's slice, or the slice a
/// floating transform previews that one in.
pub proof fn every_draw_is_its_own_layers(layers: Seq<Layer>, float: Option<(u32, u32)>, i: int)
    requires
        0 <= i < layers.len(),
        !layers[i].folder(),
    ensures
        ({
            let draws = draws_of(layers, layers.len() as int, float);
            let at = painted_below(layers, i);
            &&& 0 <= at < draws.len()
            &&& draws[at].layer == layers[i].id
            &&& draws[at].draw.mask == layers[i].mask
            &&& draws[at].draw.opacity == layers[i].opacity
            &&& draws[at].draw.blend == layers[i].blend
            &&& draws[at].draw.clipped == layers[i].clipped
            &&& draws[at].draw.visible == shown(layers, i)
            &&& float is None ==> draws[at].draw.slot == layers[i].slot->0
            &&& float matches Some((from, to)) ==> draws[at].draw.slot == if layers[i].slot
                == Some(from) {
                to
            } else {
                layers[i].slot->0
            }
            &&& draws.len() == painted_below(layers, layers.len() as int)
            &&& forall|j: int|
                0 <= j < i && !(#[trigger] layers[j]).folder() ==> painted_below(layers, j) < at
            &&& forall|j: int|
                i < j < layers.len() && !(#[trigger] layers[j]).folder() ==> at < painted_below(
                    layers,
                    j,
                )
        }),
{
    let n = layers.len() as int;
    lemma_draw_count(layers, n, float);
    lemma_draw_count(layers, i, float);
    lemma_draw_count(layers, i + 1, float);
    lemma_draws_extend(layers, i + 1, n, float, painted_below(layers, i));
    assert forall|j: int| 0 <= j < i && !(#[trigger] layers[j]).folder() implies painted_below(
        layers,
        j,
    ) < painted_below(layers, i) by {
        lemma_painted_grows(layers, j + 1, i);
    }
    assert forall|j: int| i < j < n && !(#[trigger] layers[j]).folder() implies painted_below(
        layers,
        i,
    ) < painted_below(layers, j) by {
        lemma_painted_grows(layers, i + 1, j);
    }
}

proof fn lemma_painted_grows(layers: Seq<Layer>, a: int, b: int)
    requires
        a <= b,
    ensures
        painted_below(layers, a) <= painted_below(layers, b),
    decreases b - a,
{
    if a < b && b > 0 {
        lemma_painted_grows(layers, a, b - 1);
    }
}

/// Whether entry `j` is a folder that entry `i` is in, at any depth.
pub open spec fn encloses(layers: Seq<Layer>, j: int, i: int) -> bool
    decreases layers.len() - i,
{
    parent_of(layers, i) matches Some(p) && i < p < layers.len() && (p == j || encloses(
        layers,
        j,
        p,
    ))
}

/// The folder an entry is in is the one it names, where that stands above it.
pub proof fn an_entry_is_in_the_folder_it_names(stack: Stack, i: int, p: int)
    requires
        stack.sound(),
        0 <= i < stack.layers@.len(),
        0 <= p < stack.layers@.len(),
    ensures
        parent_of(stack.layers@, i) == Some(p) <==> i < p && stack.layers@[i].parent == Some(
            stack.layers@[p].id,
        ),
{
    let layers = stack.layers@;
    if let Some(id) = layers[i].parent {
        lemma_position(layers, id, 0);
        let q = position_of(layers, id, 0);
        if q < layers.len() && q != p {
            assert(layers[q].id != layers[p].id);
        }
    }
}

/// An entry shows exactly where its own eye is open and so is that of every folder
/// it is in.
pub proof fn an_entry_shows_through_every_eye_around_it(layers: Seq<Layer>, i: int)
    requires
        0 <= i < layers.len(),
    ensures
        shown(layers, i) <==> layers[i].visible && forall|j: int|
            0 <= j < layers.len() && #[trigger] encloses(layers, j, i) ==> layers[j].visible,
    decreases layers.len() - i,
{
    if let Some(p) = parent_of(layers, i) {
        an_entry_shows_through_every_eye_around_it(layers, p);
        if shown(layers, i) {
            assert forall|j: int| 0 <= j < layers.len() && #[trigger] encloses(
                layers,
                j,
                i,
            ) implies layers[j].visible by {
                assert(p == j || encloses(layers, j, p));
            }
        }
        if layers[i].visible && forall|j: int|
            0 <= j < layers.len() && #[trigger] encloses(layers, j, i) ==> layers[j].visible {
            assert(encloses(layers, p, i));
            assert forall|j: int| 0 <= j < layers.len() && #[trigger] encloses(
                layers,
                j,
                p,
            ) implies layers[j].visible by {
                assert(encloses(layers, j, i));
            }
        }
    }
}

/// An entry is held fast exactly where it is locked or any folder it is in is.
pub proof fn a_lock_anywhere_around_holds_an_entry(layers: Seq<Layer>, i: int)
    requires
        0 <= i < layers.len(),
    ensures
        fastened(layers, i) <==> layers[i].locked || exists|j: int|
            0 <= j < layers.len() && #[trigger] encloses(layers, j, i) && layers[j].locked,
    decreases layers.len() - i,
{
    if let Some(p) = parent_of(layers, i) {
        a_lock_anywhere_around_holds_an_entry(layers, p);
        if fastened(layers, p) {
            if layers[p].locked {
                assert(encloses(layers, p, i));
            } else {
                let j = choose|j: int|
                    0 <= j < layers.len() && #[trigger] encloses(layers, j, p) && layers[j].locked;
                assert(encloses(layers, j, i));
            }
        }
        if exists|j: int|
            0 <= j < layers.len() && #[trigger] encloses(layers, j, i) && layers[j].locked {
            let j = choose|j: int|
                0 <= j < layers.len() && #[trigger] encloses(layers, j, i) && layers[j].locked;
            assert(p == j || encloses(layers, j, p));
        }
    }
}

/// What refuses an edit: first of all that there are no pixels, then a lock, then
/// text that the edit would paint over; and nothing else does.
pub proof fn an_edit_is_refused_for_one_reason(layers: Seq<Layer>, i: int, target: EditTarget)
    ensures
        refusal_of(layers, i, target) == Some(Refusal::Folder) <==> layers[i].slot is None,
        refusal_of(layers, i, target) == Some(Refusal::Locked) <==> layers[i].slot is Some
            && fastened(layers, i),
        refusal_of(layers, i, target) == Some(Refusal::Text) <==> layers[i].slot is Some
            && !fastened(layers, i) && layers[i].text && target == EditTarget::Layer,
        refusal_of(layers, i, target) is None <==> layers[i].slot is Some && !fastened(layers, i)
            && !(layers[i].text && target == EditTarget::Layer),
{
}

/// Every slice the entries hold lies below the ceiling, and one of them is the
/// last below it.
pub proof fn the_ceiling_is_just_above_every_slice(layers: Seq<Layer>)
    ensures
        forall|i: int|
            0 <= i < layers.len() ==> ((#[trigger] layers[i]).slot matches Some(n) ==> n
                < slot_ceiling(layers)) && (layers[i].mask matches Some(n) ==> n < slot_ceiling(
                layers,
            )),
        slot_ceiling(layers) > 0 ==> exists|i: int|
            0 <= i < layers.len() && ((#[trigger] layers[i]).slot == Some(
                (slot_ceiling(layers) - 1) as u32,
            ) || layers[i].mask == Some((slot_ceiling(layers) - 1) as u32)),
        slot_ceiling(layers) >= 0,
    decreases layers.len(),
{
    if layers.len() > 0 {
        let front = layers.drop_last();
        let last = layers.len() - 1;
        the_ceiling_is_just_above_every_slice(front);
        assert forall|i: int| 0 <= i < layers.len() implies ((
        #[trigger] layers[i]).slot matches Some(n) ==> n < slot_ceiling(layers)) && (
        layers[i].mask matches Some(n) ==> n < slot_ceiling(layers)) by {
            if i < last {
                assert(layers[i] == front[i]);
            }
        }
        let top = slot_ceiling(layers);
        if top > 0 {
            if past_slot(layers[last].slot) == top || past_slot(layers[last].mask) == top {
                assert(layers[last].slot == Some((top - 1) as u32) || layers[last].mask == Some(
                    (top - 1) as u32,
                ));
            } else {
                let i = choose|i: int|
                    0 <= i < front.len() && ((#[trigger] front[i]).slot == Some((top - 1) as u32)
                        || front[i].mask == Some((top - 1) as u32));
                assert(layers[i] == front[i]);
            }
        }
    }
}

/// One locked entry anywhere in the stack is a lock, and without one there is none.
pub proof fn any_lock_in_the_stack_is_one(stack: Stack, i: int)
    requires
        0 <= i < stack.layers@.len(),
    ensures
        stack.layers@[i].locked ==> stack.some_locked(),
        (forall|k: int| 0 <= k < stack.layers@.len() ==> !(#[trigger] stack.layers@[k]).locked)
            ==> !stack.some_locked(),
{
}

} // verus!

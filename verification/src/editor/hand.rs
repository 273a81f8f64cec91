//! What the artist has in hand: the brush, its tip and its paper, and the
//! colours.

use crate::colorpicker::slider::{follow_sliders, taken_over};
use crate::colour::Hsv;
use crate::editor::layers::BlendMode;
use crate::text::same_text;
use vstd::prelude::*;

verus! {

/// A colour, each channel a share of a whole.
#[derive(Clone, Copy, Debug, PartialEq, Eq, Structural)]
pub struct Color {
    pub r: i64,
    pub g: i64,
    pub b: i64,
    pub a: i64,
}

#[derive(Clone, Copy, Debug, PartialEq, Eq, Structural)]
pub enum BrushMode {
    Paint,
    Erase,
}

#[derive(Clone, Copy, Debug, PartialEq, Eq, Structural)]
pub struct Brush {
    pub mode: BrushMode,
    pub blend: BlendMode,
    /// A share of a whole.
    pub opacity: i64,
    /// Whether picking colour up, or a modulation, gives each dab a colour of
    /// its own.
    pub colours_dabs: bool,
}

impl Brush {
    /// An eraser deposits no colour for a mode to combine.
    pub open spec fn blends(self) -> BlendMode {
        match self.mode {
            BrushMode::Erase => BlendMode::Normal,
            BrushMode::Paint => self.blend,
        }
    }

    pub fn effective_blend(self) -> (r: BlendMode)
        ensures
            r == self.blends(),
    {
        match self.mode {
            BrushMode::Erase => BlendMode::Normal,
            BrushMode::Paint => self.blend,
        }
    }
}

/// A bitmap, as a tip to stamp with or a paper to bite through.
#[derive(Clone, Copy, Debug, PartialEq, Eq, Structural)]
pub struct Mask {
    /// What tells it from every other.
    pub id: u64,
    /// Whether its texels carry colour rather than coverage alone.
    pub coloured: bool,
}

/// A bitmap by name.
#[derive(Debug)]
pub struct Named {
    pub name: String,
    pub mask: Mask,
}

/// The first bitmap of this name.
pub open spec fn found(shelf: Seq<Named>, name: Seq<char>, from: int) -> Option<Mask>
    decreases shelf.len() - from,
{
    if 0 <= from < shelf.len() {
        if shelf[from].name@ == name {
            Some(shelf[from].mask)
        } else {
            found(shelf, name, from + 1)
        }
    } else {
        None
    }
}

pub fn find(shelf: &Vec<Named>, name: &str) -> (r: Option<Mask>)
    ensures
        r == found(shelf@, name@, 0),
{
    let mut i: usize = 0;
    while i < shelf.len()
        invariant
            i <= shelf@.len(),
            found(shelf@, name@, 0) == found(shelf@, name@, i as int),
        decreases shelf@.len() - i,
    {
        if same_text(shelf[i].name.as_str(), name) {
            return Some(shelf[i].mask);
        }
        i += 1;
    }
    None
}

/// Where a name is looked up: the user's own first, then those that are shipped.
#[derive(Debug)]
pub struct Library {
    pub mine: Vec<Named>,
    pub shipped: Vec<Named>,
}

impl Library {
    pub open spec fn resolved(self, name: Seq<char>) -> Option<Mask> {
        match found(self.mine@, name, 0) {
            Some(mask) => Some(mask),
            None => found(self.shipped@, name, 0),
        }
    }

    pub fn resolve(&self, name: &str) -> (r: Option<Mask>)
        ensures
            r == self.resolved(name@),
    {
        match find(&self.mine, name) {
            Some(mask) => Some(mask),
            None => find(&self.shipped, name),
        }
    }
}

#[derive(Debug)]
pub struct BrushPreset {
    pub brush: Brush,
    pub tip: Option<String>,
    pub paper: Option<String>,
}

/// What there is to take up: the presets, and the bitmaps their names are looked
/// up among.
#[derive(Debug)]
pub struct Shelf {
    pub presets: Vec<BrushPreset>,
    pub tips: Library,
    pub papers: Library,
}

#[derive(Debug)]
pub struct Hand {
    pub brush: Brush,
    pub color: Color,
    /// Background colour, swapped with `color`.
    pub secondary: Color,
    /// The picker's own state.
    pub hsv: Hsv,
    pub active_preset: Option<usize>,
    /// The bitmap tip the brush stamps, or none for the round dab.
    pub tip: Option<Mask>,
    /// The name the tip goes by. A name with no mask is a library copied without
    /// its tips; a mask with no name has not been saved yet.
    pub tip_name: Option<String>,
    /// The name of the paper the brush bites through, or none for the shipped
    /// one its own pattern names.
    pub paper_name: Option<String>,
}

fn copy_text(text: &Option<String>) -> (r: Option<String>)
    ensures
        r == *text,
{
    match text {
        Some(s) => Some(s.clone()),
        None => None,
    }
}

impl Hand {
    /// The colour text is set in: the one in hand, unless a layer's own record is
    /// being edited, in which case the one that record holds. Fixing a typo does
    /// not change a caption's colour.
    pub fn text_colour(&self, editing: Option<Color>) -> (r: Color)
        ensures
            r == match editing {
                Some(colour) => colour,
                None => self.color,
            },
    {
        match editing {
            Some(colour) => colour,
            None => self.color,
        }
    }

    /// The same hand with its brush in another mode.
    pub open spec fn in_mode(self, mode: BrushMode) -> Hand {
        Hand { brush: Brush { mode, ..self.brush }, ..self }
    }

    pub fn set_mode(&mut self, mode: BrushMode)
        ensures
            *final(self) == old(self).in_mode(mode),
    {
        self.brush.mode = mode;
    }

    /// Point the picker at a colour chosen elsewhere, whose hue, saturation and
    /// value are `next`, keeping the hue for a grey.
    pub fn set_color(&mut self, color: Color, next: Hsv)
        ensures
            *final(self) == (Hand { color, hsv: taken_over(old(self).hsv, next), ..*old(self) }),
    {
        self.color = color;
        let mut hsv = self.hsv;
        follow_sliders(&mut hsv, next);
        self.hsv = hsv;
    }

    /// Swap foreground and background. `next` is the mix of the colour that
    /// comes forward.
    pub fn swap_colors(&mut self, next: Hsv)
        ensures
            *final(self) == (Hand {
                color: old(self).secondary,
                secondary: old(self).color,
                hsv: taken_over(old(self).hsv, next),
                ..*old(self)
            }),
    {
        let color = self.color;
        self.color = self.secondary;
        self.secondary = color;
        let front = self.color;
        self.set_color(front, next);
    }

    /// Load a brush preset, keeping the paint or erase mode. A name pointing at
    /// a bitmap that is not here paints round, and is kept all the same.
    pub fn apply_preset(&mut self, presets: &Vec<BrushPreset>, index: usize, tips: &Library)
        ensures
            index >= presets@.len() ==> *final(self) == *old(self),
            index < presets@.len() ==> {
                let preset = presets@[index as int];
                *final(self) == (Hand {
                    brush: Brush { mode: old(self).brush.mode, ..preset.brush },
                    tip: match preset.tip {
                        Some(name) => tips.resolved(name@),
                        None => None,
                    },
                    tip_name: preset.tip,
                    paper_name: preset.paper,
                    active_preset: Some(index),
                    ..*old(self)
                })
            },
    {
        if index >= presets.len() {
            return;
        }
        let preset = &presets[index];
        let mode = self.brush.mode;
        self.brush = Brush { mode, ..preset.brush };
        self.tip = match &preset.tip {
            Some(name) => tips.resolve(name.as_str()),
            None => None,
        };
        self.tip_name = copy_text(&preset.tip);
        self.paper_name = copy_text(&preset.paper);
        self.active_preset = Some(index);
    }

    /// The tile the brush paints through. A name that is nowhere paints flat:
    /// a stand-in would put a grain into the mark that nobody chose. Without a
    /// name it is the shipped tile the brush's own pattern names.
    pub open spec fn paper(self, papers: Library, pattern: Seq<char>) -> Option<Mask> {
        match self.paper_name {
            Some(name) => papers.resolved(name@),
            None => found(papers.shipped@, pattern, 0),
        }
    }

    pub fn paper_tile(&self, papers: &Library, pattern: &str) -> (r: Option<Mask>)
        ensures
            r == self.paper(*papers, pattern@),
    {
        match &self.paper_name {
            Some(name) => papers.resolve(name.as_str()),
            None => find(&papers.shipped, pattern),
        }
    }

    /// Choose the paper by name, or go back to the shipped set.
    pub fn set_paper(&mut self, name: Option<String>)
        ensures
            *final(self) == (Hand { paper_name: name, ..*old(self) }),
    {
        self.paper_name = name;
    }

    /// Put a bitmap tip in the brush's hand, by name where it has one.
    pub fn set_tip(&mut self, mask: Mask, name: Option<String>)
        ensures
            *final(self) == (Hand { tip: Some(mask), tip_name: name, ..*old(self) }),
    {
        self.tip = Some(mask);
        self.tip_name = name;
    }

    /// Take the bitmap tip off the brush in hand, its name with it.
    pub fn clear_tip(&mut self)
        ensures
            *final(self) == (Hand { tip: None, tip_name: None, ..*old(self) }),
    {
        self.tip = None;
        self.tip_name = None;
    }
}

/// Swapping the colours twice puts both back.
pub proof fn swapping_twice_puts_the_colours_back(
    hand: Hand,
    once: Hand,
    twice: Hand,
    first: Hsv,
    second: Hsv,
)
    requires
        once == (Hand {
            color: hand.secondary,
            secondary: hand.color,
            hsv: taken_over(hand.hsv, first),
            ..hand
        }),
        twice == (Hand {
            color: once.secondary,
            secondary: once.color,
            hsv: taken_over(once.hsv, second),
            ..once
        }),
    ensures
        twice.color == hand.color,
        twice.secondary == hand.secondary,
{
}

/// A tile of the user's own wins over a shipped one of the same name.
pub proof fn the_users_own_tile_wins(papers: Library, name: Seq<char>)
    requires
        found(papers.mine@, name, 0) is Some,
    ensures
        papers.resolved(name) == found(papers.mine@, name, 0),
{
}

/// Looking a name up finds the first bitmap of that name, and nothing exactly
/// where there is none.
pub proof fn a_name_finds_the_first_bitmap_of_it(shelf: Seq<Named>, name: Seq<char>, from: int)
    requires
        0 <= from <= shelf.len(),
    ensures
        match found(shelf, name, from) {
            Some(mask) => exists|i: int|
                {
                    &&& from <= i < shelf.len()
                    &&& #[trigger] shelf[i].name@ == name
                    &&& shelf[i].mask == mask
                    &&& forall|j: int| from <= j < i ==> (#[trigger] shelf[j]).name@ != name
                },
            None => forall|j: int| from <= j < shelf.len() ==> (#[trigger] shelf[j]).name@ != name,
        },
    decreases shelf.len() - from,
{
    if from < shelf.len() {
        if shelf[from].name@ == name {
            assert(shelf[from].mask == found(shelf, name, from)->0);
        } else {
            a_name_finds_the_first_bitmap_of_it(shelf, name, from + 1);
            if found(shelf, name, from + 1) is Some {
                let mask = found(shelf, name, from + 1)->0;
                let i = choose|i: int|
                    {
                        &&& from + 1 <= i < shelf.len()
                        &&& #[trigger] shelf[i].name@ == name
                        &&& shelf[i].mask == mask
                        &&& forall|j: int| from + 1 <= j < i ==> (#[trigger] shelf[j]).name@ != name
                    };
                assert(shelf[i].name@ == name && shelf[i].mask == mask);
            }
        }
    }
}

/// A shipped bitmap is found where the user has none of that name.
pub proof fn a_shipped_bitmap_stands_in(library: Library, name: Seq<char>)
    requires
        found(library.mine@, name, 0) is None,
    ensures
        library.resolved(name) == found(library.shipped@, name, 0),
{
}

/// The paper that was chosen is looked up by its name among all of them; with none
/// chosen it is the brush's own pattern, and that is a shipped one even where the
/// user has another of that name.
pub proof fn a_chosen_paper_is_looked_up_by_name(hand: Hand, papers: Library, pattern: Seq<char>)
    ensures
        hand.paper_name matches Some(name) ==> hand.paper(papers, pattern) == papers.resolved(
            name@,
        ),
        hand.paper_name is None ==> hand.paper(papers, pattern) == found(
            papers.shipped@,
            pattern,
            0,
        ),
{
}

/// An eraser blends in no mode, and a brush in its own.
pub proof fn only_a_brush_blends(brush: Brush)
    ensures
        brush.mode == BrushMode::Erase ==> brush.blends() == BlendMode::Normal,
        brush.mode == BrushMode::Paint ==> brush.blends() == brush.blend,
{
}

/// Changing the mode changes nothing else in hand.
pub proof fn changing_the_mode_keeps_the_hand(hand: Hand, mode: BrushMode)
    ensures
        ({
            let after = hand.in_mode(mode);
            &&& after.brush.mode == mode
            &&& after.brush.blend == hand.brush.blend
            &&& after.brush.opacity == hand.brush.opacity
            &&& after.brush.colours_dabs == hand.brush.colours_dabs
            &&& after.color == hand.color
            &&& after.secondary == hand.secondary
            &&& after.hsv == hand.hsv
            &&& after.active_preset == hand.active_preset
            &&& after.tip == hand.tip
            &&& after.tip_name == hand.tip_name
            &&& after.paper_name == hand.paper_name
        }),
{
}

} // verus!

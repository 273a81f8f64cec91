//! The modules there are, and the two sides they dock at.

use crate::dock::limits;
use crate::metrics;
use crate::text::{chars_of, spells};
use vstd::prelude::*;

verus! {

/// A module that can be docked, floated or closed.
#[derive(Clone, Copy, Debug, PartialEq, Eq, Hash, Structural)]
pub enum PanelKind {
    Tools,
    Colour,
    Palette,
    Brushes,
    Layers,
    History,
    Text,
}

impl PanelKind {
    /// Every module, in the order the interface lists them.
    pub fn all() -> (r: [PanelKind; 7])
        ensures
            r@ == PanelKind::every(),
            forall|k: PanelKind| #[trigger] r@.contains(k),
    {
        let r = [
            PanelKind::Tools,
            PanelKind::Colour,
            PanelKind::Palette,
            PanelKind::Brushes,
            PanelKind::Layers,
            PanelKind::History,
            PanelKind::Text,
        ];
        assert(r@ =~= PanelKind::every());
        assert forall|k: PanelKind| #[trigger] r@.contains(k) by {
            let i = match k {
                PanelKind::Tools => 0int,
                PanelKind::Colour => 1,
                PanelKind::Palette => 2,
                PanelKind::Brushes => 3,
                PanelKind::Layers => 4,
                PanelKind::History => 5,
                PanelKind::Text => 6,
            };
            assert(r@[i] == k);
        }
        r
    }

    pub open spec fn every() -> Seq<PanelKind> {
        seq![
            PanelKind::Tools,
            PanelKind::Colour,
            PanelKind::Palette,
            PanelKind::Brushes,
            PanelKind::Layers,
            PanelKind::History,
            PanelKind::Text,
        ]
    }

    pub open spec fn title_text(self) -> Seq<char> {
        match self {
            PanelKind::Tools => "Tools"@,
            PanelKind::Colour => "Colour"@,
            PanelKind::Palette => "Palette"@,
            PanelKind::Brushes => "Brushes"@,
            PanelKind::Layers => "Layers"@,
            PanelKind::History => "History"@,
            PanelKind::Text => "Text"@,
        }
    }

    pub fn title(self) -> (r: &'static str)
        ensures
            r@ == self.title_text(),
    {
        match self {
            PanelKind::Tools => "Tools",
            PanelKind::Colour => "Colour",
            PanelKind::Palette => "Palette",
            PanelKind::Brushes => "Brushes",
            PanelKind::Layers => "Layers",
            PanelKind::History => "History",
            PanelKind::Text => "Text",
        }
    }

    pub open spec fn description_text(self) -> Seq<char> {
        match self {
            PanelKind::Tools =>
                "The tools, and the painting and background colours with the swap between them."@,
            PanelKind::Colour =>
                "Choose the painting colour \u{2014} a hue ring, a saturation square, RGB sliders or a harmony wheel."@,
            PanelKind::Palette =>
                "The colours you are working with, and the library of palettes you keep them in."@,
            PanelKind::Brushes =>
                "The brushes in reach, and the way in to the whole library and to importing more."@,
            PanelKind::Layers => "The layer stack: order, visibility, opacity and blend mode."@,
            PanelKind::History =>
                "Every stroke on this document, and a click to go back to any of them."@,
            PanelKind::Text =>
                "Set a line of text in any font on this machine, and place it on the canvas to move, scale and turn."@,
        }
    }

    /// One line saying what the module is for.
    pub fn description(self) -> (r: &'static str)
        ensures
            r@ == self.description_text(),
    {
        match self {
            PanelKind::Tools =>
                "The tools, and the painting and background colours with the swap between them.",
            PanelKind::Colour =>
                "Choose the painting colour \u{2014} a hue ring, a saturation square, RGB sliders or a harmony wheel.",
            PanelKind::Palette =>
                "The colours you are working with, and the library of palettes you keep them in.",
            PanelKind::Brushes =>
                "The brushes in reach, and the way in to the whole library and to importing more.",
            PanelKind::Layers => "The layer stack: order, visibility, opacity and blend mode.",
            PanelKind::History =>
                "Every stroke on this document, and a click to go back to any of them.",
            PanelKind::Text =>
                "Set a line of text in any font on this machine, and place it on the canvas to move, scale and turn.",
        }
    }

    pub open spec fn key_text(self) -> Seq<char> {
        match self {
            PanelKind::Tools => "tools"@,
            PanelKind::Colour => "colour"@,
            PanelKind::Palette => "palette"@,
            PanelKind::Brushes => "brushes"@,
            PanelKind::Layers => "layers"@,
            PanelKind::History => "history"@,
            PanelKind::Text => "text"@,
        }
    }

    /// Stable name for the config file. Deliberately not derived from `title`,
    /// so retitling a panel cannot silently invalidate saved layouts.
    pub fn key(self) -> (r: &'static str)
        ensures
            r@ == self.key_text(),
    {
        match self {
            PanelKind::Tools => "tools",
            PanelKind::Colour => "colour",
            PanelKind::Palette => "palette",
            PanelKind::Brushes => "brushes",
            PanelKind::Layers => "layers",
            PanelKind::History => "history",
            PanelKind::Text => "text",
        }
    }

    /// The module with this key.
    pub open spec fn named(key: Seq<char>) -> Option<PanelKind> {
        if key == "tools"@ {
            Some(PanelKind::Tools)
        } else if key == "colour"@ {
            Some(PanelKind::Colour)
        } else if key == "palette"@ {
            Some(PanelKind::Palette)
        } else if key == "brushes"@ {
            Some(PanelKind::Brushes)
        } else if key == "layers"@ {
            Some(PanelKind::Layers)
        } else if key == "history"@ {
            Some(PanelKind::History)
        } else if key == "text"@ {
            Some(PanelKind::Text)
        } else {
            None
        }
    }

    pub fn from_key(key: &str) -> (r: Option<PanelKind>)
        ensures
            r == PanelKind::named(key@),
    {
        let word = chars_of(key);
        PanelKind::from_word(&word)
    }

    pub(crate) fn from_word(word: &Vec<char>) -> (r: Option<PanelKind>)
        ensures
            r == PanelKind::named(word@),
    {
        if spells(word, "tools") {
            Some(PanelKind::Tools)
        } else if spells(word, "colour") {
            Some(PanelKind::Colour)
        } else if spells(word, "palette") {
            Some(PanelKind::Palette)
        } else if spells(word, "brushes") {
            Some(PanelKind::Brushes)
        } else if spells(word, "layers") {
            Some(PanelKind::Layers)
        } else if spells(word, "history") {
            Some(PanelKind::History)
        } else if spells(word, "text") {
            Some(PanelKind::Text)
        } else {
            None
        }
    }

    pub open spec fn starting_weight(self) -> int {
        match self {
            PanelKind::Tools => 1_000_000,
            PanelKind::Colour => 3_000_000,
            PanelKind::Palette => 1_300_000,
            PanelKind::Brushes => 1_300_000,
            PanelKind::Layers => 2_200_000,
            PanelKind::History => 2_000_000,
            PanelKind::Text => 2_200_000,
        }
    }

    /// Share of the column's flexible space in the default layout. The colour
    /// picker is the tallest thing in the dock, so it gets the most.
    pub fn default_weight(self) -> (r: i64)
        ensures
            r == self.starting_weight(),
    {
        match self {
            PanelKind::Tools => 1_000_000,
            PanelKind::Colour => 3_000_000,
            PanelKind::Palette => 1_300_000,
            PanelKind::Brushes => 1_300_000,
            PanelKind::Layers => 2_200_000,
            PanelKind::History => 2_000_000,
            PanelKind::Text => 2_200_000,
        }
    }

    pub open spec fn starting_width(self) -> int {
        match self {
            PanelKind::Tools => limits::SIDEBAR_MIN_WIDTH as int,
            _ => metrics::PANEL as int,
        }
    }

    /// How wide a column holding only this module starts out.
    ///
    /// The rail starts at the narrowest an ordinary column may be, not at its
    /// own floor: a column that starts on its minimum can only be dragged one
    /// way.
    pub fn default_width(self) -> (r: i64)
        ensures
            r == self.starting_width(),
    {
        match self {
            PanelKind::Tools => limits::SIDEBAR_MIN_WIDTH,
            _ => metrics::PANEL,
        }
    }

    pub open spec fn least_width(self) -> int {
        match self {
            PanelKind::Tools => metrics::TOOL_RAIL as int,
            _ => limits::SIDEBAR_MIN_WIDTH as int,
        }
    }

    /// The narrowest a column holding this module may be dragged.
    pub fn min_width(self) -> (r: i64)
        ensures
            r == self.least_width(),
    {
        match self {
            PanelKind::Tools => metrics::TOOL_RAIL,
            _ => limits::SIDEBAR_MIN_WIDTH,
        }
    }
}

/// Every module's key names that module and no other.
pub proof fn kind_keys_round_trip(k: PanelKind)
    ensures
        PanelKind::named(k.key_text()) == Some(k),
{
    reveal_strlit("tools");
    reveal_strlit("colour");
    reveal_strlit("palette");
    reveal_strlit("brushes");
    reveal_strlit("layers");
    reveal_strlit("history");
    reveal_strlit("text");
    assert("tools"@[0] == 't' && "tools"@.len() == 5);
    assert("colour"@[0] == 'c' && "colour"@.len() == 6);
    assert("palette"@[0] == 'p' && "brushes"@[0] == 'b' && "layers"@[0] == 'l');
    assert("history"@[0] == 'h' && "text"@.len() == 4);
}

/// An edge of the workspace.
#[derive(Clone, Copy, Debug, PartialEq, Eq, Hash, Structural)]
pub enum Side {
    Left,
    Right,
}

impl Side {
    pub fn all() -> (r: [Side; 2])
        ensures
            r@ == seq![Side::Left, Side::Right],
    {
        let r = [Side::Left, Side::Right];
        assert(r@ =~= seq![Side::Left, Side::Right]);
        r
    }

    pub open spec fn position(self) -> int {
        match self {
            Side::Left => 0,
            Side::Right => 1,
        }
    }

    pub fn index(self) -> (r: usize)
        ensures
            r == self.position(),
    {
        match self {
            Side::Left => 0,
            Side::Right => 1,
        }
    }

    pub open spec fn opposite(self) -> Side {
        match self {
            Side::Left => Side::Right,
            Side::Right => Side::Left,
        }
    }

    pub fn other(self) -> (r: Side)
        ensures
            r == self.opposite(),
    {
        match self {
            Side::Left => Side::Right,
            Side::Right => Side::Left,
        }
    }

    pub open spec fn key_text(self) -> Seq<char> {
        match self {
            Side::Left => "left"@,
            Side::Right => "right"@,
        }
    }

    pub fn key(self) -> (r: &'static str)
        ensures
            r@ == self.key_text(),
    {
        match self {
            Side::Left => "left",
            Side::Right => "right",
        }
    }

    pub open spec fn named(key: Seq<char>) -> Option<Side> {
        if key == "left"@ {
            Some(Side::Left)
        } else if key == "right"@ {
            Some(Side::Right)
        } else {
            None
        }
    }

    pub fn from_key(key: &str) -> (r: Option<Side>)
        ensures
            r == Side::named(key@),
    {
        let word = chars_of(key);
        Side::from_word(&word)
    }

    pub(crate) fn from_word(word: &Vec<char>) -> (r: Option<Side>)
        ensures
            r == Side::named(word@),
    {
        if spells(word, "left") {
            Some(Side::Left)
        } else if spells(word, "right") {
            Some(Side::Right)
        } else {
            None
        }
    }
}

/// Each side's key names that side, and the other side of the other side is
/// the side itself.
pub proof fn side_keys_round_trip(s: Side)
    ensures
        Side::named(s.key_text()) == Some(s),
        s.opposite().opposite() == s,
        s.opposite() != s,
{
    reveal_strlit("left");
    reveal_strlit("right");
    assert("left"@[0] == 'l' && "right"@[0] == 'r');
}

/// Only the tools fit in a column as narrow as their rail, of 76 points; every other
/// module needs 190, and starts in 264.
pub proof fn only_the_tools_fit_in_a_rail(k: PanelKind)
    ensures
        k == PanelKind::Tools ==> k.least_width() == 760_000 && k.starting_width() == 1_900_000,
        k != PanelKind::Tools ==> k.least_width() == 1_900_000 && k.starting_width() == 2_640_000,
        k.least_width() <= k.starting_width() <= 4_600_000,
{
}

/// The colours start the tallest; the layers and the text next, then the history; the
/// palette and the brushes are lists and start low, and the tools lowest.
pub proof fn modules_start_at_their_own_heights()
    ensures
        PanelKind::Colour.starting_weight() == 3 * PanelKind::Tools.starting_weight(),
        PanelKind::Tools.starting_weight() == 1_000_000,
        PanelKind::Layers.starting_weight() == 2_200_000,
        PanelKind::Text.starting_weight() == PanelKind::Layers.starting_weight(),
        PanelKind::History.starting_weight() == 2_000_000,
        PanelKind::Palette.starting_weight() == 1_300_000,
        PanelKind::Brushes.starting_weight() == PanelKind::Palette.starting_weight(),
{
}

/// Every module is in the list of them, once.
pub proof fn every_module_is_listed_once(k: PanelKind)
    ensures
        PanelKind::every().contains(k),
        PanelKind::every().no_duplicates(),
        PanelKind::every().len() == 7,
{
    let all = PanelKind::every();
    let i: int = match k {
        PanelKind::Tools => 0,
        PanelKind::Colour => 1,
        PanelKind::Palette => 2,
        PanelKind::Brushes => 3,
        PanelKind::Layers => 4,
        PanelKind::History => 5,
        PanelKind::Text => 6,
    };
    assert(all[i] == k);
}

/// A module's title is its key with a capital.
pub proof fn a_title_is_the_key_with_a_capital(k: PanelKind)
    ensures
        k.title_text().len() == k.key_text().len(),
        k.title_text().skip(1) == k.key_text().skip(1),
        k.title_text()[0] as int == k.key_text()[0] as int - 32,
{
    reveal_strlit("tools");
    reveal_strlit("colour");
    reveal_strlit("palette");
    reveal_strlit("brushes");
    reveal_strlit("layers");
    reveal_strlit("history");
    reveal_strlit("text");
    reveal_strlit("Tools");
    reveal_strlit("Colour");
    reveal_strlit("Palette");
    reveal_strlit("Brushes");
    reveal_strlit("Layers");
    reveal_strlit("History");
    reveal_strlit("Text");
    assert(k.title_text().skip(1) =~= k.key_text().skip(1));
}

/// Left is the first side and right the second, each the other's opposite.
pub proof fn left_is_opposite_right()
    ensures
        Side::Left.opposite() == Side::Right,
        Side::Right.opposite() == Side::Left,
        Side::Left.position() == 0,
        Side::Right.position() == 1,
        Side::Left.key_text() == "left"@,
        Side::Right.key_text() == "right"@,
{
}

} // verus!

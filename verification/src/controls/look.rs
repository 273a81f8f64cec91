//! How the painted controls look in each of their states.
//!
//! Colours are named, not given: which colour a name is belongs to the theme.

use crate::geom::{Pos2, Rect, Vec2, REACH};
use vstd::prelude::*;

verus! {

/// A colour the theme has a value for.
#[derive(Clone, Copy, Debug, PartialEq, Eq, Structural)]
pub enum Token {
    Window,
    Border,
    Control,
    ControlHover,
    ControlActive,
    Accent,
    AccentDim,
    Text,
    TextStrong,
    TextMuted,
    TextDim,
}

/// A colour and how much of it is left, in hundredths.
#[derive(Clone, Copy, Debug, PartialEq, Eq, Structural)]
pub struct Ink {
    pub token: Token,
    pub strength: u8,
}

pub open spec fn full(token: Token) -> Ink {
    Ink { token, strength: 100 }
}

fn whole(token: Token) -> (r: Ink)
    ensures
        r == full(token),
{
    Ink { token, strength: 100 }
}

/// How a control is painted, and whether it takes a click. One that is disabled
/// is still hovered, because the hint that says why is the reason to draw it.
#[derive(Clone, Copy, Debug, PartialEq, Eq, Structural)]
pub struct Look {
    pub fill: Option<Token>,
    pub border: Option<Token>,
    pub ink: Ink,
    pub clickable: bool,
}

/// A square icon button at the end of a row.
pub fn icon_button(enabled: bool, hovered: bool) -> (r: Look)
    ensures
        r.fill == (if enabled && hovered {
            Some(Token::ControlHover)
        } else {
            None
        }),
        r.border is None,
        r.ink == (if !enabled {
            Ink { token: Token::TextDim, strength: 45 }
        } else if hovered {
            full(Token::TextStrong)
        } else {
            full(Token::TextMuted)
        }),
        r.clickable == enabled,
{
    Look {
        fill: if enabled && hovered {
            Some(Token::ControlHover)
        } else {
            None
        },
        border: None,
        ink: match (enabled, hovered) {
            (false, _) => Ink { token: Token::TextDim, strength: 45 },
            (true, true) => whole(Token::TextStrong),
            (true, false) => whole(Token::TextMuted),
        },
        clickable: enabled,
    }
}

/// A small pill with a word in it. The emphatic one has the accent for a border.
pub fn text_button(emphasis: bool, enabled: bool, hovered: bool) -> (r: Look)
    ensures
        r.fill == Some(
            if !enabled {
                Token::Window
            } else if hovered {
                Token::ControlHover
            } else {
                Token::Control
            },
        ),
        r.border == Some(
            if emphasis && enabled {
                Token::Accent
            } else {
                Token::Border
            },
        ),
        r.ink == (if !enabled {
            Ink { token: Token::TextDim, strength: 50 }
        } else if emphasis {
            full(Token::Accent)
        } else {
            full(Token::Text)
        }),
        r.clickable == enabled,
{
    Look {
        fill: Some(
            match (enabled, hovered) {
                (false, _) => Token::Window,
                (true, true) => Token::ControlHover,
                (true, false) => Token::Control,
            },
        ),
        border: Some(
            if emphasis && enabled {
                Token::Accent
            } else {
                Token::Border
            },
        ),
        ink: match (enabled, emphasis) {
            (false, _) => Ink { token: Token::TextDim, strength: 50 },
            (true, true) => whole(Token::Accent),
            (true, false) => whole(Token::Text),
        },
        clickable: enabled,
    }
}

/// One entry of the settings dialog's rail. The selected one also has a bar of
/// accent down its leading edge.
pub fn sidebar_tab(selected: bool, enabled: bool, hovered: bool) -> (r: (Look, bool))
    ensures
        r.0.fill == (if selected {
            Some(Token::ControlHover)
        } else if enabled && hovered {
            Some(Token::Control)
        } else {
            None
        }),
        r.0.border is None,
        r.0.ink == (if !enabled {
            Ink { token: Token::TextDim, strength: 45 }
        } else if selected {
            full(Token::TextStrong)
        } else {
            full(Token::TextMuted)
        }),
        r.0.clickable == enabled,
        r.1 == selected,
{
    (
        Look {
            fill: if selected {
                Some(Token::ControlHover)
            } else if enabled && hovered {
                Some(Token::Control)
            } else {
                None
            },
            border: None,
            ink: match (enabled, selected) {
                (false, _) => Ink { token: Token::TextDim, strength: 45 },
                (true, true) => whole(Token::TextStrong),
                (true, false) => whole(Token::TextMuted),
            },
            clickable: enabled,
        },
        selected,
    )
}

// --- keycaps --------------------------------------------------------------------

/// How a keycap is being shown.
#[derive(Clone, Copy, Debug, PartialEq, Eq, Structural)]
pub enum CapState {
    /// A bound chord.
    Bound,
    /// A bound chord that another command also holds.
    Clashing,
    /// The action has no binding at all.
    Unbound,
}

pub open spec fn cap_painted(state: CapState) -> Look {
    Look {
        fill: match state {
            CapState::Bound => Some(Token::Window),
            CapState::Clashing => Some(Token::ControlActive),
            CapState::Unbound => None,
        },
        border: Some(
            match state {
                CapState::Clashing => Token::AccentDim,
                _ => Token::Border,
            },
        ),
        ink: full(
            match state {
                CapState::Bound => Token::Text,
                CapState::Clashing => Token::Accent,
                CapState::Unbound => Token::TextDim,
            },
        ),
        clickable: true,
    }
}

pub fn cap_look(state: CapState) -> (r: Look)
    ensures
        r == cap_painted(state),
{
    let (fill, border, ink) = match state {
        CapState::Bound => (Some(Token::Window), Token::Border, Token::Text),
        CapState::Clashing => (Some(Token::ControlActive), Token::AccentDim, Token::Accent),
        CapState::Unbound => (None, Token::Border, Token::TextDim),
    };
    Look { fill, border: Some(border), ink: whole(ink), clickable: true }
}

/// The width reserved for the cross of a cap that can be cleared.
pub const CROSS: i64 = 150_000;

pub open spec fn cross_wide(clearable: bool) -> int {
    if clearable {
        CROSS as int
    } else {
        0
    }
}

/// How big a cap is around a label. Room for the cross is there whether or not
/// it shows, so showing it moves nothing.
pub fn cap_size(label: i64, clearable: bool) -> (r: Vec2)
    requires
        0 <= label <= REACH,
    ensures
        r.x == label + 160_000 + cross_wide(clearable),
        r.y == 200_000,
{
    let cross: i64 = if clearable {
        CROSS
    } else {
        0
    };
    Vec2 { x: label + 160_000 + cross, y: 200_000 }
}

/// Where a cap's label is centred, and what its cross is hit by.
#[derive(Clone, Copy, Debug, PartialEq, Eq, Structural)]
pub struct CapPlaces {
    pub label: Pos2,
    pub cross: Option<Rect>,
}

pub open spec fn cap_placed(cap: Rect, label: int, clearable: bool) -> CapPlaces {
    let level = (cap.min.y + cap.max.y) / 2;
    let x = cap.max.x - CROSS as int / 2 - 20_000;
    CapPlaces {
        label: Pos2 { x: (cap.min.x + 80_000 + label / 2) as i64, y: level as i64 },
        cross: if clearable {
            Some(
                Rect {
                    min: Pos2 { x: (x - 75_000) as i64, y: (level - 75_000) as i64 },
                    max: Pos2 { x: (x + 75_000) as i64, y: (level + 75_000) as i64 },
                },
            )
        } else {
            None
        },
    }
}

pub fn cap_places(cap: Rect, label: i64, clearable: bool) -> (r: CapPlaces)
    requires
        cap.in_reach(),
        cap.upright(),
        0 <= label <= REACH,
    ensures
        r == cap_placed(cap, label as int, clearable),
{
    let level: i64 = cap.min.y + (cap.max.y - cap.min.y) / 2;
    let x: i64 = cap.max.x - CROSS / 2 - 20_000;
    CapPlaces {
        label: Pos2 { x: cap.min.x + 80_000 + label / 2, y: level },
        cross: if clearable {
            Some(
                Rect {
                    min: Pos2 { x: x - 75_000, y: level - 75_000 },
                    max: Pos2 { x: x + 75_000, y: level + 75_000 },
                },
            )
        } else {
            None
        },
    }
}

/// What the pointer is doing to a cap and to the cross inside it.
#[derive(Clone, Copy, Debug, PartialEq, Eq, Structural)]
pub struct CapPointer {
    pub hovered: bool,
    pub clicked: bool,
    pub cross_hovered: bool,
    pub cross_clicked: bool,
}

#[derive(Clone, Copy, Debug, PartialEq, Eq, Structural)]
pub struct CapResponse {
    /// The cap itself was clicked: start listening.
    pub clicked: bool,
    /// The cross inside it was clicked: drop this binding.
    pub cleared: bool,
}

/// A frame of a keycap: how its cross is drawn, if it is, and what was asked for.
/// A click on the cross is not a request to rebind.
pub fn keycap(clearable: bool, pointer: CapPointer) -> (r: (Option<Ink>, CapResponse))
    ensures
        r.0 == (if !clearable || !(pointer.hovered || pointer.cross_hovered) {
            None
        } else if pointer.cross_hovered {
            Some(full(Token::TextStrong))
        } else {
            Some(Ink { token: Token::TextDim, strength: 70 })
        }),
        r.1.cleared == (clearable && pointer.cross_clicked),
        r.1.clicked == (pointer.clicked && !r.1.cleared),
        !(r.1.clicked && r.1.cleared),
{
    let mut cross: Option<Ink> = None;
    let mut cleared = false;
    if clearable {
        if pointer.hovered || pointer.cross_hovered {
            cross = Some(
                if pointer.cross_hovered {
                    whole(Token::TextStrong)
                } else {
                    Ink { token: Token::TextDim, strength: 70 }
                },
            );
        }
        cleared = pointer.cross_clicked;
    }
    (cross, CapResponse { clicked: pointer.clicked && !cleared, cleared })
}

/// The cross lies inside the cap that was made for it, so a click on it is a
/// click on the cap as well.
pub proof fn the_cross_lies_within_its_cap(cap: Rect, label: int)
    requires
        cap.in_reach(),
        0 <= label,
        cap.wide() == label + 160_000 + CROSS,
        cap.tall() == 200_000,
    ensures
        cap_placed(cap, label, true).cross matches Some(cross) && cap.min.x <= cross.min.x
            && cross.max.x <= cap.max.x && cap.min.y <= cross.min.y && cross.max.y <= cap.max.y,
{
}

/// What an armed field says instead of its caps, and how wide that is: what to
/// do, and how to get out.
pub const ARMED: &'static str = "press keys";

pub const ESCAPE: &'static str = "esc to cancel";

pub fn hint_width(armed: i64, escape: i64) -> (r: i64)
    requires
        0 <= armed <= REACH,
        0 <= escape <= REACH,
    ensures
        r == armed + escape + 80_000,
{
    armed + escape + 80_000
}

/// How big the flag on a row whose chord clashes is, around what it says.
pub fn conflict_badge(message: i64) -> (r: Vec2)
    requires
        0 <= message <= REACH,
    ensures
        r.x == message + 120_000,
        r.y == 160_000,
{
    Vec2 { x: message + 120_000, y: 160_000 }
}

/// A bound cap is filled like the window it stands in, a clashing one stands out
/// in the accent, and an unbound one is an empty outline in dim ink. Every one can
/// be clicked and is drawn at full strength.
pub proof fn a_cap_shows_its_state(state: CapState)
    ensures
        ({
            let look = cap_painted(state);
            &&& look.clickable
            &&& look.ink.strength == 100
            &&& look.fill is None <==> state == CapState::Unbound
            &&& look.fill == Some(Token::Window) <==> state == CapState::Bound
            &&& look.fill == Some(Token::ControlActive) <==> state == CapState::Clashing
            &&& look.border == Some(Token::AccentDim) <==> state == CapState::Clashing
            &&& look.border == Some(Token::Border) <==> state != CapState::Clashing
            &&& look.ink.token == Token::Text <==> state == CapState::Bound
            &&& look.ink.token == Token::Accent <==> state == CapState::Clashing
            &&& look.ink.token == Token::TextDim <==> state == CapState::Unbound
        }),
{
}

/// In a cap made for it the label has eight points before it, and as many after it
/// or the room of the cross besides. Label and cross are level with the middle of
/// the cap, the cross is as tall as it is wide, and there is one where the cap can
/// be cleared and only there. Showing it does not move the label.
pub proof fn a_label_sits_in_its_cap(cap: Rect, label: int, clearable: bool)
    requires
        cap.in_reach(),
        0 <= label <= REACH,
        cap.wide() == label + 160_000 + cross_wide(clearable),
        cap.tall() == 200_000,
    ensures
        ({
            let placed = cap_placed(cap, label, clearable);
            let left = 2 * placed.label.x - label;
            &&& 2 * (cap.min.x + 80_000) - 1 <= left <= 2 * (cap.min.x + 80_000)
            &&& placed.label.y == cap.min.y + 100_000
            &&& placed.label == cap_placed(cap, label, !clearable).label
            &&& placed.cross is Some <==> clearable
            &&& placed.cross matches Some(cross) ==> {
                &&& cross.wide() == 150_000
                &&& cross.tall() == 150_000
                &&& cross.min.y + cross.max.y == 2 * placed.label.y
                &&& cap.max.x - cross.max.x == 20_000
                &&& 2 * (cross.min.x - 60_000) >= left + 2 * label
            }
            &&& cross_wide(true) - cross_wide(false) == 150_000
            &&& cross_wide(false) == 0
        }),
{
}

} // verus!

//! The RGB sliders and the hue bar: a rail, and what a place along it stands
//! for.

use crate::colorpicker::hub::{field_at, field_reading};
use crate::colour::{Hsv, Rgb, TURN};
use crate::geom::{clamp_of, max_of, within_reach, Pos2, Vec2, POINT, REACH};
use crate::ratio::{nearest_div, nearest_of, share, share_of, WHOLE};
use vstd::prelude::*;

verus! {

/// Where the pointer is along a rail.
#[derive(Clone, Copy, Debug, PartialEq, Eq, Structural)]
pub struct Rail {
    pub at: i64,
    pub left: i64,
    pub width: i64,
}

impl Rail {
    pub open spec fn in_reach(self) -> bool {
        &&& within_reach(self.at as int)
        &&& within_reach(self.left as int)
        &&& within_reach(self.width as int)
    }

    /// A rail is at least a point wide.
    pub open spec fn length(self) -> int {
        max_of(self.width as int, POINT as int)
    }

    /// How far along it the pointer is, held to the rail.
    pub open spec fn reached(self) -> int {
        clamp_of(self.at - self.left, 0, self.length())
    }

    fn measure(self) -> (r: (i64, i64))
        requires
            self.in_reach(),
        ensures
            r.0 == self.reached(),
            r.1 == self.length(),
    {
        let length: i64 = if self.width >= POINT {
            self.width
        } else {
            POINT
        };
        let along: i64 = self.at - self.left;
        let reached: i64 = if along < 0 {
            0
        } else if along > length {
            length
        } else {
            along
        };
        (reached, length)
    }

    /// The share of the rail the pointer has reached.
    pub fn share(self) -> (r: i64)
        requires
            self.in_reach(),
        ensures
            r == share_of(self.reached(), self.length()),
            0 <= r <= WHOLE,
    {
        let (reached, length): (i64, i64) = self.measure();
        share(reached as i128, length as i128)
    }

    /// The byte it stands for: nothing at one end and 255 at the other.
    pub open spec fn byte_of(self) -> int {
        nearest_of(self.reached() * 255, self.length())
    }

    pub fn byte(self) -> (r: u8)
        requires
            self.in_reach(),
        ensures
            r == self.byte_of(),
    {
        let (reached, length): (i64, i64) = self.measure();
        proof {
            let (n, d) = (reached as int, length as int);
            assert(0 <= (2 * (n * 255) + d) / (2 * d) <= 255) by (nonlinear_arith)
                requires
                    0 <= n <= d,
                    d > 0,
            ;
        }
        nearest_div((reached as i128) * 255, length as i128) as u8
    }
}

/// How wide a slider's rail is drawn, beside its label and its figure.
pub fn slider_width(available: i64) -> (r: i64)
    requires
        within_reach(available as int),
    ensures
        r == max_of(available - 380_000, 240_000),
{
    let left: i64 = available - 380_000;
    if left >= 240_000 {
        left
    } else {
        240_000
    }
}

/// Where the knob for a byte sits along a rail.
pub fn slider_knob(left: i64, width: i64, byte: u8) -> (r: i64)
    requires
        within_reach(left as int),
        0 <= width <= REACH,
    ensures
        r == left + nearest_of(width * byte, 255),
{
    proof {
        let (w, b) = (width as int, byte as int);
        assert(0 <= (2 * (w * b) + 255) / 510 <= w && 0 <= w * b <= w * 255) by (nonlinear_arith)
            requires
                0 <= w,
                0 <= b <= 255,
        ;
    }
    left + nearest_div((width as i128) * (byte as i128), 255) as i64
}

#[derive(Clone, Copy, Debug, PartialEq, Eq, Structural)]
pub enum Channel {
    Red,
    Green,
    Blue,
}

impl Rgb {
    pub open spec fn channel(self, channel: Channel) -> u8 {
        match channel {
            Channel::Red => self.r,
            Channel::Green => self.g,
            Channel::Blue => self.b,
        }
    }

    pub open spec fn with_channel(self, channel: Channel, byte: u8) -> Rgb {
        match channel {
            Channel::Red => Rgb { r: byte, ..self },
            Channel::Green => Rgb { g: byte, ..self },
            Channel::Blue => Rgb { b: byte, ..self },
        }
    }

    pub fn set_channel(self, channel: Channel, byte: u8) -> (r: Rgb)
        ensures
            r == self.with_channel(channel, byte),
    {
        match channel {
            Channel::Red => Rgb { r: byte, g: self.g, b: self.b },
            Channel::Green => Rgb { r: self.r, g: byte, b: self.b },
            Channel::Blue => Rgb { r: self.r, g: self.g, b: byte },
        }
    }
}

/// The colours at a slider's two ends: what moving that channel would do.
pub fn slider_ends(rgb: Rgb, channel: Channel) -> (r: (Rgb, Rgb))
    ensures
        r == (rgb.with_channel(channel, 0), rgb.with_channel(channel, 255)),
{
    (rgb.set_channel(channel, 0), rgb.set_channel(channel, 255))
}

pub open spec fn slid(rgb: Rgb, channel: Channel, drag: Option<Rail>) -> Rgb {
    match drag {
        Some(rail) => rgb.with_channel(channel, rail.byte_of() as u8),
        None => rgb,
    }
}

fn slide(rgb: Rgb, channel: Channel, drag: Option<Rail>) -> (r: Rgb)
    requires
        drag matches Some(rail) ==> rail.in_reach(),
    ensures
        r == slid(rgb, channel, drag),
{
    match drag {
        Some(rail) => rgb.set_channel(channel, rail.byte()),
        None => rgb,
    }
}

/// Work whichever of the three sliders is being dragged, and say whether one
/// was.
pub fn sliders(rgb: Rgb, red: Option<Rail>, green: Option<Rail>, blue: Option<Rail>) -> (r: (
    Rgb,
    bool,
))
    requires
        red matches Some(rail) ==> rail.in_reach(),
        green matches Some(rail) ==> rail.in_reach(),
        blue matches Some(rail) ==> rail.in_reach(),
    ensures
        r.0 == slid(
            slid(slid(rgb, Channel::Red, red), Channel::Green, green),
            Channel::Blue,
            blue,
        ),
        r.1 == (red is Some || green is Some || blue is Some),
{
    let reddened = slide(rgb, Channel::Red, red);
    let greened = slide(reddened, Channel::Green, green);
    let blued = slide(greened, Channel::Blue, blue);
    (blued, red.is_some() || green.is_some() || blue.is_some())
}

/// A share of saturation too small to say anything of the hue.
pub const GREY: i64 = 100;

/// Saturation and value are taken over; the hue is too, unless the new colour is
/// a grey, which has none.
pub open spec fn taken_over(hsv: Hsv, next: Hsv) -> Hsv {
    Hsv {
        h: if next.s > GREY {
            next.h
        } else {
            hsv.h
        },
        s: next.s,
        v: next.v,
    }
}

/// Follow the sliders to a new colour without losing the hue on the way through
/// a grey.
pub fn follow_sliders(hsv: &mut Hsv, next: Hsv)
    ensures
        *final(hsv) == taken_over(*old(hsv), next),
{
    hsv.s = next.s;
    hsv.v = next.v;
    if next.s > GREY {
        hsv.h = next.h;
    }
}

/// The hue a share of the bar stands for. The far end stops one step short of a
/// whole turn: the same red, and still at the far end when it is drawn.
pub open spec fn hue_along(t: int) -> int {
    let h = clamp_of(t, 0, WHOLE as int) * TURN / WHOLE as int;
    if h >= TURN {
        TURN - 1
    } else {
        h
    }
}

pub fn bar_hue(t: i64) -> (r: i64)
    ensures
        r == hue_along(t as int),
        0 <= r < TURN,
{
    let held: i64 = if t < 0 {
        0
    } else if t > WHOLE {
        WHOLE
    } else {
        t
    };
    let h: i64 = held * 3_600_000 / 1_000_000;
    if h >= TURN {
        TURN - 1
    } else {
        h
    }
}

/// One frame of the square picker: a level field above a hue bar. A drag on the
/// field sets the saturation and value, and one on the bar the hue. Returns
/// whether the colour changed.
pub fn square(
    hsv: &mut Hsv,
    centre: Pos2,
    half: Vec2,
    field: Option<Pos2>,
    bar: Option<Rail>,
) -> (r: bool)
    requires
        centre.in_reach(),
        half.in_reach(),
        field matches Some(pos) ==> pos.in_reach(),
        bar matches Some(rail) ==> rail.in_reach(),
    ensures
        r == (field is Some || bar is Some),
        final(hsv).h == match bar {
            Some(rail) => hue_along(share_of(rail.reached(), rail.length())),
            None => old(hsv).h as int,
        },
        ({
            let (s, v) = match field {
                Some(pos) => field_reading(centre, half, Vec2 { x: WHOLE, y: 0 }, pos),
                None => (old(hsv).s as int, old(hsv).v as int),
            };
            final(hsv).s == s && final(hsv).v == v
        }),
{
    let mut changed = false;
    if let Some(pos) = field {
        let (s, v): (i64, i64) = field_at(centre, half, Vec2 { x: WHOLE, y: 0 }, pos);
        hsv.s = s;
        hsv.v = v;
        changed = true;
    }
    if let Some(rail) = bar {
        hsv.h = bar_hue(rail.share());
        changed = true;
    }
    changed
}

/// Where the knob for a hue sits along the bar.
pub fn bar_knob(left: i64, width: i64, hue: i64) -> (r: i64)
    requires
        within_reach(left as int),
        0 <= width <= REACH,
        0 <= hue < TURN,
    ensures
        r == left + nearest_of(width * hue, TURN as int),
{
    proof {
        let (w, h, t) = (width as int, hue as int, 3_600_000int);
        assert(0 <= (2 * (w * h) + t) / (2 * t) <= w && 0 <= w * h <= w * t) by (nonlinear_arith)
            requires
                0 <= w,
                0 <= h <= t,
                t == 3_600_000,
        ;
    }
    left + nearest_div((width as i128) * (hue as i128), 3_600_000) as i64
}

/// Moving a slider through a grey and out again by saturation alone comes back
/// with the hue it had.
pub proof fn a_grey_keeps_the_hue(hsv: Hsv, grey: Hsv)
    requires
        grey.s <= GREY,
    ensures
        taken_over(hsv, grey).h == hsv.h,
{
}

/// A rail runs the way it is dragged: further along is never a smaller byte.
pub proof fn a_rail_never_runs_backwards(rail: Rail, further: Rail)
    requires
        rail.left == further.left,
        rail.width == further.width,
        rail.at <= further.at,
    ensures
        rail.byte_of() <= further.byte_of(),
{
    let (a, b, d) = (rail.reached(), further.reached(), rail.length());
    assert((2 * (a * 255) + d) / (2 * d) <= (2 * (b * 255) + d) / (2 * d)) by (nonlinear_arith)
        requires
            a <= b,
            d > 0,
    ;
}

/// Each slider sets its own channel and no other: red is what the red rail says
/// where that one is dragged and what it was where it is not, and so for green and
/// for blue.
pub proof fn each_slider_moves_its_own_channel(
    rgb: Rgb,
    red: Option<Rail>,
    green: Option<Rail>,
    blue: Option<Rail>,
)
    requires
        red matches Some(rail) ==> rail.in_reach(),
        green matches Some(rail) ==> rail.in_reach(),
        blue matches Some(rail) ==> rail.in_reach(),
    ensures
        ({
            let after = slid(
                slid(slid(rgb, Channel::Red, red), Channel::Green, green),
                Channel::Blue,
                blue,
            );
            &&& red matches Some(rail) ==> after.r == rail.byte_of()
            &&& red is None ==> after.r == rgb.r
            &&& green matches Some(rail) ==> after.g == rail.byte_of()
            &&& green is None ==> after.g == rgb.g
            &&& blue matches Some(rail) ==> after.b == rail.byte_of()
            &&& blue is None ==> after.b == rgb.b
        }),
{
    if let Some(rail) = red {
        lemma_byte(rail);
    }
    if let Some(rail) = green {
        lemma_byte(rail);
    }
    if let Some(rail) = blue {
        lemma_byte(rail);
    }
}

proof fn lemma_byte(rail: Rail)
    ensures
        0 <= rail.byte_of() <= 255,
        ({
            let (n, d) = (rail.reached(), rail.length());
            -d <= 2 * (rail.byte_of() * d - n * 255) <= d
        }),
{
    let (n, d, q) = (rail.reached(), rail.length(), rail.byte_of());
    assert(0 <= q <= 255 && -d <= 2 * (q * d - n * 255) <= d) by (nonlinear_arith)
        requires
            q == (2 * (n * 255) + d) / (2 * d),
            0 <= n <= d,
            d > 0,
    ;
}

/// Setting a channel and reading it gives what was set, and reading another gives
/// what was there.
pub proof fn a_channel_reads_back(rgb: Rgb, channel: Channel, other: Channel, byte: u8)
    ensures
        rgb.with_channel(channel, byte).channel(channel) == byte,
        other != channel ==> rgb.with_channel(channel, byte).channel(other) == rgb.channel(other),
        rgb.channel(Channel::Red) == rgb.r,
        rgb.channel(Channel::Green) == rgb.g,
        rgb.channel(Channel::Blue) == rgb.b,
{
}

/// A rail stands for nothing up to its left end and for 255 from its right end on,
/// and between the two the byte is the share of it that was reached.
pub proof fn a_rail_runs_from_nothing_to_all(rail: Rail)
    ensures
        rail.at <= rail.left ==> rail.byte_of() == 0,
        rail.width >= 10_000 && rail.at >= rail.left + rail.width ==> rail.byte_of() == 255,
        rail.width >= 10_000 && rail.left <= rail.at <= rail.left + rail.width ==> -rail.width <= 2
            * (rail.byte_of() * rail.width - (rail.at - rail.left) * 255) <= rail.width,
{
    lemma_byte(rail);
    let (d, q) = (rail.length(), rail.byte_of());
    if rail.reached() == 0 {
        assert(q == 0) by (nonlinear_arith)
            requires
                -d <= 2 * (q * d - 0 * 255) <= d,
                d >= 10_000,
        ;
    }
    if rail.reached() == d {
        assert(q == 255) by (nonlinear_arith)
            requires
                -d <= 2 * (q * d - d * 255) <= d,
                d >= 10_000,
        ;
    }
}

/// A colour taken over brings its saturation and its value, and its hue unless it
/// is a grey, which has none to bring.
pub proof fn a_colour_brings_all_it_has(hsv: Hsv, next: Hsv)
    ensures
        ({
            let after = taken_over(hsv, next);
            &&& after.s == next.s
            &&& after.v == next.v
            &&& next.s > 100 ==> after.h == next.h
            &&& next.s <= 100 ==> after.h == hsv.h
        }),
{
}

/// The hue bar is a whole turn along, evenly, and its far end is the last step of
/// it.
pub proof fn the_hue_bar_is_a_turn(t: int, u: int)
    ensures
        0 <= t < 1_000_000 ==> 10 * hue_along(t) == 36 * t - (36 * t) % 10,
        t <= 0 ==> hue_along(t) == 0,
        t >= 1_000_000 ==> hue_along(t) == 3_599_999,
        t <= u ==> hue_along(t) <= hue_along(u),
{
    let c = clamp_of(t, 0, WHOLE as int);
    let d = clamp_of(u, 0, WHOLE as int);
    assert(c * TURN == 3_600_000 * c) by (nonlinear_arith)
        requires
            TURN == 3_600_000,
    ;
    assert(d * TURN == 3_600_000 * d) by (nonlinear_arith)
        requires
            TURN == 3_600_000,
    ;
    if 0 <= t < 1_000_000 {
        assert(c == t);
        assert(3_600_000 * t / 1_000_000 == 36 * t / 10);
    }
}

} // verus!

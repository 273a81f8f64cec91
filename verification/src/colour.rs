//! Colours as bytes, and the hue, saturation and value they are mixed by.

use crate::number::Number;
use vstd::prelude::*;

verus! {

/// An opaque colour, eight bits a channel.
#[derive(Clone, Copy, Debug, PartialEq, Eq, Structural)]
pub struct Rgb {
    pub r: u8,
    pub g: u8,
    pub b: u8,
}

/// A whole turn of the colour circle, in ten-thousandths of a degree.
pub const TURN: i64 = 3_600_000;

/// What a picker mixes with. Keeping it rather than the colour is what keeps
/// the hue while the saturation or the value is at nothing.
///
/// The hue is in ten-thousandths of a degree; saturation and value are shares of
/// [`crate::ratio::WHOLE`].
#[derive(Clone, Copy, Debug, PartialEq, Eq, Structural)]
pub struct Hsv {
    pub h: i64,
    pub s: i64,
    pub v: i64,
}

/// An angle brought into a single turn.
pub open spec fn wrapped(degrees: int) -> int {
    degrees % (TURN as int)
}

/// An angle brought into `0..360`. What is not a finite number is no angle, and
/// comes back as none.
pub open spec fn wrapped_number(degrees: Number) -> int {
    match degrees {
        Number::Finite(d) => wrapped(d as int),
        _ => 0,
    }
}

pub fn wrap_hue(degrees: Number) -> (r: i64)
    ensures
        r == wrapped_number(degrees),
        0 <= r < TURN,
{
    match degrees {
        Number::Finite(d) => {
            if d >= 0 {
                d % TURN
            } else {
                let over: i64 = (-(d + 1)) % TURN;
                proof {
                    let e = -(d + 1);
                    vstd::arithmetic::div_mod::lemma_fundamental_div_mod(e as int, TURN as int);
                    vstd::arithmetic::div_mod::lemma_fundamental_div_mod_converse(
                        d as int,
                        TURN as int,
                        -(e as int / TURN as int) - 1,
                        TURN - 1 - over,
                    );
                }
                TURN - 1 - over
            }
        },
        _ => 0,
    }
}

/// A hue is an angle: whole turns of 360 degrees make no difference, and it is told
/// between none of one and all of one. What is no finite angle is none.
pub proof fn a_hue_is_an_angle(degrees: int, n: Number)
    ensures
        0 <= wrapped(degrees) < 3_600_000,
        wrapped(degrees + 3_600_000) == wrapped(degrees),
        0 <= degrees < 3_600_000 ==> wrapped(degrees) == degrees,
        n matches Number::Finite(d) ==> wrapped_number(n) == wrapped(d as int),
        !(n is Finite) ==> wrapped_number(n) == 0,
{
}

} // verus!

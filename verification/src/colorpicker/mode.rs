//! The ways of picking a colour, and the shapes a wheel's centre can have.

use crate::colour::{wrap_hue, wrapped, wrapped_number, TURN};
use crate::geom::within_reach;
use crate::number::Number;
use vstd::prelude::*;

verus! {

#[derive(Clone, Copy, Debug, PartialEq, Eq, Structural)]
pub enum PickerMode {
    Wheel,
    Square,
    Sliders,
    Harmony,
}

impl PickerMode {
    pub open spec fn every() -> Seq<PickerMode> {
        seq![PickerMode::Wheel, PickerMode::Square, PickerMode::Sliders, PickerMode::Harmony]
    }

    /// Every mode, in the order they are offered.
    pub fn all() -> (r: Vec<PickerMode>)
        ensures
            r@ == PickerMode::every(),
    {
        let r = vec![
            PickerMode::Wheel,
            PickerMode::Square,
            PickerMode::Sliders,
            PickerMode::Harmony,
        ];
        assert(r@ =~= PickerMode::every());
        r
    }

    pub fn label(self) -> (r: &'static str)
        ensures
            r@ == match self {
                PickerMode::Wheel => "Wheel"@,
                PickerMode::Square => "Square"@,
                PickerMode::Sliders => "Sliders"@,
                PickerMode::Harmony => "Harmony"@,
            },
    {
        match self {
            PickerMode::Wheel => "Wheel",
            PickerMode::Square => "Square",
            PickerMode::Sliders => "Sliders",
            PickerMode::Harmony => "Harmony",
        }
    }
}

/// The shape inside the hue ring.
#[derive(Clone, Copy, Debug, PartialEq, Eq, Structural)]
pub enum WheelShape {
    Triangle,
    Square,
}

impl WheelShape {
    pub open spec fn every() -> Seq<WheelShape> {
        seq![WheelShape::Triangle, WheelShape::Square]
    }

    pub fn all() -> (r: Vec<WheelShape>)
        ensures
            r@ == WheelShape::every(),
    {
        let r = vec![WheelShape::Triangle, WheelShape::Square];
        assert(r@ =~= WheelShape::every());
        r
    }

    /// A triangle stands with its apex up, a square with its axes level. Screen
    /// y is down and the zero angle points right, so up is a quarter turn back.
    pub open spec fn rest(self) -> int {
        match self {
            WheelShape::Triangle => -900_000,
            WheelShape::Square => 0,
        }
    }

    /// Where the shape sits with the Angle control at zero, in ten-thousandths
    /// of a degree.
    pub fn neutral(self) -> (r: i64)
        ensures
            r == self.rest(),
    {
        match self {
            WheelShape::Triangle => -900_000,
            WheelShape::Square => 0,
        }
    }

    /// Whether the hue is what turns this centre while "Rotate with hue" is on.
    /// Only the triangle has a corner that is the hue.
    pub open spec fn turned_by_hue(self, rotate: bool) -> bool {
        rotate && self == WheelShape::Triangle
    }

    pub fn follows_hue(self, rotate: bool) -> (r: bool)
        ensures
            r == self.turned_by_hue(rotate),
    {
        rotate && matches!(self, WheelShape::Triangle)
    }

    /// Whether exchanging the light and dark corners means anything here.
    pub fn can_swap_ends(self) -> (r: bool)
        ensures
            r == (self == WheelShape::Triangle),
    {
        match self {
            WheelShape::Triangle => true,
            WheelShape::Square => false,
        }
    }
}

/// The angle each wheel centre is held at, in ten-thousandths of a degree from
/// its neutral pose. One number per shape: an angle is a choice about a shape,
/// and trying the other one and coming back should find it where it was left.
#[derive(Clone, Copy, Debug, PartialEq, Eq, Structural)]
pub struct WheelAngles {
    pub triangle: i64,
    pub square: i64,
}

impl Default for WheelAngles {
    fn default() -> (r: WheelAngles)
        ensures
            r == (WheelAngles { triangle: 0, square: 0 }),
    {
        WheelAngles { triangle: 0, square: 0 }
    }
}

impl WheelAngles {
    pub open spec fn sound(self) -> bool {
        0 <= self.triangle < TURN && 0 <= self.square < TURN
    }

    pub open spec fn held(self, shape: WheelShape) -> int {
        match shape {
            WheelShape::Triangle => self.triangle as int,
            WheelShape::Square => self.square as int,
        }
    }

    pub fn of(self, shape: WheelShape) -> (r: i64)
        ensures
            r == self.held(shape),
    {
        match shape {
            WheelShape::Triangle => self.triangle,
            WheelShape::Square => self.square,
        }
    }

    /// Set one shape's angle, wrapped into a single turn. The other's stays.
    pub fn set(&mut self, shape: WheelShape, degrees: Number)
        ensures
            final(self).held(shape) == wrapped_number(degrees),
            forall|other: WheelShape|
                other != shape ==> #[trigger] final(self).held(other) == old(self).held(other),
            old(self).sound() ==> final(self).sound(),
    {
        let degrees: i64 = normalise_angle(degrees);
        match shape {
            WheelShape::Triangle => self.triangle = degrees,
            WheelShape::Square => self.square = degrees,
        }
    }
}

/// An angle brought into a single turn; what is not finite comes back as zero.
pub fn normalise_angle(degrees: Number) -> (r: i64)
    ensures
        r == wrapped_number(degrees),
        0 <= r < TURN,
{
    wrap_hue(degrees)
}

/// The angle a wheel's centre is drawn at, from its neutral pose. Following the
/// hue replaces the stored angle rather than adding to it.
pub open spec fn drawn_angle(shape: WheelShape, rotate: bool, angles: WheelAngles, hue: int) -> int {
    if shape.turned_by_hue(rotate) {
        wrapped(hue - shape.rest())
    } else {
        angles.held(shape)
    }
}

pub fn wheel_angle(shape: WheelShape, rotate: bool, angles: WheelAngles, hue: i64) -> (r: i64)
    requires
        within_reach(hue as int),
    ensures
        r == drawn_angle(shape, rotate, angles, hue as int),
        angles.sound() ==> 0 <= r < TURN,
{
    if shape.follows_hue(rotate) {
        normalise_angle(Number::Finite(hue - shape.neutral()))
    } else {
        angles.of(shape)
    }
}

/// The same answer measured from the zero angle, which points right.
pub fn wheel_base(shape: WheelShape, rotate: bool, angles: WheelAngles, hue: i64) -> (r: i64)
    requires
        within_reach(hue as int),
        angles.sound(),
    ensures
        r == shape.rest() + drawn_angle(shape, rotate, angles, hue as int),
{
    shape.neutral() + wheel_angle(shape, rotate, angles, hue)
}

/// How a rail with a figure beside it is set up.
#[derive(Clone, Copy, Debug, PartialEq, Eq)]
pub struct NumberRow {
    pub label: &'static str,
    /// The first and last value the rail reaches, on the grid.
    pub from: i64,
    pub to: i64,
    /// The rail lands on every multiple of this.
    pub snap: i64,
    /// How much of the figure one unit of the value is.
    pub per_unit: i64,
    pub suffix: &'static str,
    pub decimals: usize,
    /// Whether the value waits for the rail to be let go.
    pub deferred: bool,
}

/// The Angle control: a whole turn, a figure in degrees, landing on each 45°.
pub fn angle_row() -> (r: NumberRow)
    ensures
        r.label@ == "Angle"@,
        r.from == 0,
        r.to == 3_590_000,
        r.snap == 450_000,
        r.per_unit == 10_000,
        r.suffix@ == "°"@,
        r.decimals == 0,
        !r.deferred,
{
    NumberRow {
        label: "Angle",
        from: 0,
        to: 3_590_000,
        snap: 450_000,
        per_unit: 10_000,
        suffix: "°",
        decimals: 0,
        deferred: false,
    }
}

/// A triangle following the hue ignores the angle stored for it.
pub proof fn a_triangle_following_the_hue_ignores_the_stored_angle(
    angles: WheelAngles,
    others: WheelAngles,
    hue: int,
)
    ensures
        drawn_angle(WheelShape::Triangle, true, angles, hue) == drawn_angle(
            WheelShape::Triangle,
            true,
            others,
            hue,
        ),
{
}

/// A square is turned by its own angle and nothing else.
pub proof fn a_square_is_turned_only_by_its_own_angle(rotate: bool, angles: WheelAngles, hue: int)
    ensures
        drawn_angle(WheelShape::Square, rotate, angles, hue) == angles.square,
{
}

/// With "Rotate with hue" on, the triangle's apex points at the hue.
pub proof fn a_rotating_triangle_points_at_the_hue(angles: WheelAngles, hue: int)
    requires
        0 <= hue < TURN,
    ensures
        wrapped(
            WheelShape::Triangle.rest() + drawn_angle(WheelShape::Triangle, true, angles, hue),
        ) == hue,
{
}

/// An angle is kept apart from whole turns and nothing else.
pub proof fn wrapping_takes_off_whole_turns(degrees: int)
    ensures
        0 <= wrapped(degrees) < 3_600_000,
        (degrees - wrapped(degrees)) % 3_600_000 == 0,
{
}

/// Each shape has an angle of its own, a triangle stands on its base with the apex
/// up, and a square stands level.
pub proof fn each_shape_has_its_own_angle(angles: WheelAngles)
    ensures
        angles.held(WheelShape::Triangle) == angles.triangle,
        angles.held(WheelShape::Square) == angles.square,
        4 * WheelShape::Triangle.rest() == -TURN,
        WheelShape::Square.rest() == 0,
{
}

/// Only a triangle is turned by the hue, and only where that is asked for; where
/// it is not, it is held at its own angle.
pub proof fn only_a_triangle_follows_the_hue(
    shape: WheelShape,
    rotate: bool,
    angles: WheelAngles,
    hue: int,
)
    ensures
        shape.turned_by_hue(rotate) <==> rotate && shape == WheelShape::Triangle,
        !rotate ==> drawn_angle(WheelShape::Triangle, rotate, angles, hue) == angles.triangle,
{
}

} // verus!

//! The wheel itself: how big it is, what its controls do to the colour, and what
//! is drawn under it.

use crate::colorpicker::gesture::{
    a_gesture_keeps_the_control_it_was_pressed_on, one_gesture, remembered, resolve, resolved,
    settled, Aim, Reported, WheelAim,
};
use crate::colorpicker::hub::{has_room, hub_for, hub_of, Heading, Hub};
use crate::colorpicker::mode::{drawn_angle, wheel_angle, WheelAngles, WheelShape};
use crate::colour::{wrap_hue, wrapped_number, Hsv, TURN};
use crate::geom::{clamp_of, max_of, Pos2, Vec2, REACH};
use crate::number::Number;
use crate::ratio::WHOLE;
use vstd::prelude::*;

verus! {

/// Smallest picker that is still a picker, and the largest wheel drawn.
pub const MIN_PICKER: i64 = 480_000;

pub const MAX_WHEEL: i64 = 1_760_000;

pub const RING_THICKNESS: i64 = 200_000;

/// The side of the wheel in a panel with this much room.
pub fn wheel_side(available: i64) -> (r: i64)
    ensures
        r == clamp_of(available as int, MIN_PICKER as int, MAX_WHEEL as int),
{
    if available < MIN_PICKER {
        MIN_PICKER
    } else if available > MAX_WHEEL {
        MAX_WHEEL
    } else {
        available
    }
}

/// The hue ring's two radii for a wheel of the given side. The ring has a fixed
/// thickness, and a small wheel keeps a hub of a quarter of its radius instead.
pub open spec fn radii_of(size: int) -> (int, int) {
    let outer = size / 2;
    (max_of(outer - RING_THICKNESS, outer / 4), outer)
}

pub fn ring_radii(size: i64) -> (r: (i64, i64))
    requires
        0 <= size <= 2 * REACH,
    ensures
        r.0 == radii_of(size as int).0,
        r.1 == radii_of(size as int).1,
        0 <= r.0 <= r.1 <= REACH,
{
    let outer: i64 = size / 2;
    let thin: i64 = outer - RING_THICKNESS;
    (
        if thin >= outer / 4 {
            thin
        } else {
            outer / 4
        },
        outer,
    )
}

/// The colour after a frame that worked a control: the ring sets the hue, the
/// centre sets saturation and value.
pub open spec fn worked(hsv: Hsv, aimed: WheelAim, hue: Number, hub: Hub) -> Hsv {
    match aimed {
        WheelAim::Idle => hsv,
        WheelAim::Ring(_) => Hsv { h: wrapped_number(hue) as i64, ..hsv },
        WheelAim::Centre(pos) => match hub.reading(pos) {
            Some((s, v)) => Hsv { s: s as i64, v: v as i64, ..hsv },
            None => hsv,
        },
    }
}

/// Everything a wheel keeps between frames.
#[derive(Clone, Copy, Debug, PartialEq, Eq, Structural)]
pub struct Wheel {
    pub shape: WheelShape,
    /// "Rotate with hue".
    pub rotate: bool,
    /// "Swap white and black".
    pub mirrored: bool,
    pub angles: WheelAngles,
    pub hsv: Hsv,
}

/// What is drawn under the wheel.
#[derive(Clone, Copy, Debug, PartialEq, Eq, Structural)]
pub struct WheelRows {
    /// Whether there is a "Rotate with hue" row.
    pub rotate: bool,
    /// Whether there is a "Swap white and black" row.
    pub swap: bool,
    /// The angle the Angle row reads.
    pub angle: i64,
    /// Whether the hue is setting it, so that the row is drawn dead.
    pub following: bool,
}

impl Wheel {
    pub open spec fn sound(self) -> bool {
        &&& self.angles.sound()
        &&& 0 <= self.hsv.h < TURN
        &&& 0 <= self.hsv.s <= WHOLE
        &&& 0 <= self.hsv.v <= WHOLE
    }

    /// Give the ring its share of the frame. `hue` is the hue the pointer's
    /// place about the centre stands for. Returns whether the colour changed.
    pub fn turn_ring(&mut self, aimed: WheelAim, hue: Number) -> (r: bool)
        requires
            old(self).sound(),
        ensures
            final(self).sound(),
            r == (aimed is Ring),
            *final(self) == (Wheel {
                hsv: if aimed is Ring {
                    Hsv { h: wrapped_number(hue) as i64, ..old(self).hsv }
                } else {
                    old(self).hsv
                },
                ..*old(self)
            }),
    {
        match aimed {
            WheelAim::Ring(_) => {
                self.hsv.h = wrap_hue(hue);
                true
            },
            _ => false,
        }
    }

    /// Give the centre its share of the frame, read against the shape as it is
    /// now drawn. Returns whether the colour changed.
    pub fn work_centre(&mut self, aimed: WheelAim, hub: Hub) -> (r: bool)
        requires
            old(self).sound(),
            hub.in_reach(),
            aimed matches WheelAim::Centre(pos) ==> pos.in_reach(),
        ensures
            final(self).sound(),
            r == (aimed matches WheelAim::Centre(pos) && hub.reading(pos) is Some),
            *final(self) == (Wheel {
                hsv: match aimed {
                    WheelAim::Centre(_) => worked(old(self).hsv, aimed, Number::NotANumber, hub),
                    _ => old(self).hsv,
                },
                ..*old(self)
            }),
    {
        match aimed.centre() {
            Some(pos) => match hub.read(pos) {
                Some((s, v)) => {
                    self.hsv.s = s;
                    self.hsv.v = v;
                    true
                },
                None => false,
            },
            None => false,
        }
    }

    /// The rows under the wheel. The triangle alone follows the hue and has ends
    /// to swap, so a square has neither row; the angle is always read, and is
    /// dead while the hue decides it.
    pub fn rows(&self) -> (r: WheelRows)
        requires
            self.sound(),
        ensures
            r.rotate == (self.shape == WheelShape::Triangle),
            r.swap == (self.shape == WheelShape::Triangle),
            r.angle == drawn_angle(self.shape, self.rotate, self.angles, self.hsv.h as int),
            r.following == self.shape.turned_by_hue(self.rotate),
    {
        WheelRows {
            rotate: matches!(self.shape, WheelShape::Triangle),
            swap: self.shape.can_swap_ends(),
            angle: wheel_angle(self.shape, self.rotate, self.angles, self.hsv.h),
            following: self.shape.follows_hue(self.rotate),
        }
    }

    /// Turn the shape that is showing.
    pub fn set_angle(&mut self, degrees: Number)
        requires
            old(self).sound(),
        ensures
            final(self).sound(),
            final(self).angles.held(old(self).shape) == wrapped_number(degrees),
            forall|other: WheelShape|
                other != old(self).shape ==> #[trigger] final(self).angles.held(other) == old(
                    self,
                ).angles.held(other),
            final(self).shape == old(self).shape,
            final(self).rotate == old(self).rotate,
            final(self).mirrored == old(self).mirrored,
            final(self).hsv == old(self).hsv,
    {
        let mut angles = self.angles;
        angles.set(self.shape, degrees);
        self.angles = angles;
    }
}

/// Whether a frame that worked a control changed the colour.
pub open spec fn moved(aimed: WheelAim, hub: Hub) -> bool {
    match aimed {
        WheelAim::Idle => false,
        WheelAim::Ring(_) => true,
        WheelAim::Centre(pos) => hub.reading(pos) is Some,
    }
}

/// Whether what a frame reports of the pointer is in reach.
pub open spec fn reachable(reported: Reported) -> bool {
    &&& reported.at matches Some(p) ==> p.in_reach()
    &&& reported.press_origin matches Some(p) ==> p.in_reach()
}

/// One frame of the wheel, in a panel with this much room. `heading` is where the
/// shape is turned to and `hue` the hue the pointer's place about the centre
/// stands for. The press is judged against the shape as it stands; the ring sets
/// the hue and the centre the saturation and value, and a frame works one of
/// them at most. Returns whether the colour changed.
pub fn wheel(
    picker: &mut Wheel,
    held: &mut Option<Aim>,
    reported: Reported,
    centre: Pos2,
    available: i64,
    heading: Heading,
    hue: Number,
) -> (r: bool)
    requires
        old(picker).sound(),
        has_room(centre, MAX_WHEEL as int),
        reachable(reported),
        heading.sound(),
    ensures
        final(picker).sound(),
        ({
            let (inner, outer) = radii_of(
                clamp_of(available as int, MIN_PICKER as int, MAX_WHEEL as int),
            );
            let hub = hub_for(old(picker).shape, centre, inner, heading, old(picker).mirrored);
            let (kept, aimed) = resolved(reported, *old(held), centre, inner, outer, hub);
            &&& *final(held) == kept
            &&& *final(picker) == (Wheel {
                hsv: worked(old(picker).hsv, aimed, hue, hub),
                ..*old(picker)
            })
            &&& r == moved(aimed, hub)
        }),
        !r ==> *final(picker) == *old(picker),
{
    let (inner, outer): (i64, i64) = ring_radii(wheel_side(available));
    let hub = hub_of(picker.shape, centre, inner, heading, picker.mirrored);
    let (kept, aimed) = resolve(reported, *held, centre, inner, outer, hub);
    *held = kept;
    let turned = picker.turn_ring(aimed, hue);
    let shaded = picker.work_centre(aimed, hub);
    turned || shaded
}

/// One frame of the harmony wheel: the same ring about a level square, which does
/// not move when the hue does.
pub fn harmony_wheel(
    hsv: &mut Hsv,
    held: &mut Option<Aim>,
    reported: Reported,
    centre: Pos2,
    available: i64,
    hue: Number,
) -> (r: bool)
    requires
        0 <= old(hsv).h < TURN,
        0 <= old(hsv).s <= WHOLE,
        0 <= old(hsv).v <= WHOLE,
        has_room(centre, MAX_WHEEL as int),
        reachable(reported),
    ensures
        0 <= final(hsv).h < TURN,
        0 <= final(hsv).s <= WHOLE,
        0 <= final(hsv).v <= WHOLE,
        ({
            let (inner, outer) = radii_of(
                clamp_of(available as int, MIN_PICKER as int, MAX_WHEEL as int),
            );
            let hub = hub_for(WheelShape::Square, centre, inner, level(), false);
            let (kept, aimed) = resolved(reported, *old(held), centre, inner, outer, hub);
            &&& *final(held) == kept
            &&& *final(hsv) == worked(*old(hsv), aimed, hue, hub)
            &&& r == moved(aimed, hub)
        }),
        !r ==> *final(hsv) == *old(hsv),
{
    let mut picker = Wheel {
        shape: WheelShape::Square,
        rotate: false,
        mirrored: false,
        angles: WheelAngles { triangle: 0, square: 0 },
        hsv: *hsv,
    };
    let ahead = Vec2 { x: WHOLE, y: 0 };
    let heading = Heading { base: ahead, third: ahead, two_thirds: ahead };
    let r = wheel(&mut picker, held, reported, centre, available, heading, hue);
    *hsv = picker.hsv;
    r
}

/// The heading of a level square. Only its first direction is read.
pub open spec fn level() -> Heading {
    let ahead = Vec2 { x: WHOLE, y: 0 };
    Heading { base: ahead, third: ahead, two_thirds: ahead }
}

/// The colour after a run of frames. On each, the press is judged against one
/// reading of the shape and the colour is read off another, drawn after the hue
/// has moved.
pub open spec fn after_frames(
    hsv: Hsv,
    frames: Seq<Reported>,
    pressed: Seq<Hub>,
    drawn: Seq<Hub>,
    hues: Seq<Number>,
    held: Option<Aim>,
    centre: Pos2,
    inner: int,
    outer: int,
) -> Hsv
    decreases frames.len(),
{
    if frames.len() == 0 {
        hsv
    } else {
        let last = frames.len() - 1;
        let before = frames.drop_last();
        worked(
            after_frames(hsv, before, pressed, drawn, hues, held, centre, inner, outer),
            resolved(
                frames.last(),
                remembered(before, pressed, held, centre, inner, outer),
                centre,
                inner,
                outer,
                pressed[last],
            ).1,
            hues[last],
            drawn[last],
        )
    }
}

/// One gesture moves the hue, or the saturation and value, or neither, and never
/// both, however the shape turns under it.
pub proof fn a_gesture_moves_one_control_and_not_both(
    hsv: Hsv,
    frames: Seq<Reported>,
    pressed: Seq<Hub>,
    drawn: Seq<Hub>,
    hues: Seq<Number>,
    held: Option<Aim>,
    centre: Pos2,
    inner: int,
    outer: int,
)
    requires
        one_gesture(frames),
    ensures
        ({
            let after = after_frames(
                hsv,
                frames,
                pressed,
                drawn,
                hues,
                held,
                centre,
                inner,
                outer,
            );
            let from = match frames[0].press_origin {
                Some(from) => from,
                None => frames[0].at->0,
            };
            match settled(centre, inner, outer, pressed[0], from) {
                Aim::Nothing => after == hsv,
                Aim::Ring => after.s == hsv.s && after.v == hsv.v,
                Aim::Centre => after.h == hsv.h,
            }
        }),
    decreases frames.len(),
{
    a_gesture_keeps_the_control_it_was_pressed_on(frames, pressed, held, centre, inner, outer);
    if frames.len() > 1 {
        let before = frames.drop_last();
        assert(before[0] == frames[0]);
        assert(one_gesture(before)) by {
            assert forall|i: int| 0 <= i < before.len() implies (#[trigger] before[i]).at is Some by {
                assert(before[i] == frames[i]);
            }
            assert forall|i: int| 0 < i < before.len() implies !(#[trigger] before[i]).pressed by {
                assert(before[i] == frames[i]);
            }
        }
        a_gesture_moves_one_control_and_not_both(
            hsv,
            before,
            pressed,
            drawn,
            hues,
            held,
            centre,
            inner,
            outer,
        );
    } else {
        let before = frames.drop_last();
        assert(before =~= Seq::empty());
        assert(after_frames(hsv, before, pressed, drawn, hues, held, centre, inner, outer) == hsv);
    }
}

/// The ring is a band at every size a wheel is drawn at: wide enough for the
/// marker of the colour in hand from 54 points up, and short of that by no more
/// than a point below.
pub proof fn the_band_holds_its_markers(size: int)
    requires
        MIN_PICKER <= size <= MAX_WHEEL,
    ensures
        ({
            let (inner, outer) = radii_of(size);
            &&& 0 <= inner < outer
            &&& size >= 540_000 ==> 2 * 100_000 <= outer - inner
            &&& 2 * (100_000 - 10_000) <= outer - inner
        }),
{
}

/// The ring sets the hue and leaves saturation and value; the centre sets those to
/// what the shape reads there and leaves the hue; a frame that works neither
/// leaves the colour. A frame says it changed the colour where it worked a control
/// that had a reading to give.
pub proof fn each_control_sets_its_own_part(
    hsv: Hsv,
    aimed: WheelAim,
    hue: i64,
    hub: Hub,
)
    ensures
        ({
            let after = worked(hsv, aimed, Number::Finite(hue), hub);
            &&& aimed is Idle ==> after == hsv && !moved(aimed, hub)
            &&& aimed is Ring ==> {
                &&& after.s == hsv.s
                &&& after.v == hsv.v
                &&& 0 <= after.h < 3_600_000
                &&& (after.h - hue) % 3_600_000 == 0
                &&& moved(aimed, hub)
            }
            &&& aimed matches WheelAim::Centre(pos) ==> {
                &&& after.h == hsv.h
                &&& hub.reading(pos) is None ==> after == hsv
                &&& moved(aimed, hub) == (hub.reading(pos) is Some)
                &&& hub.reading(pos) matches Some((s, v)) ==> after.s == s as i64 && after.v
                    == v as i64
            }
        }),
{
}

/// The ring reaches half the wheel's side out. It is twenty points thick, or three
/// quarters of the radius where that is less.
pub proof fn the_ring_reaches_the_edge_of_the_wheel(size: int)
    requires
        0 <= size,
    ensures
        ({
            let (inner, outer) = radii_of(size);
            &&& 0 <= size - 2 * outer <= 1
            &&& outer - inner <= 200_000
            &&& 4 * inner >= outer - 3
            &&& outer - inner == 200_000 || 0 <= outer - 4 * inner <= 3
        }),
{
}

/// A level heading points right.
pub proof fn a_level_square_is_not_turned()
    ensures
        level().base.x == 1_000_000,
        level().base.y == 0,
{
}

} // verus!

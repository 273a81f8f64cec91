//! Which control of a wheel a gesture works.
//!
//! What begins a gesture is an event, the primary button going down, and never a
//! position; what it works is settled on that frame and held until it ends.

use crate::colorpicker::hub::Hub;
use crate::geom::{Pos2, REACH};
use vstd::prelude::*;

verus! {

/// What was reported about this frame's gesture on a wheel.
#[derive(Clone, Copy, Debug, PartialEq, Eq, Structural)]
pub struct Reported {
    /// Where the pointer is, if the wheel owns a gesture at all: from the frame
    /// of the press through to the frame of the release.
    pub at: Option<Pos2>,
    /// Where a button went down, while one is still down. Any button moves it
    /// and any release clears it, so it says where a gesture began and is never
    /// asked whether one began.
    pub press_origin: Option<Pos2>,
    /// Whether the primary button went down this frame.
    pub pressed: bool,
}

impl Default for Reported {
    fn default() -> (r: Reported)
        ensures
            r == (Reported { at: None, press_origin: None, pressed: false }),
    {
        Reported { at: None, press_origin: None, pressed: false }
    }
}

/// Which control a gesture reached, with no position in it.
#[derive(Clone, Copy, Debug, PartialEq, Eq, Structural)]
pub enum Aim {
    /// Neither control: the gaps between the shape and the ring, and everything
    /// beyond the ring.
    Nothing,
    /// The hue ring.
    Ring,
    /// The saturation and value shape.
    Centre,
}

impl Default for Aim {
    fn default() -> (r: Aim)
        ensures
            r == Aim::Nothing,
    {
        Aim::Nothing
    }
}

/// Which of a wheel's two controls this frame's gesture is working, and where.
#[derive(Clone, Copy, Debug, PartialEq, Eq, Structural)]
pub enum WheelAim {
    Idle,
    Ring(Pos2),
    Centre(Pos2),
}

impl Aim {
    pub open spec fn working(self, pos: Pos2) -> WheelAim {
        match self {
            Aim::Nothing => WheelAim::Idle,
            Aim::Ring => WheelAim::Ring(pos),
            Aim::Centre => WheelAim::Centre(pos),
        }
    }

    /// This aim, working at a position.
    pub fn at(self, pos: Pos2) -> (r: WheelAim)
        ensures
            r == self.working(pos),
    {
        match self {
            Aim::Nothing => WheelAim::Idle,
            Aim::Ring => WheelAim::Ring(pos),
            Aim::Centre => WheelAim::Centre(pos),
        }
    }
}

impl WheelAim {
    /// Where the centre should follow the pointer, if it should at all.
    pub fn centre(self) -> (r: Option<Pos2>)
        ensures
            r == match self {
                WheelAim::Centre(pos) => Some(pos),
                _ => None,
            },
    {
        match self {
            WheelAim::Centre(pos) => Some(pos),
            _ => None,
        }
    }
}

/// What a wheel does with a frame.
#[derive(Clone, Copy, Debug, PartialEq, Eq, Structural)]
pub enum Frame {
    /// No gesture. Anything recorded belongs to one that has ended.
    Idle,
    /// A gesture already settled, now at this position.
    Held(Aim, Pos2),
    /// The first frame of a gesture: settle it from the first position, record
    /// the answer, and work it at the second.
    Press(Pos2, Pos2),
}

/// A record is kept unless the primary button went down.
pub open spec fn frame_of(reported: Reported, held: Option<Aim>) -> Frame {
    match reported.at {
        None => Frame::Idle,
        Some(at) => match held {
            Some(aim) if !reported.pressed => Frame::Held(aim, at),
            _ => Frame::Press(
                match reported.press_origin {
                    Some(from) => from,
                    None => at,
                },
                at,
            ),
        },
    }
}

/// Which of the three this frame is, given what was reported and what was
/// recorded on an earlier frame of the same gesture.
pub fn frame(reported: Reported, held: Option<Aim>) -> (r: Frame)
    ensures
        r == frame_of(reported, held),
{
    match reported.at {
        None => Frame::Idle,
        Some(at) => {
            match held {
                Some(aim) if !reported.pressed => Frame::Held(aim, at),
                _ => match reported.press_origin {
                    Some(from) => Frame::Press(from, at),
                    None => Frame::Press(at, at),
                },
            }
        },
    }
}

/// The square of a distance.
pub open spec fn apart(a: Pos2, b: Pos2) -> int {
    (a.x - b.x) * (a.x - b.x) + (a.y - b.y) * (a.y - b.y)
}

/// Whether a point is on the ring, or close enough inside it to take hold of
/// it: beyond 92 hundredths of the inner radius, and no further than the outer.
pub open spec fn grips_ring(centre: Pos2, inner: int, outer: int, from: Pos2) -> bool {
    &&& apart(from, centre) * 10_000 > (92 * inner) * (92 * inner)
    &&& apart(from, centre) <= outer * outer
}

/// The shape is asked before the ring: both centres reach into the band the ring
/// can be gripped by, and the triangle's apex is the corner that is the hue.
pub open spec fn settled(centre: Pos2, inner: int, outer: int, hub: Hub, from: Pos2) -> Aim {
    if hub.covers(from) {
        Aim::Centre
    } else if grips_ring(centre, inner, outer, from) {
        Aim::Ring
    } else {
        Aim::Nothing
    }
}

/// Settle a press against the two controls.
pub fn settle(centre: Pos2, inner: i64, outer: i64, hub: Hub, from: Pos2) -> (r: Aim)
    requires
        centre.in_reach(),
        from.in_reach(),
        hub.in_reach(),
        0 <= inner <= REACH,
        0 <= outer <= REACH,
    ensures
        r == settled(centre, inner as int, outer as int, hub, from),
{
    if hub.contains(from) {
        return Aim::Centre;
    }
    let dx: i128 = (from.x - centre.x) as i128;
    let dy: i128 = (from.y - centre.y) as i128;
    let grip: i128 = 92 * (inner as i128);
    let rim: i128 = outer as i128;
    proof {
        lemma_square(dx as int, 2 * REACH);
        lemma_square(dy as int, 2 * REACH);
        lemma_square(grip as int, 92 * REACH);
        lemma_square(rim as int, 92 * REACH);
    }
    let out: i128 = dx * dx + dy * dy;
    if out * 10_000 > grip * grip && out <= rim * rim {
        Aim::Ring
    } else {
        Aim::Nothing
    }
}

proof fn lemma_square(x: int, bound: int)
    requires
        -bound <= x <= bound,
        0 <= bound <= 92 * REACH,
    ensures
        0 <= x * x <= bound * bound,
        bound * bound <= 8464_000_000_000_000_000_000_000_000_000_000,
{
    assert(0 <= x * x <= bound * bound) by (nonlinear_arith)
        requires
            -bound <= x <= bound,
    ;
    assert(bound * bound <= 8464_000_000_000_000_000_000_000_000_000_000) by (nonlinear_arith)
        requires
            0 <= bound <= 92_000_000_000_000_000,
    ;
}

/// What a frame is to remember, and what to do now.
pub open spec fn resolved(
    reported: Reported,
    held: Option<Aim>,
    centre: Pos2,
    inner: int,
    outer: int,
    hub: Hub,
) -> (Option<Aim>, WheelAim) {
    match frame_of(reported, held) {
        Frame::Idle => (None, WheelAim::Idle),
        Frame::Held(aim, at) => (Some(aim), aim.working(at)),
        Frame::Press(from, at) => {
            let aim = settled(centre, inner, outer, hub, from);
            (Some(aim), aim.working(at))
        },
    }
}

/// One frame of a wheel gesture: what to remember, and what to do now.
pub fn resolve(
    reported: Reported,
    held: Option<Aim>,
    centre: Pos2,
    inner: i64,
    outer: i64,
    hub: Hub,
) -> (r: (Option<Aim>, WheelAim))
    requires
        centre.in_reach(),
        hub.in_reach(),
        reported.at matches Some(p) ==> p.in_reach(),
        reported.press_origin matches Some(p) ==> p.in_reach(),
        0 <= inner <= REACH,
        0 <= outer <= REACH,
    ensures
        r == resolved(reported, held, centre, inner as int, outer as int, hub),
{
    match frame(reported, held) {
        Frame::Idle => (None, WheelAim::Idle),
        Frame::Held(aim, at) => (Some(aim), aim.at(at)),
        Frame::Press(from, at) => {
            let aim = settle(centre, inner, outer, hub, from);
            (Some(aim), aim.at(at))
        },
    }
}

/// The frames of one gesture: the primary button goes down on the first, and the
/// wheel owns the pointer on every one without it going down again.
pub open spec fn one_gesture(frames: Seq<Reported>) -> bool {
    &&& frames.len() > 0
    &&& frames[0].pressed
    &&& forall|i: int| 0 <= i < frames.len() ==> (#[trigger] frames[i]).at is Some
    &&& forall|i: int| 0 < i < frames.len() ==> !(#[trigger] frames[i]).pressed
}

/// What is remembered after a run of frames, with the shape wherever it has been
/// turned to on each of them.
pub open spec fn remembered(
    frames: Seq<Reported>,
    hubs: Seq<Hub>,
    held: Option<Aim>,
    centre: Pos2,
    inner: int,
    outer: int,
) -> Option<Aim>
    decreases frames.len(),
{
    if frames.len() == 0 {
        held
    } else {
        resolved(
            frames.last(),
            remembered(frames.drop_last(), hubs, held, centre, inner, outer),
            centre,
            inner,
            outer,
            hubs[frames.len() - 1],
        ).0
    }
}

/// A gesture works one control for as long as it lasts: whatever was recorded
/// before it, however the shape is turned during it and whatever another button
/// does, what its last frame works is what its press settled.
pub proof fn a_gesture_keeps_the_control_it_was_pressed_on(
    frames: Seq<Reported>,
    hubs: Seq<Hub>,
    held: Option<Aim>,
    centre: Pos2,
    inner: int,
    outer: int,
)
    requires
        one_gesture(frames),
    ensures
        ({
            let from = match frames[0].press_origin {
                Some(from) => from,
                None => frames[0].at->0,
            };
            let aim = settled(centre, inner, outer, hubs[0], from);
            &&& remembered(frames, hubs, held, centre, inner, outer) == Some(aim)
            &&& resolved(
                frames.last(),
                remembered(frames.drop_last(), hubs, held, centre, inner, outer),
                centre,
                inner,
                outer,
                hubs[frames.len() - 1],
            ).1 == aim.working(frames.last().at->0)
        }),
    decreases frames.len(),
{
    if frames.len() > 1 {
        let before = frames.drop_last();
        assert(one_gesture(before)) by {
            assert forall|i: int| 0 <= i < before.len() implies (#[trigger] before[i]).at is Some by {
                assert(before[i] == frames[i]);
            }
            assert forall|i: int| 0 < i < before.len() implies !(#[trigger] before[i]).pressed by {
                assert(before[i] == frames[i]);
            }
            assert(before[0] == frames[0]);
        }
        a_gesture_keeps_the_control_it_was_pressed_on(before, hubs, held, centre, inner, outer);
        assert(before[0] == frames[0]);
        assert(!frames[frames.len() - 1].pressed);
        assert(frames[frames.len() - 1].at is Some);
    } else {
        assert(frames.drop_last() =~= Seq::empty());
        assert(frames.last() == frames[0]);
    }
}

/// The first frame without a gesture forgets what the last one settled.
pub proof fn an_idle_frame_forgets(
    reported: Reported,
    held: Option<Aim>,
    centre: Pos2,
    inner: int,
    outer: int,
    hub: Hub,
)
    requires
        reported.at is None,
    ensures
        resolved(reported, held, centre, inner, outer, hub) == (None::<Aim>, WheelAim::Idle),
{
}

/// A new press owes nothing to what was recorded, wherever it lands.
pub proof fn a_new_press_settles_afresh(
    reported: Reported,
    held: Option<Aim>,
    other: Option<Aim>,
    centre: Pos2,
    inner: int,
    outer: int,
    hub: Hub,
)
    requires
        reported.pressed,
    ensures
        resolved(reported, held, centre, inner, outer, hub) == resolved(
            reported,
            other,
            centre,
            inner,
            outer,
            hub,
        ),
{
}

/// A press works the shape wherever the shape is drawn; elsewhere it works the
/// ring from its rim in, to a little inside its inner edge; and nothing further in
/// or beyond the rim.
pub proof fn a_press_works_what_it_lands_on(
    centre: Pos2,
    inner: int,
    outer: int,
    hub: Hub,
    from: Pos2,
)
    requires
        0 < inner <= outer,
    ensures
        ({
            let aim = settled(centre, inner, outer, hub, from);
            let out = (from.x - centre.x) * (from.x - centre.x) + (from.y - centre.y) * (from.y
                - centre.y);
            &&& aim == Aim::Centre <==> hub.covers(from)
            &&& !hub.covers(from) && inner * inner <= out <= outer * outer ==> aim == Aim::Ring
            &&& out > outer * outer ==> aim != Aim::Ring
            &&& 625 * out <= 529 * (inner * inner) ==> aim != Aim::Ring
            &&& !hub.covers(from) && 625 * out > 529 * (inner * inner) && out <= outer
                * outer ==> aim == Aim::Ring
        }),
{
    let s = inner * inner;
    assert((92 * inner) * (92 * inner) == 8_464 * s) by (nonlinear_arith)
        requires
            s == inner * inner,
    ;
    assert(0 < s) by (nonlinear_arith)
        requires
            s == inner * inner,
            0 < inner,
    ;
    let out = apart(from, centre);
    assert(grips_ring(centre, inner, outer, from) <==> 625 * out > 529 * s && out <= outer * outer);
}

/// A control is worked where the pointer is.
pub proof fn a_control_is_worked_at_the_pointer(aim: Aim, pos: Pos2)
    ensures
        aim == Aim::Ring <==> aim.working(pos) == WheelAim::Ring(pos),
        aim == Aim::Centre <==> aim.working(pos) == WheelAim::Centre(pos),
        aim == Aim::Nothing <==> aim.working(pos) == WheelAim::Idle,
{
}

/// A frame with the pointer settles a press where the button went down, or where
/// the pointer is if that is not known, and works it where the pointer is now.
pub proof fn a_press_is_settled_where_the_button_went_down(
    reported: Reported,
    held: Option<Aim>,
    centre: Pos2,
    inner: int,
    outer: int,
    hub: Hub,
)
    requires
        reported.at is Some,
    ensures
        ({
            let (kept, aimed) = resolved(reported, held, centre, inner, outer, hub);
            let at = reported.at->0;
            &&& kept is Some
            &&& aimed == kept->0.working(at)
            &&& !reported.pressed && held is Some ==> kept == held
            &&& (reported.pressed || held is None) && reported.press_origin is Some ==> kept->0
                == settled(centre, inner, outer, hub, reported.press_origin->0)
            &&& (reported.pressed || held is None) && reported.press_origin is None ==> kept->0
                == settled(centre, inner, outer, hub, at)
        }),
{
}

} // verus!

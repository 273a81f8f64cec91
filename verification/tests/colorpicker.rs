//! The colour picker: where its shapes are, and what a gesture on them does.

use umber_app::colorpicker::gesture::{frame, resolve, settle, Aim, Frame, Reported, WheelAim};
use umber_app::colorpicker::hub::{
    barycentric, clamp_barycentric, field_at, field_axes, field_point, hub_of, triangle_at,
    triangle_corners, triangle_point, Heading, Hub,
};
use umber_app::colorpicker::mesh::{
    field_edge, field_indices, ring_indices, ring_segments, skirt_corner, strip_indices,
    triangle_indices,
};
use umber_app::colorpicker::mode::{
    angle_row, normalise_angle, wheel_angle, wheel_base, PickerMode, WheelAngles, WheelShape,
};
use umber_app::colorpicker::slider::{
    bar_hue, bar_knob, follow_sliders, slider_ends, slider_knob, slider_width, sliders, square,
    Channel, Rail,
};
use umber_app::colorpicker::swatch::{
    harmony_swatches, swatch_cell, swatch_hint, swatch_mark, taken_swatch, HARMONY_BASE_GAP,
    HARMONY_MARKER, HARMONY_ROW, HARMONY_SWATCH, MARKER_STROKE,
};
use umber_app::colorpicker::wheel::{
    harmony_wheel, ring_radii, wheel, wheel_side, Wheel as Picker, MIN_PICKER, RING_THICKNESS,
};
use umber_app::colour::{wrap_hue, Hsv, Rgb, TURN};
use umber_app::geom::{Pos2, Rect, Vec2, POINT};
use umber_app::number::Number;
use umber_app::ratio::WHOLE;

fn pt(v: f64) -> i64 {
    (v * POINT as f64).round() as i64
}

fn pos2(x: f64, y: f64) -> Pos2 {
    Pos2 { x: pt(x), y: pt(y) }
}

/// An angle or a hue in degrees, on the grid.
fn deg(v: f64) -> i64 {
    (v * 10_000.0).round() as i64
}

fn share(v: f64) -> i64 {
    (v * WHOLE as f64).round() as i64
}

fn hsv(h: f64, s: f64, v: f64) -> Hsv {
    Hsv { h: deg(h), s: share(s), v: share(v) }
}

/// What the cosine and sine of an angle come to.
fn toward(degrees: f64) -> Vec2 {
    let a = degrees.to_radians();
    Vec2 {
        x: (a.cos() * WHOLE as f64).round() as i64,
        y: (a.sin() * WHOLE as f64).round() as i64,
    }
}

fn heading(base: i64) -> Heading {
    let degrees = base as f64 / 10_000.0;
    Heading {
        base: toward(degrees),
        third: toward(degrees + 120.0),
        two_thirds: toward(degrees + 240.0),
    }
}

fn polar(radius: f64, degrees: f64) -> Pos2 {
    let a = degrees.to_radians();
    pos2(100.0 + a.cos() * radius, 100.0 + a.sin() * radius)
}

/// The hue the pointer's place about the centre stands for.
fn ring_hue(at: Pos2) -> Number {
    let (x, y) = ((at.x - CENTRE.x) as f64, (at.y - CENTRE.y) as f64);
    Number::Finite(deg(y.atan2(x).to_degrees()))
}

const CENTRE: Pos2 = Pos2 { x: 100 * POINT, y: 100 * POINT };
const RADIUS: i64 = 50 * POINT;

/// The ring the widest wheel the picker will draw actually has.
const OUTER: i64 = 88 * POINT;
const INNER: i64 = OUTER - RING_THICKNESS;
const INNER_POINTS: f64 = 68.0;
const RING_GRIP: f64 = 0.92;

fn corners_at(
    shape: WheelShape,
    rotate: bool,
    angles: WheelAngles,
    hue: i64,
) -> (Pos2, Pos2, Pos2) {
    let base = wheel_base(shape, rotate, angles, hue);
    triangle_corners(CENTRE, RADIUS, heading(base), false)
}

fn corners(rotate: bool, hue: f64) -> (Pos2, Pos2, Pos2) {
    corners_at(WheelShape::Triangle, rotate, WheelAngles::default(), deg(hue))
}

fn turned(degrees: f64) -> (Pos2, Pos2, Pos2) {
    let mut angles = WheelAngles::default();
    angles.set(WheelShape::Triangle, Number::Finite(deg(degrees)));
    corners_at(WheelShape::Triangle, false, angles, 0)
}

/// How far apart two places are, in points.
fn apart(a: Pos2, b: Pos2) -> f64 {
    let (x, y) = ((a.x - b.x) as f64, (a.y - b.y) as f64);
    x.hypot(y) / POINT as f64
}

fn from_centre(at: Pos2) -> f64 {
    apart(at, CENTRE)
}

fn hub_at(shape: WheelShape, degrees: f64) -> Hub {
    let mut angles = WheelAngles::default();
    angles.set(shape, Number::Finite(deg(degrees)));
    let base = wheel_base(shape, false, angles, 0);
    hub_of(shape, CENTRE, INNER, heading(base), false)
}

fn on_the_ring(degrees: f64, across: f64) -> Pos2 {
    polar(INNER_POINTS + 20.0 * across, degrees)
}

fn hub_corners(hub: Hub) -> Vec<Pos2> {
    match hub {
        Hub::Triangle(a, b, c) => vec![a, b, c],
        Hub::Field(centre, half, across) => [(0, 0), (WHOLE, 0), (0, WHOLE), (WHOLE, WHOLE)]
            .iter()
            .map(|(s, v)| field_point(centre, half, across, *s, *v))
            .collect(),
    }
}

/// The wheel's own loop with the painting taken out: the hub rebuilt from the
/// hue every frame, the frame settled, then whichever control the aim names.
struct Wheel {
    picker: Picker,
    held: Option<Aim>,
}

impl Wheel {
    fn new(shape: WheelShape, rotate: bool, start: Hsv) -> Self {
        Self {
            picker: Picker {
                shape,
                rotate,
                mirrored: false,
                angles: WheelAngles::default(),
                hsv: start,
            },
            held: None,
        }
    }

    fn hub(&self) -> Hub {
        let w = &self.picker;
        let base = wheel_base(w.shape, w.rotate, w.angles, w.hsv.h);
        hub_of(w.shape, CENTRE, INNER, heading(base), w.mirrored)
    }

    fn step(&mut self, reported: Reported) -> WheelAim {
        let (keep, aimed) = resolve(reported, self.held, CENTRE, INNER, OUTER, self.hub());
        let w = self.picker;
        let base = wheel_base(w.shape, w.rotate, w.angles, w.hsv.h);
        let hue = reported.at.map_or(Number::NotANumber, ring_hue);
        let changed = wheel(
            &mut self.picker,
            &mut self.held,
            reported,
            CENTRE,
            176 * POINT,
            heading(base),
            hue,
        );
        assert_eq!(self.held, keep);
        assert_eq!(changed, aimed != WheelAim::Idle);
        aimed
    }

    fn press(&mut self, at: Pos2) -> WheelAim {
        self.step(Reported { at: Some(at), press_origin: Some(at), pressed: true })
    }

    fn drag(&mut self, from: Pos2, at: Pos2) -> WheelAim {
        self.step(Reported { at: Some(at), press_origin: Some(from), pressed: false })
    }

    /// The release, on which the origin has already been cleared.
    fn release(&mut self, at: Pos2) -> WheelAim {
        self.step(Reported { at: Some(at), press_origin: None, pressed: false })
    }

    /// A second button pressed mid-drag: the origin moves to wherever the
    /// pointer is, and the primary button never came up.
    fn second_button_down(&mut self, at: Pos2) -> WheelAim {
        self.step(Reported { at: Some(at), press_origin: Some(at), pressed: false })
    }

    fn second_button_up(&mut self, at: Pos2) -> WheelAim {
        self.step(Reported { at: Some(at), press_origin: None, pressed: false })
    }

    fn idle(&mut self) -> WheelAim {
        self.step(Reported::default())
    }
}

#[test]
fn a_rotating_triangle_follows_the_hue() {
    let (red, ..) = corners(true, 0.0);
    let (green, ..) = corners(true, 120.0);
    // A third of a turn round the ring is a third of a turn of the apex.
    assert!(apart(red, green) > 50.0, "{red:?} vs {green:?}");
    // And a full turn brings it back to where it started.
    let (round_again, ..) = corners(true, 360.0);
    assert!(apart(red, round_again) < 1e-3);
}

#[test]
fn a_still_triangle_holds_its_corners_at_every_hue() {
    let at_zero = corners(false, 0.0);
    for hue in [1.0, 47.0, 120.0, 210.0, 359.0] {
        assert_eq!(corners(false, hue), at_zero, "a corner moved at {hue}");
    }
}

/// A fixed triangle that pointed sideways would look like one that failed to
/// finish turning, so the apex is straight up. Screen y is down.
#[test]
fn a_still_triangle_points_up() {
    let (hue_pt, ..) = corners(false, 0.0);
    assert!((hue_pt.x - CENTRE.x).abs() < pt(1e-3), "{hue_pt:?}");
    assert!(hue_pt.y < CENTRE.y, "{hue_pt:?}");
}

/// The angle is measured from each shape's own neutral pose, so zero changes
/// nothing.
#[test]
fn an_angle_of_zero_is_the_pose_the_picker_has_always_had() {
    assert_eq!(turned(0.0), corners(false, 0.0));
    assert_eq!(WheelAngles::default().of(WheelShape::Triangle), 0);
    assert_eq!(WheelAngles::default().of(WheelShape::Square), 0);
    // The square's neutral is level, not apex-up.
    let neutral = WheelShape::Square.neutral() as f64 / 10_000.0;
    let (across, down) = field_axes(toward(neutral));
    assert_eq!(across, Vec2 { x: WHOLE, y: 0 });
    assert_eq!(down, Vec2 { x: 0, y: WHOLE });
}

/// A quarter turn puts the apex where the zero angle points, to the right.
#[test]
fn the_angle_turns_the_triangle_by_exactly_that_much() {
    let (hue_pt, ..) = turned(90.0);
    assert!((hue_pt.x - (CENTRE.x + RADIUS)).abs() < pt(1e-3), "{hue_pt:?}");
    assert!((hue_pt.y - CENTRE.y).abs() < pt(1e-3), "{hue_pt:?}");
}

/// A third of a turn maps the triangle's outline onto itself and hands each
/// corner the next one's colour, which is why the range is a whole turn.
#[test]
fn a_third_of_a_turn_moves_the_triangles_colours_and_not_its_outline() {
    let (hue_pt, white_pt, black_pt) = turned(0.0);
    let (hue_now, white_now, black_now) = turned(120.0);
    // The outline is the same three points, in a different order.
    assert!(apart(hue_now, white_pt) < 1e-3, "{hue_now:?}");
    assert!(apart(white_now, black_pt) < 1e-3, "{white_now:?}");
    assert!(apart(black_now, hue_pt) < 1e-3, "{black_now:?}");
    // And the hue corner has genuinely moved.
    assert!(apart(hue_now, hue_pt) > 50.0);
}

/// The angle is meaningless while the hue is supplying it.
#[test]
fn a_triangle_following_the_hue_ignores_the_stored_angle() {
    let mut angles = WheelAngles::default();
    for degrees in [0.0, 17.0, 120.0, 359.0] {
        angles.set(WheelShape::Triangle, Number::Finite(deg(degrees)));
        for hue in [0.0, 47.0, 210.0] {
            assert_eq!(
                corners_at(WheelShape::Triangle, true, angles, deg(hue)),
                corners(true, hue),
                "angle {degrees} leaked in at hue {hue}"
            );
        }
    }
}

/// A square has no corner that is the hue, so it is turned by its own angle
/// whatever the flag says.
#[test]
fn a_square_is_turned_only_by_its_own_angle() {
    let mut angles = WheelAngles::default();
    angles.set(WheelShape::Square, Number::Finite(deg(30.0)));
    for rotate in [true, false] {
        assert_eq!(
            wheel_angle(WheelShape::Square, rotate, angles, deg(200.0)),
            deg(30.0)
        );
    }
    assert!(!WheelShape::Square.follows_hue(true));
    assert!(WheelShape::Triangle.follows_hue(true));
}

/// Trying the other shape and coming back finds the first where it was left.
#[test]
fn each_shape_remembers_its_own_angle() {
    let mut angles = WheelAngles::default();
    angles.set(WheelShape::Triangle, Number::Finite(deg(45.0)));
    assert_eq!(angles.of(WheelShape::Square), 0, "the square did not move");
    angles.set(WheelShape::Square, Number::Finite(deg(200.0)));
    assert_eq!(
        angles.of(WheelShape::Triangle),
        deg(45.0),
        "nor the triangle back"
    );
}

/// The bar's far end has to store a hue that is still at the right-hand end: not
/// a wrap to zero, and not the whole turn that the range leaves out.
#[test]
fn the_hue_bars_far_end_stays_at_its_far_end() {
    assert_eq!(bar_hue(0), 0);
    assert!(
        (deg(359.0)..TURN).contains(&bar_hue(WHOLE)),
        "the far right read as {}",
        bar_hue(WHOLE)
    );
    // Dragged past the edge is the same as the edge.
    assert_eq!(bar_hue(share(1.5)), bar_hue(WHOLE));
    assert_eq!(bar_hue(share(-0.5)), 0);
    for step in 0..=100 {
        let h = bar_hue(share(step as f64 / 100.0));
        assert!((0..TURN).contains(&h), "{h} is not a hue");
    }
    // And the knob is drawn at the end the hand is at.
    assert_eq!(bar_knob(0, 100 * POINT, bar_hue(WHOLE)), 100 * POINT);
    assert_eq!(bar_knob(0, 100 * POINT, deg(90.0)), 25 * POINT);
}

/// Turning the hue through a whole circle leaves saturation and value exactly
/// what they were, with "Rotate with hue" off and on, pressed at several
/// headings and at the ring's inner edge.
#[test]
fn turning_the_hue_through_a_whole_circle_leaves_the_saturation_and_value_alone() {
    for shape in WheelShape::all() {
        for rotate in [false, true] {
            for pressed_at in [0.0, 45.0, 137.0, 250.0] {
                let start = hsv(0.0, 0.375, 0.625);
                let mut wheel = Wheel::new(shape, rotate, start);
                let press = on_the_ring(pressed_at, 0.0);
                let mut hues = Vec::new();

                let check = |aimed: WheelAim, wheel: &Wheel, what: &str| {
                    assert!(
                        matches!(aimed, WheelAim::Ring(_)),
                        "{shape:?} rotate={rotate} pressed at {pressed_at}: \
                         {what} left the ring as {aimed:?}"
                    );
                    assert_eq!(
                        (wheel.picker.hsv.s, wheel.picker.hsv.v),
                        (start.s, start.v),
                        "{shape:?} rotate={rotate} pressed at {pressed_at}: \
                         {what} moved the marker"
                    );
                };

                let aimed = wheel.press(press);
                check(aimed, &wheel, "the press");
                for step in 0..=360 {
                    let aimed = wheel.drag(press, on_the_ring(step as f64, 0.5));
                    check(aimed, &wheel, "a drag frame");
                    assert!(
                        (0..TURN).contains(&wheel.picker.hsv.h),
                        "{} is not a hue",
                        wheel.picker.hsv.h
                    );
                    hues.push((wheel.picker.hsv.h + 5_000) / 10_000);
                }
                // A drag begun on the ring carries on across the middle, and is
                // still the ring's when it is let go there.
                let aimed = wheel.drag(press, CENTRE);
                check(aimed, &wheel, "crossing the middle");
                let aimed = wheel.release(CENTRE);
                check(aimed, &wheel, "the release");

                // And the hue went where it was dragged.
                hues.sort_unstable();
                hues.dedup();
                assert!(hues.len() > 300, "the sweep reached {} hues", hues.len());
            }
        }
    }
}

/// A press in the band between the grip's forgiving edge and the ring sets a
/// hue that points the apex at the press. The gesture is still the ring's.
#[test]
fn a_hue_the_press_itself_set_cannot_turn_the_shape_onto_that_press() {
    let start = hsv(0.0, 0.4, 0.6);
    for across in [0.005, 0.015, 0.03] {
        let at = |degrees: f64| {
            polar(INNER_POINTS * RING_GRIP + across * INNER_POINTS, degrees)
        };
        for degrees in [7.0, 100.0, 250.0, 340.0] {
            let press = at(degrees);
            assert!(
                from_centre(press) > INNER_POINTS * RING_GRIP,
                "that is not the grip band"
            );
            let mut wheel = Wheel::new(WheelShape::Triangle, true, start);
            assert!(matches!(wheel.press(press), WheelAim::Ring(_)));
            // The apex is now at `degrees`, so the press is inside the triangle.
            assert!(
                wheel.hub().contains(press),
                "at {degrees} the apex did not reach the press, so this proves \
                 nothing"
            );
            for step in 1..=8 {
                let aimed = wheel.drag(press, at(degrees + step as f64 * 5.0));
                assert!(
                    matches!(aimed, WheelAim::Ring(_)),
                    "{degrees}, frame {step}: the triangle took the drag"
                );
            }
            assert_eq!(
                (wheel.picker.hsv.s, wheel.picker.hsv.v),
                (start.s, start.v)
            );
            // Round the circle, not along a line.
            let away = (wheel.picker.hsv.h - deg(degrees)).abs();
            let moved = away.min(TURN - away);
            assert!(moved > deg(30.0), "the hue froze at {}", wheel.picker.hsv.h);
        }
    }
}

/// The press has to land on the shape that is drawn, not on the square around
/// the ring it is inscribed in.
#[test]
fn only_the_shape_that_is_drawn_takes_a_press() {
    for shape in WheelShape::all() {
        for degrees in [0.0, 37.0, 90.0, 214.0] {
            let hub = hub_at(shape, degrees);
            assert!(hub.contains(CENTRE), "{shape:?} at {degrees} is empty");
            for across in [0.0, 0.5, 0.98] {
                for step in 0..72 {
                    let at = on_the_ring(step as f64 * 5.0, across);
                    assert!(
                        !hub.contains(at),
                        "{shape:?} at {degrees} reaches the ring at {}, {across} across",
                        step * 5
                    );
                    assert_eq!(
                        settle(CENTRE, INNER, OUTER, hub, at),
                        Aim::Ring,
                        "{shape:?} at {degrees}: a press on the ring at {} went elsewhere",
                        step * 5
                    );
                }
            }
            // Past the ring's outer edge nothing is drawn either.
            for step in 0..72 {
                let past = polar(88.0 * 1.02, step as f64 * 5.0);
                assert_eq!(
                    settle(CENTRE, INNER, OUTER, hub, past),
                    Aim::Nothing,
                    "{shape:?} at {degrees}: outside the ring at {} set a hue",
                    step * 5
                );
            }
            // And the shape's own corners are its own, which is why the hub is
            // asked before the ring.
            for corner in hub_corners(hub) {
                let just_inside = Pos2 {
                    x: CENTRE.x + (corner.x - CENTRE.x) * 98 / 100,
                    y: CENTRE.y + (corner.y - CENTRE.y) * 98 / 100,
                };
                assert!(
                    from_centre(just_inside) > INNER_POINTS * RING_GRIP,
                    "{shape:?} at {degrees}: this corner does not reach the grip, so \
                     the ordering is untested"
                );
                assert_eq!(
                    settle(CENTRE, INNER, OUTER, hub, just_inside),
                    Aim::Centre,
                    "{shape:?} at {degrees}: the ring took a press on a corner"
                );
            }
        }
    }
}

/// A drag that began inside the centre keeps it however far out it wanders, and
/// goes on sliding along the edge.
#[test]
fn a_drag_out_of_the_centre_still_belongs_to_the_centre() {
    for shape in WheelShape::all() {
        let mut wheel = Wheel::new(shape, true, hsv(123.0, 0.5, 0.5));
        assert!(matches!(wheel.press(CENTRE), WheelAim::Centre(_)));
        let mut seen = Vec::new();
        for step in 0..36 {
            let at = polar(INNER_POINTS * 2.0, step as f64 * 10.0);
            let aimed = wheel.drag(CENTRE, at);
            assert!(
                matches!(aimed, WheelAim::Centre(_)),
                "{shape:?} lost the drag at {} as {aimed:?}",
                step * 10
            );
            assert_eq!(
                wheel.picker.hsv.h,
                deg(123.0),
                "the hue is not the centre's to move"
            );
            seen.push((wheel.picker.hsv.s, wheel.picker.hsv.v));
        }
        // Let go out on the ring: still the centre's.
        let aimed = wheel.release(on_the_ring(210.0, 0.5));
        assert!(matches!(aimed, WheelAim::Centre(_)), "{aimed:?}");
        assert_eq!(wheel.picker.hsv.h, deg(123.0), "the release moved the hue");
        // It slid rather than froze.
        seen.dedup();
        assert!(seen.len() > 4, "{shape:?} froze: {seen:?}");
    }
}

/// A press in a gap between the shape and the ring moves nothing at all.
#[test]
fn a_press_between_the_shape_and_the_ring_moves_no_colour() {
    // Straight down from the centre of an apex-up triangle is the middle of the
    // opposite edge, which is the widest of the three gaps.
    let hub = hub_at(WheelShape::Triangle, 0.0);
    let from = pos2(100.0, 100.0 + INNER_POINTS * 0.7);
    assert!(!hub.contains(from), "that is not a gap");
    assert!(
        from_centre(from) < INNER_POINTS * RING_GRIP,
        "nor is it ring"
    );
    assert_eq!(settle(CENTRE, INNER, OUTER, hub, from), Aim::Nothing);

    // Held still rather than following the hue, so the wheel's own shape is the
    // one just measured.
    let before = hsv(200.0, 0.4, 0.6);
    let mut wheel = Wheel::new(WheelShape::Triangle, false, before);
    assert_eq!(wheel.press(from), WheelAim::Idle);
    // And a drag begun there stays nothing, wherever it goes.
    assert_eq!(wheel.drag(from, CENTRE), WheelAim::Idle);
    assert_eq!(wheel.drag(from, on_the_ring(90.0, 0.5)), WheelAim::Idle);
    assert_eq!(wheel.release(CENTRE), WheelAim::Idle);
    assert_eq!(wheel.picker.hsv, before);
}

/// Swapping exchanges white and black and moves nothing else.
#[test]
fn swapping_exchanges_white_and_black_and_moves_nothing_else() {
    for degrees in [0.0, 17.0, 90.0, 233.0, 359.0] {
        let base = heading(deg(degrees));
        let (hue, white, black) = triangle_corners(CENTRE, RADIUS, base, false);
        let (hue_s, white_s, black_s) = triangle_corners(CENTRE, RADIUS, base, true);
        assert!(apart(hue, hue_s) < 1e-3, "the hue corner moved at {degrees}");
        assert!(
            apart(white_s, black) < 1e-3,
            "white did not land where black was, at {degrees}"
        );
        assert!(
            apart(black_s, white) < 1e-3,
            "black did not land where white was, at {degrees}"
        );
    }
}

/// No angle whatever reaches the swapped arrangement, and the two controls
/// together reach all six.
#[test]
fn the_angle_and_the_swap_reach_six_arrangements_and_no_angle_reaches_a_swap() {
    let same = |a: &(Pos2, Pos2, Pos2), b: &(Pos2, Pos2, Pos2)| {
        apart(a.0, b.0) < 0.5 && apart(a.1, b.1) < 0.5 && apart(a.2, b.2) < 0.5
    };
    let swapped = triangle_corners(CENTRE, RADIUS, heading(0), true);
    for step in 0..720 {
        let plain = triangle_corners(CENTRE, RADIUS, heading(deg(step as f64 * 0.5)), false);
        assert!(!same(&plain, &swapped), "{} reproduces the swap", step as f64 * 0.5);
    }

    let all: Vec<(Pos2, Pos2, Pos2)> = [false, true]
        .into_iter()
        .flat_map(|mirrored| {
            [0.0, 120.0, 240.0]
                .into_iter()
                .map(move |d| triangle_corners(CENTRE, RADIUS, heading(deg(d)), mirrored))
        })
        .collect();
    assert_eq!(all.len(), 6);
    for (i, a) in all.iter().enumerate() {
        for (j, b) in all.iter().enumerate().skip(i + 1) {
            assert!(!same(a, b), "arrangements {i} and {j} are the same one");
        }
    }
}

/// A press reads a different colour with the corners swapped.
#[test]
fn a_swapped_triangle_reads_the_other_colour() {
    let reads = |mirrored: bool, at: Pos2| {
        let mut wheel = Wheel::new(WheelShape::Triangle, false, hsv(210.0, 0.4, 0.6));
        wheel.picker.mirrored = mirrored;
        wheel.press(at);
        (wheel.picker.hsv.s, wheel.picker.hsv.v)
    };
    let left = pos2(80.0, 120.0);
    assert_ne!(reads(false, left), reads(true, left));
    // On the axis through the hue corner the two agree.
    assert_eq!(reads(false, CENTRE), reads(true, CENTRE));
}

/// A gesture is settled at its press and not at its release.
#[test]
fn a_gesture_is_settled_at_its_press_and_not_at_its_release() {
    let press = pos2(10.0, 10.0);
    let now = pos2(80.0, 90.0);

    // The press: nothing recorded yet, so it is settled here.
    assert_eq!(
        frame(
            Reported { at: Some(press), press_origin: Some(press), pressed: true },
            None
        ),
        Frame::Press(press, press)
    );
    // Held down since: the aim stands and only the position moves.
    assert_eq!(
        frame(
            Reported { at: Some(now), press_origin: Some(press), pressed: false },
            Some(Aim::Ring)
        ),
        Frame::Held(Aim::Ring, now)
    );
    // Released: the origin is gone, and what was recorded is all that is left.
    assert_eq!(
        frame(
            Reported { at: Some(now), press_origin: None, pressed: false },
            Some(Aim::Ring)
        ),
        Frame::Held(Aim::Ring, now)
    );
    // Pressed and released inside one frame: its own position is the origin.
    assert_eq!(
        frame(
            Reported { at: Some(now), press_origin: None, pressed: true },
            None
        ),
        Frame::Press(now, now)
    );
    // The primary button going down is a new gesture whatever the position.
    assert_eq!(
        frame(
            Reported { at: Some(press), press_origin: Some(press), pressed: true },
            Some(Aim::Centre)
        ),
        Frame::Press(press, press)
    );
    // No gesture on this widget: the record goes.
    assert_eq!(
        frame(
            Reported { at: None, press_origin: Some(press), pressed: false },
            Some(Aim::Ring)
        ),
        Frame::Idle
    );
    assert_eq!(frame(Reported::default(), None), Frame::Idle);
}

/// A second button pressed part-way through a drag must change nothing.
#[test]
fn a_second_button_pressed_mid_drag_changes_nothing() {
    for shape in WheelShape::all() {
        let start = hsv(200.0, 0.42, 0.58);
        let mut wheel = Wheel::new(shape, true, start);
        let press = on_the_ring(40.0, 0.5);
        assert!(matches!(wheel.press(press), WheelAim::Ring(_)));
        // Drag until the pointer is over the middle.
        assert!(matches!(
            wheel.drag(press, on_the_ring(80.0, 0.5)),
            WheelAim::Ring(_)
        ));
        let hue = wheel.picker.hsv.h;

        for (what, aimed) in [
            ("the second press", wheel.second_button_down(CENTRE)),
            ("the frame after", wheel.drag(press, CENTRE)),
            ("the second release", wheel.second_button_up(CENTRE)),
        ] {
            assert!(
                matches!(aimed, WheelAim::Ring(_)),
                "{shape:?}: {what} took the drag as {aimed:?}"
            );
        }
        assert_eq!(
            (wheel.picker.hsv.s, wheel.picker.hsv.v),
            (start.s, start.v),
            "{shape:?}: the marker moved"
        );
        // The hue is still the ring's to move, and moved only because the
        // pointer did: to the centre, where there is no direction.
        assert_eq!(wheel.picker.hsv.h, wrap_hue(ring_hue(CENTRE)));
        assert!(hue != wheel.picker.hsv.h || hue == 0);
    }
}

/// A record left behind by a gesture that ended with no frame to clear it must
/// not be inherited, not even by a press at the very pixel it was settled at.
#[test]
fn a_new_press_on_the_same_pixel_settles_afresh() {
    let spot = on_the_ring(90.0, 0.5);
    let mut wheel = Wheel::new(WheelShape::Triangle, true, hsv(10.0, 0.5, 0.5));
    assert!(matches!(wheel.press(spot), WheelAim::Ring(_)));
    wheel.held = Some(Aim::Centre);

    assert!(
        matches!(wheel.press(spot), WheelAim::Ring(_)),
        "the stale aim was inherited"
    );
    // And an idle frame is what clears a record in the ordinary case.
    assert_eq!(wheel.idle(), WheelAim::Idle);
    assert_eq!(wheel.held, None);
}

/// The release frame of a drag out of the centre must not be handed to the ring.
#[test]
fn a_drag_released_over_the_ring_does_not_move_the_hue() {
    let mut wheel = Wheel::new(WheelShape::Triangle, true, hsv(30.0, 0.5, 0.5));
    assert!(matches!(wheel.press(CENTRE), WheelAim::Centre(_)));
    let release = on_the_ring(210.0, 0.5);
    let aimed = wheel.release(release);
    assert!(
        matches!(aimed, WheelAim::Centre(_)),
        "the release was read as a press on the ring: {aimed:?}"
    );
    assert_eq!(wheel.picker.hsv.h, deg(30.0));
}

#[test]
fn an_angle_wraps_into_a_single_turn() {
    let normalise = |v: f64| normalise_angle(Number::Finite(deg(v)));
    assert_eq!(normalise(0.0), 0);
    assert_eq!(normalise(359.0), deg(359.0));
    assert_eq!(normalise(360.0), 0);
    assert_eq!(normalise(370.0), deg(10.0));
    assert_eq!(normalise(-90.0), deg(270.0));
    assert_eq!(normalise(-720.0), 0);
    // A step short of nothing is a step short of a turn, and never a turn.
    assert!(normalise_angle(Number::Finite(-1)) < TURN);
    assert!(normalise(-1e-7) < TURN);
    // Nothing that is not finite may reach the geometry.
    for bad in [
        Number::NotANumber,
        Number::Infinite { negative: false },
        Number::Infinite { negative: true },
    ] {
        assert_eq!(normalise_angle(bad), 0);
    }
    let mut angles = WheelAngles::default();
    angles.set(WheelShape::Triangle, Number::NotANumber);
    assert_eq!(angles.of(WheelShape::Triangle), 0, "set normalises too");
}

/// Whatever the field is turned to, a point still stands for the same saturation
/// and value it did.
#[test]
fn a_turned_field_reads_the_same_colour_at_the_same_place() {
    let half = Vec2 { x: 40 * POINT, y: 40 * POINT };
    for angle in [0.0_f64, 0.4, 1.0, -2.5, std::f64::consts::TAU] {
        let across = toward(angle.to_degrees());
        for (s, v) in [
            (0.0, 0.0),
            (1.0, 0.0),
            (0.0, 1.0),
            (1.0, 1.0),
            (0.5, 0.5),
            (0.25, 0.8),
        ] {
            let at = field_point(CENTRE, half, across, share(s), share(v));
            let (back_s, back_v) = field_at(CENTRE, half, across, at);
            assert!((back_s - share(s)).abs() < share(1e-4), "{s} -> {back_s} at {angle}");
            assert!((back_v - share(v)).abs() < share(1e-4), "{v} -> {back_v} at {angle}");
        }
    }
}

/// A level field has to land exactly where the axis-aligned version put it.
#[test]
fn a_level_field_is_the_axis_aligned_one() {
    let level = Vec2 { x: WHOLE, y: 0 };
    let (left, top, width, height) = (10.0, 20.0, 200.0, 130.0);
    let centre = pos2(left + width / 2.0, top + height / 2.0);
    let half = Vec2 { x: pt(width / 2.0), y: pt(height / 2.0) };
    for (s, v) in [(0.0, 1.0), (1.0, 1.0), (0.0, 0.0), (1.0, 0.0)] {
        let at = field_point(centre, half, level, share(s), share(v));
        assert_eq!(at, pos2(left + width * s, top + height * (1.0 - v)));
    }
    for (s, v) in [(0.37, 0.62), (0.5, 0.5), (0.9, 0.1)] {
        let at = field_point(centre, half, level, share(s), share(v));
        assert!((at.x - pt(left + width * s)).abs() < pt(1e-3), "{at:?}");
        assert!((at.y - pt(top + height * (1.0 - v))).abs() < pt(1e-3), "{at:?}");
    }
}

/// The field's edges are drawn with a skirt, and the skirt has to be outside it.
#[test]
fn the_fields_skirt_lies_outside_it() {
    const N: usize = 8;
    assert_eq!(field_edge(0, N), (-WHOLE, -1));
    assert_eq!(field_edge(N + 2, N), (WHOLE, 1));
    assert_eq!(field_edge(1, N), (-WHOLE, 0));
    assert_eq!(field_edge(N + 1, N), (WHOLE, 0));
    // The interior is evenly spaced and covers the whole field.
    for i in 1..=N + 1 {
        let (u, out) = field_edge(i, N);
        assert_eq!(out, 0);
        assert!((-WHOLE..=WHOLE).contains(&u), "{u}");
    }
    assert_eq!(field_edge(2, N).0, -750_000);
}

/// Two swatches must never share a pixel, and the row has to end where it was
/// given room to, whatever divides it.
#[test]
fn the_harmony_swatches_tile_their_row_without_overlapping() {
    for width in [264.0, 190.0, 48.0, 1.0, 0.0] {
        let row = Rect {
            min: pos2(10.0, 20.0),
            max: Pos2 { x: pt(10.0 + width), y: pt(20.0) + HARMONY_ROW },
        };
        for count in 1..=6 {
            let cells: Vec<Rect> = (0..count).map(|i| swatch_cell(row, i, count)).collect();
            for cell in &cells {
                assert!(cell.width() > 0 && cell.height() > 0, "{cell:?}");
                assert_eq!(cell.min.y, row.min.y);
                assert_eq!(cell.height(), HARMONY_SWATCH);
                let mark = swatch_mark(*cell);
                assert!(mark.min.y >= cell.max.y, "the mark overlaps the colour");
                assert!(mark.max.y <= row.max.y, "the mark runs off the row");
                assert_eq!(mark.width(), cell.width());
            }
            for pair in cells.windows(2) {
                assert!(
                    pair[1].min.x >= pair[0].max.x,
                    "width {width}, {count} swatches: {pair:?} overlap"
                );
            }
            // The row is filled to within a step of the grid a swatch, except
            // where the floor on a cell's width has already taken over.
            if pt(width) >= MIN_PICKER {
                let last = cells.last().expect("at least one");
                assert!((last.max.x - row.max.x).abs() < pt(1e-3), "{last:?}");
            }
        }
    }
}

/// The base's second ring is on the hue band: it fits from 54 points up, and
/// overhangs by no more than a point below that.
#[test]
fn the_base_ring_stays_on_the_hue_band() {
    let reach = HARMONY_MARKER + HARMONY_BASE_GAP + MARKER_STROKE / 2;
    let mut sides = vec![MIN_PICKER, pt(53.0), pt(54.0), pt(176.0)];
    sides.extend((48..=176).map(|n| n * POINT));
    for size in sides {
        let (inner, outer) = ring_radii(size);
        let half_band = (outer - inner) / 2;
        if size >= pt(54.0) {
            assert!(
                reach <= half_band + pt(1e-3),
                "at {size} the base ring reaches {reach} into a half-band of {half_band}",
            );
        } else {
            assert!(
                reach <= half_band + POINT + pt(1e-3),
                "at {size} the base ring overhangs by {}",
                reach - half_band,
            );
        }
    }
}

/// Whichever way it is turned, the three corners have to stay a triangle.
#[test]
fn the_corners_are_never_collinear() {
    let mut angles = WheelAngles::default();
    for degrees in [0.0, 1.0, 45.0, 120.0, 271.0, 359.0] {
        angles.set(WheelShape::Triangle, Number::Finite(deg(degrees)));
        for rotate in [true, false] {
            for hue in [0.0, 30.0, 90.0, 180.0, 275.0, 359.9] {
                let (h, w, b) = corners_at(WheelShape::Triangle, rotate, angles, deg(hue));
                let (x, y, z) = barycentric(CENTRE, h, w, b)
                    .unwrap_or_else(|| panic!("degenerate at {degrees} {rotate} {hue}"));
                // The centre is inside, so every weight is positive.
                assert!(x > 0 && y > 0 && z > 0, "{x} {y} {z}");
            }
        }
    }
}

// --- the edges -------------------------------------------------------------------

/// Corners on a line have no weights, and read no colour.
#[test]
fn corners_on_a_line_are_no_triangle() {
    let (a, b, c) = (pos2(0.0, 0.0), pos2(1.0, 1.0), pos2(2.0, 2.0));
    assert!(barycentric(pos2(1.0, 0.0), a, b, c).is_none());
    assert!(triangle_at(a, b, c, pos2(1.0, 0.0)).is_none());
    assert!(!Hub::Triangle(a, b, c).contains(pos2(1.0, 1.0)));
}

/// Each corner of the triangle is the colour it stands for.
#[test]
fn each_corner_reads_its_own_colour() {
    let (hue, white, black) = (pos2(100.0, 50.0), pos2(150.0, 130.0), pos2(50.0, 130.0));
    assert_eq!(triangle_at(hue, white, black, hue), Some((WHOLE, WHOLE)));
    assert_eq!(triangle_at(hue, white, black, white), Some((0, WHOLE)));
    let (_, v) = triangle_at(hue, white, black, black).expect("a triangle");
    assert_eq!(v, 0);
    // And is where that colour is marked.
    assert_eq!(triangle_point(hue, white, black, WHOLE, WHOLE), hue);
    assert_eq!(triangle_point(hue, white, black, 0, WHOLE), white);
    assert_eq!(triangle_point(hue, white, black, 0, 0), black);
}

/// Weights outside the triangle are brought to its edge and still add up.
#[test]
fn weights_are_held_to_the_triangle() {
    assert_eq!(clamp_barycentric(3, 4, 5), (3, 4, 5));
    let (a, b, c) = clamp_barycentric(-4, 8, 8);
    assert_eq!(a, 0);
    assert_eq!(b, c);
}

/// The figure row is a whole turn that lands on each eighth of one.
#[test]
fn the_angle_row_reaches_a_whole_turn() {
    let row = angle_row();
    assert_eq!((row.from, row.to, row.snap), (0, deg(359.0), deg(45.0)));
    assert_eq!((row.label, row.suffix, row.decimals), ("Angle", "°", 0));
}

#[test]
fn what_is_drawn_under_a_wheel_follows_its_shape() {
    let mut wheel = Wheel::new(WheelShape::Triangle, true, hsv(30.0, 0.5, 0.5)).picker;
    let rows = wheel.rows();
    assert!(rows.rotate && rows.swap && rows.following);
    // Thirty past the neutral pose, which is a quarter turn back.
    assert_eq!(rows.angle, deg(120.0));
    wheel.rotate = false;
    wheel.set_angle(Number::Finite(deg(725.0)));
    let rows = wheel.rows();
    assert!(!rows.following);
    assert_eq!(rows.angle, deg(5.0));
    wheel.shape = WheelShape::Square;
    let rows = wheel.rows();
    assert!(!rows.rotate && !rows.swap && !rows.following);
    assert_eq!(rows.angle, 0, "its own");
}

#[test]
fn a_wheel_fits_its_panel() {
    assert_eq!(wheel_side(0), MIN_PICKER);
    assert_eq!(wheel_side(100 * POINT), 100 * POINT);
    assert_eq!(wheel_side(400 * POINT), 176 * POINT);
    assert_eq!(ring_radii(176 * POINT), (68 * POINT, 88 * POINT));
    // A small wheel keeps a hub of a quarter of its radius.
    assert_eq!(ring_radii(48 * POINT), (6 * POINT, 24 * POINT));
}

#[test]
fn the_modes_are_offered_in_order() {
    let labels: Vec<&str> = PickerMode::all().into_iter().map(PickerMode::label).collect();
    assert_eq!(labels, ["Wheel", "Square", "Sliders", "Harmony"]);
    assert!(WheelShape::Triangle.can_swap_ends());
    assert!(!WheelShape::Square.can_swap_ends());
}

/// A rail reads a byte, and draws its knob where that byte is.
#[test]
fn a_rail_reads_a_byte_and_shows_it_there() {
    let rail = |at: f64| Rail { at: pt(at), left: pt(10.0), width: pt(100.0) };
    assert_eq!(rail(10.0).byte(), 0);
    assert_eq!(rail(110.0).byte(), 255);
    assert_eq!(rail(60.0).byte(), 128);
    assert_eq!(rail(-5.0).byte(), 0);
    assert_eq!(rail(500.0).byte(), 255);
    assert_eq!(rail(60.0).share(), WHOLE / 2);
    assert_eq!(slider_knob(pt(10.0), pt(102.0), 255), pt(112.0));
    assert_eq!(slider_knob(pt(10.0), pt(102.0), 0), pt(10.0));
    assert_eq!(slider_width(pt(264.0)), pt(226.0));
    assert_eq!(slider_width(0), pt(24.0));
}

/// Only the rails that were touched change their channel.
#[test]
fn each_slider_moves_its_own_channel() {
    let start = Rgb { r: 10, g: 20, b: 30 };
    assert_eq!(sliders(start, None, None, None), (start, false));
    let full = Rail { at: pt(100.0), left: 0, width: pt(100.0) };
    let (next, changed) = sliders(start, None, Some(full), None);
    assert!(changed);
    assert_eq!(next, Rgb { r: 10, g: 255, b: 30 });
    assert_eq!(
        slider_ends(start, Channel::Blue),
        (Rgb { r: 10, g: 20, b: 0 }, Rgb { r: 10, g: 20, b: 255 })
    );
    assert_eq!(start.set_channel(Channel::Red, 1), Rgb { r: 1, g: 20, b: 30 });
}

/// A grey has no hue of its own, so the picker keeps the one it had.
#[test]
fn the_sliders_pass_through_grey_and_keep_the_hue() {
    let mut held = hsv(200.0, 0.5, 0.5);
    follow_sliders(&mut held, hsv(0.0, 0.0, 0.3));
    assert_eq!(held, hsv(200.0, 0.0, 0.3));
    follow_sliders(&mut held, hsv(90.0, 0.2, 0.3));
    assert_eq!(held, hsv(90.0, 0.2, 0.3));
}

/// A click on a swatch takes its hue, and the first is the colour in hand.
#[test]
fn a_click_on_a_swatch_takes_its_hue() {
    let hues = vec![deg(10.0), deg(130.0), deg(250.0)];
    let mut held = hsv(10.0, 0.5, 0.5);
    assert!(!harmony_swatches(&hues, &vec![false, false, false], &mut held));
    assert_eq!(held, hsv(10.0, 0.5, 0.5));
    assert!(harmony_swatches(&hues, &vec![false, false, true], &mut held));
    assert_eq!(held, hsv(250.0, 0.5, 0.5));
    assert_eq!(taken_swatch(&vec![]), None);
    let hint = swatch_hint(1, Rgb { r: 0x12, g: 0xab, b: 0x0f });
    assert!(hint.to_uppercase().contains("12AB0F"), "{hint}");
}

/// The square picker's field sets saturation and value, and its bar the hue.
#[test]
fn the_square_picker_has_a_field_and_a_bar() {
    let (centre, half) = (pos2(100.0, 65.0), Vec2 { x: pt(100.0), y: pt(65.0) });
    let mut held = hsv(200.0, 0.5, 0.5);
    assert!(!square(&mut held, centre, half, None, None));
    assert_eq!(held, hsv(200.0, 0.5, 0.5));
    assert!(square(&mut held, centre, half, Some(pos2(150.0, 13.0)), None));
    assert_eq!(held, hsv(200.0, 0.75, 0.9));
    let rail = Rail { at: pt(50.0), left: 0, width: pt(200.0) };
    assert!(square(&mut held, centre, half, None, Some(rail)));
    assert_eq!(held, hsv(90.0, 0.75, 0.9));
}

/// The harmony wheel's ring sets the hue, and its square the rest.
#[test]
fn the_harmony_wheel_has_a_ring_and_a_square() {
    let press = |at: Pos2| Reported { at: Some(at), press_origin: Some(at), pressed: true };
    let mut colour = hsv(30.0, 0.5, 0.5);
    let mut held = None;
    let ring = on_the_ring(90.0, 0.5);
    assert!(harmony_wheel(
        &mut colour,
        &mut held,
        press(ring),
        CENTRE,
        176 * POINT,
        ring_hue(ring)
    ));
    assert_eq!(held, Some(Aim::Ring));
    assert_eq!(colour, hsv(90.0, 0.5, 0.5));
    assert!(harmony_wheel(
        &mut colour,
        &mut held,
        press(CENTRE),
        CENTRE,
        176 * POINT,
        Number::NotANumber
    ));
    assert_eq!(held, Some(Aim::Centre));
    assert_eq!(colour.h, deg(90.0));
    assert!(!harmony_wheel(
        &mut colour,
        &mut held,
        Reported::default(),
        CENTRE,
        176 * POINT,
        Number::NotANumber
    ));
    assert_eq!(held, None);
}

/// Every triangle of a mesh names corners that are there.
#[test]
fn a_mesh_names_only_its_own_corners() {
    let segments = ring_segments(OUTER);
    assert!(segments >= 3);
    let ring = ring_indices(segments);
    assert_eq!(ring.len() % 3, 0);
    let corners = ring.iter().max().expect("corners") + 1;
    assert_eq!(corners as usize, 8 * segments, "four radii at each end of each");
    let strip = strip_indices(8);
    assert_eq!(strip.len() % 3, 0);
    let shape = triangle_indices();
    assert_eq!(shape.len() % 3, 0);
    assert_eq!(&shape[..3], &[0, 1, 2]);
    let field = field_indices(8);
    assert_eq!(field.len(), 6 * 10 * 10);
    assert_eq!(*field.iter().max().expect("corners"), 11 * 11 - 1);
}

/// The wheel as a panel this wide draws it: its centre, and the hue a place about
/// it stands for.
const PANEL: f64 = 264.0;

fn panel_centre() -> Pos2 {
    let side = wheel_side(pt(PANEL));
    Pos2 { x: pt(PANEL) / 2, y: side / 2 }
}

fn panel_frame(picker: &mut Picker, held: &mut Option<Aim>, reported: Reported) {
    let centre = panel_centre();
    let at = reported.at.unwrap_or(centre);
    let (x, y) = ((at.x - centre.x) as f64, (at.y - centre.y) as f64);
    let hue = Number::Finite(deg(y.atan2(x).to_degrees()));
    let base = wheel_base(picker.shape, picker.rotate, picker.angles, picker.hsv.h);
    wheel(picker, held, reported, centre, pt(PANEL), heading(base), hue);
}

/// One gesture may move the hue, or the saturation and value, or neither, and
/// never both, wherever on the panel it begins.
#[test]
fn a_real_gesture_moves_one_control_and_not_both() {
    let mut probed = 0;
    let mut hue_gestures = 0;
    let mut sv_gestures = 0;
    for row in 0..12 {
        for column in 0..12 {
            let (x, y) = (
                (f64::from(column) + 0.5) * PANEL / 12.0,
                (f64::from(row) + 0.5) * 200.0 / 12.0,
            );
            let spot = pos2(x, y);
            let mut picker = Picker {
                shape: WheelShape::Triangle,
                rotate: true,
                mirrored: false,
                angles: WheelAngles::default(),
                hsv: hsv(210.0, 0.4, 0.6),
            };
            let before = picker.hsv;
            let mut held = None;
            let mut frames = vec![Reported {
                at: Some(spot),
                press_origin: Some(spot),
                pressed: true,
            }];
            for step in 1..=6 {
                let step = f64::from(step);
                frames.push(Reported {
                    at: Some(pos2(x + step * 7.0, y + step * 5.0)),
                    press_origin: Some(spot),
                    pressed: false,
                });
            }
            frames.push(Reported {
                at: Some(pos2(x + 42.0, y + 30.0)),
                press_origin: None,
                pressed: false,
            });
            frames.push(Reported::default());
            // A press outside the wheel's own square is not the wheel's.
            let (cx, side) = (panel_centre().x, wheel_side(pt(PANEL)));
            let on_wheel = (spot.x - cx).abs() <= side / 2 && spot.y <= side;

            let mut hue_moved = false;
            let mut sv_moved = false;
            if on_wheel {
                for reported in frames {
                    panel_frame(&mut picker, &mut held, reported);
                    hue_moved |= picker.hsv.h != before.h;
                    sv_moved |= (picker.hsv.s, picker.hsv.v) != (before.s, before.v);
                    assert!(
                        !(hue_moved && sv_moved),
                        "one gesture from {spot:?} moved both: {before:?} -> {:?}",
                        picker.hsv
                    );
                }
            }
            probed += 1;
            hue_gestures += usize::from(hue_moved);
            sv_gestures += usize::from(sv_moved);
        }
    }
    assert_eq!(probed, 144);
    assert!(hue_gestures > 0, "no gesture reached the hue ring");
    assert!(sv_gestures > 0, "no gesture reached the centre");
}

/// Some press on the wheel reads another colour with the corners swapped.
#[test]
fn swapping_white_and_black_actually_changes_the_colour_a_press_reads() {
    let click = |mirrored: bool, at: Pos2| {
        let mut picker = Picker {
            shape: WheelShape::Triangle,
            rotate: false,
            mirrored,
            angles: WheelAngles::default(),
            hsv: hsv(210.0, 0.4, 0.6),
        };
        let mut held = None;
        let press = Reported { at: Some(at), press_origin: Some(at), pressed: true };
        panel_frame(&mut picker, &mut held, press);
        let release = Reported { at: Some(at), press_origin: None, pressed: false };
        panel_frame(&mut picker, &mut held, release);
        (picker.hsv, picker.mirrored)
    };
    let mut disagreed = 0;
    for row in 0..10 {
        for column in 0..10 {
            let at = pos2(
                (f64::from(column) + 0.5) * PANEL / 10.0,
                (f64::from(row) + 0.5) * 170.0 / 10.0,
            );
            let (plain, plain_flag) = click(false, at);
            let (swapped, swapped_flag) = click(true, at);
            assert!(!plain_flag && swapped_flag, "a press moved the setting");
            if (plain.s, plain.v) != (swapped.s, swapped.v) {
                disagreed += 1;
            }
        }
    }
    assert!(disagreed > 0, "the swap changed no colour anywhere on the wheel");
}

/// Every edge of the skirt is parallel to the triangle's own and a feather
/// outside it, whichever way the triangle is turned and wound.
#[test]
fn the_triangles_skirt_is_one_feather_wide_along_every_edge() {
    let f = 1.0;
    for (degrees, mirrored) in [0.0_f64, 17.0, 45.0, 120.0, 271.0, 359.0]
        .into_iter()
        .flat_map(|d| [(d, false), (d, true)])
    {
        let (a, b, c) = triangle_corners(CENTRE, RADIUS, heading(deg(degrees)), mirrored);
        let inner = [a, b, c];
        let centroid = Pos2 {
            x: inner.iter().map(|p| p.x).sum::<i64>() / 3,
            y: inner.iter().map(|p| p.y).sum::<i64>() / 3,
        };
        let outer = inner.map(|corner| skirt_corner(corner, centroid, pt(f)));
        for (i, j) in [(0, 1), (1, 2), (2, 0)] {
            let along = |p: Pos2, q: Pos2| {
                ((q.x - p.x) as f64 / POINT as f64, (q.y - p.y) as f64 / POINT as f64)
            };
            let dir = along(inner[i], inner[j]);
            for end in [outer[i], outer[j]] {
                let d = along(inner[i], end);
                let across = (dir.0 * d.1 - dir.1 * d.0).abs() / dir.0.hypot(dir.1);
                assert!(
                    (across - f).abs() < 1e-3,
                    "edge {i}-{j} at {degrees} (mirrored {mirrored}) is feathered over {across}"
                );
            }
            assert!(
                apart(outer[i], centroid) > apart(inner[i], centroid),
                "corner {i} folded inwards (mirrored {mirrored})"
            );
        }
    }
}

/// A triangle squashed to nothing has no outward direction.
#[test]
fn a_degenerate_triangle_gets_no_skirt_rather_than_a_nan() {
    let corner = skirt_corner(CENTRE, CENTRE, pt(1.0));
    assert_eq!(corner, CENTRE);
}

#[test]
fn a_corner_goes_out_twice_as_far_as_its_edges() {
    let corner = pos2(130.0, 140.0);
    assert_eq!(skirt_corner(corner, CENTRE, pt(1.0)), pos2(131.2, 141.6));
}

/// Either centre reads back the colour it draws its marker for, however it is
/// turned.
#[test]
fn a_centre_reads_back_the_colour_it_marks() {
    for degrees in [0.0, 17.0, 45.0, 120.0, 271.0] {
        for s in [0, 1, share(0.25), share(0.5), share(0.999), WHOLE] {
            for v in [share(0.05), share(0.3), share(0.75), WHOLE] {
                let Hub::Field(centre, half, across) = hub_at(WheelShape::Square, degrees) else {
                    panic!("a square is a field");
                };
                let at = field_point(centre, half, across, s, v);
                let (back_s, back_v) = field_at(centre, half, across, at);
                assert!((back_s - s).abs() <= 3, "{degrees}: {s} came back {back_s}");
                assert!((back_v - v).abs() <= 3, "{degrees}: {v} came back {back_v}");

                let Hub::Triangle(hue, white, black) = hub_at(WheelShape::Triangle, degrees) else {
                    panic!("a triangle has corners");
                };
                let at = triangle_point(hue, white, black, s, v);
                let (back_s, back_v) = triangle_at(hue, white, black, at).expect("a triangle");
                assert!((back_v - v).abs() <= 5, "{degrees}: {v} came back {back_v}");
                assert!((back_s - s).abs() <= 50, "{degrees}: {s} came back {back_s}");
            }
        }
    }
}

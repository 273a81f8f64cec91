//! Text drawn without an interface.

use umber_app::cputext::{
    all_present, covers, glyph_run, pen_at, present_glyphs, raster_box, run_places, run_width,
    Pen, RasterBox, Stretch,
};
use umber_app::geom::{Pos2, Vec2, POINT};

/// A text face with no private-use glyphs at the start of that range.
fn face() -> Vec<u8> {
    let fonts = egui::FontDefinitions::default();
    fonts.font_data["Hack"].font.to_vec()
}

/// Including the middle dot, which is the one character here that is not plain
/// ASCII.
#[test]
fn a_face_carries_every_character_the_splash_draws() {
    let font = face();
    assert!(covers(&font, "UMBER"), "the wordmark");
    assert!(covers(&font, "GPU PAINTING · v0.1.0"), "the middle dot");
    assert!(covers(&font, "compiling shaders: dab.wgsl"), "the shader line");
    assert!(covers(&font, "D3D12 · NVIDIA GeForce RTX 4070"), "an adapter line");
}

/// Skipping a character no face carries keeps the rest of the line legible.
#[test]
fn an_unmapped_character_is_skipped_rather_than_drawn_as_a_box() {
    let font = face();
    assert!(glyph_run(&font, "\u{E000}").is_empty());
    assert!(!covers(&font, "\u{E000}"));
    assert_eq!(glyph_run(&font, "U\u{E000}M"), glyph_run(&font, "UM"));
    assert_eq!(glyph_run(&font, "UM").len(), 2);
}

/// One character is one glyph, and two characters are two different ones.
#[test]
fn each_character_has_a_glyph_of_its_own() {
    let font = face();
    let run = glyph_run(&font, "AAB");
    assert_eq!(run.len(), 3);
    assert_eq!(run[0], run[1]);
    assert_ne!(run[1], run[2]);
}

/// Bytes that are no face carry nothing and draw nothing.
#[test]
fn what_is_not_a_face_carries_nothing() {
    assert!(!covers(b"not a face", "UMBER"));
    assert!(!covers(b"not a face", ""));
    assert!(glyph_run(b"not a face", "UMBER").is_empty());
}

#[test]
fn what_is_missing_is_left_out_in_order() {
    let glyphs = vec![Some(3), None, Some(1), Some(0)];
    assert_eq!(present_glyphs(&glyphs), vec![3, 1, 0]);
    assert!(!all_present(&glyphs));
    assert!(all_present(&vec![Some(0)]));
    assert!(all_present(&vec![]));
}

/// Tracking lies between the letters, so it moves the end of a run and the
/// place of every letter but the first.
#[test]
fn tracking_moves_the_end_of_a_run_and_nothing_else() {
    let em = 64 * POINT;
    let tracking = em / 10;
    assert_eq!(run_width(&vec![em / 2], tracking), em / 2);
    assert_eq!(run_width(&vec![em / 2], 0), em / 2);
    let word = vec![400_000, 500_000, 300_000];
    assert_eq!(run_width(&word, 0), 1_200_000);
    assert_eq!(run_width(&word, 10_000), 1_220_000);
    assert_eq!(run_places(&word, 0), vec![0, 400_000, 900_000]);
    assert_eq!(run_places(&word, 10_000), vec![0, 410_000, 920_000]);
}

/// A run drawn together until nothing is left has no width, and neither has an
/// empty one.
#[test]
fn a_run_is_never_narrower_than_nothing() {
    assert_eq!(run_width(&vec![], 0), 0);
    assert_eq!(run_width(&vec![], 50_000), 0);
    assert_eq!(run_width(&vec![], -50_000), 0);
    assert_eq!(run_width(&vec![20_000], -50_000), 20_000);
    assert_eq!(run_width(&vec![10_000, 10_000], -100_000), 0);
}

#[test]
fn a_run_is_rasterised_into_a_box_with_room_round_it() {
    let at = Pos2 { x: 100 * POINT, y: 50 * POINT };
    let boxed = raster_box(1_205_000, 20 * POINT, at);
    assert_eq!(
        boxed,
        RasterBox {
            width: 161,
            height: 50,
            pad: 20 * POINT,
            baseline: 36 * POINT,
            left: 80,
            top: 14,
        }
    );
    let speck = raster_box(0, 0, Pos2 { x: -5_000, y: -5_000 });
    assert_eq!((speck.width, speck.height), (1, 1));
    assert_eq!((speck.left, speck.top), (-1, -1));
}

/// Outlines are measured upwards, and one that strays is held to the edge.
#[test]
fn an_outline_is_turned_over_and_kept_inside() {
    let boxed = raster_box(100 * POINT, 20 * POINT, Pos2 { x: 0, y: 0 });
    assert_eq!(
        pen_at(boxed, 30 * POINT, Vec2 { x: 2 * POINT, y: 5 * POINT }),
        Pos2 { x: 52 * POINT, y: 31 * POINT },
    );
    assert_eq!(
        pen_at(boxed, 30 * POINT, Vec2 { x: 500 * POINT, y: 500 * POINT }),
        Pos2 { x: 140 * POINT, y: 0 },
    );
    assert_eq!(
        pen_at(boxed, 0, Vec2 { x: -500 * POINT, y: -500 * POINT }),
        Pos2 { x: 0, y: 50 * POINT },
    );
}

/// A contour is joined up all the way round, and closing it draws the last side.
#[test]
fn a_closed_contour_ends_where_it_began() {
    let corner = |x: i64, y: i64| Pos2 { x: x * POINT, y: y * POINT };
    let mut pen = Pen { last: corner(9, 9), start: corner(9, 9) };
    pen.move_to(corner(0, 0));
    assert_eq!(pen.line_to(corner(4, 0)), Stretch::Line(corner(0, 0), corner(4, 0)));
    assert_eq!(
        pen.quad_to(corner(6, 2), corner(4, 4)),
        Stretch::Quad(corner(4, 0), corner(6, 2), corner(4, 4)),
    );
    assert_eq!(
        pen.curve_to(corner(3, 5), corner(1, 5), corner(0, 4)),
        Stretch::Cubic(corner(4, 4), corner(3, 5), corner(1, 5), corner(0, 4)),
    );
    assert_eq!(pen.close(), Stretch::Line(corner(0, 4), corner(0, 0)));
    assert_eq!(pen, Pen { last: corner(0, 0), start: corner(0, 0) });
}

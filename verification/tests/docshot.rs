//! The pictures of the interface the documentation is illustrated with.

use umber_app::colorpicker::mode::{PickerMode, WheelShape};
use umber_app::colour::Rgb;
use umber_app::docshot::{
    banner, banner_extent, banners, generic_config_path, interface, keeps_frame, layers_scene,
    padded_row, panel_shot,
    picker_shot, pixels, read_back, settings_shot, Image, Subject, BANNER_SCALE, MAX_FRAMES, MIN_FRAMES, PANEL_SCALE, PICKER_HEIGHT, SETTINGS_HEIGHT, SETTINGS_SCALE,
    SETTINGS_WIDTH,
};
use umber_app::dock::kind::PanelKind;
use umber_app::editor::state::{SettingsTab, ThemeKind};
use umber_app::geom::{Vec2, POINT};
use umber_app::metrics;

/// The dialog is 1000 wide and takes what there is less 48, so the field is
/// exactly that much wider.
#[test]
fn the_settings_field_holds_the_dialog_at_full_size() {
    let shot = settings_shot(SettingsTab::Themes, "themes.png");
    assert_eq!(shot.field, Vec2 { x: 1048 * POINT, y: 688 * POINT });
    assert_eq!(SETTINGS_WIDTH, 1048 * POINT);
    assert_eq!(SETTINGS_HEIGHT, 688 * POINT);
}

/// Every picture is a whole number of device pixels, so nothing lands on a
/// half-pixel and comes back blurred.
#[test]
fn every_field_is_a_whole_number_of_pixels() {
    let settings = settings_shot(SettingsTab::Themes, "themes.png");
    let picker = picker_shot(PickerMode::Wheel, WheelShape::Triangle, "wheel.png");
    assert_eq!(settings.scale, SETTINGS_SCALE);
    assert_eq!(picker.scale, PANEL_SCALE);
    assert_eq!(picker.field.y, PICKER_HEIGHT);
    for (size, scale) in [(settings.field, settings.scale), (picker.field, picker.scale)] {
        for edge in [size.x, size.y] {
            let px = edge * scale;
            assert_eq!(px % (POINT * POINT), 0, "{edge} is {px} pixels");
        }
    }
}

/// The trim is the only thing deciding how tall a picker picture is, so it has
/// to find the content and it has to stop at the margin.
#[test]
fn trimming_cuts_back_to_the_last_thing_drawn() {
    let bg = Rgb { r: 1, g: 2, b: 3 };
    let ink = Rgb { r: 9, g: 9, b: 9 };
    let (w, h) = (4u32, 20u32);
    let mut rgb = Vec::new();
    for y in 0..h {
        for _ in 0..w {
            let c = if y == 5 { ink } else { bg };
            rgb.extend_from_slice(&[c.r, c.g, c.b]);
        }
    }
    let image = Image { width: w, height: h, rgb }.trim(bg, 3);
    assert_eq!(image.height, 9, "last ink row is 5, plus a margin of 3");
    assert_eq!(image.rgb.len(), (9 * w * 3) as usize);
}

/// A field with nothing in it must not truncate to nothing.
#[test]
fn trimming_an_empty_field_leaves_it_alone() {
    let bg = Rgb { r: 1, g: 2, b: 3 };
    let (w, h) = (4u32, 6u32);
    let rgb = std::iter::repeat([bg.r, bg.g, bg.b]).take((w * h) as usize).flatten().collect();
    let image = Image { width: w, height: h, rgb }.trim(bg, 3);
    assert_eq!(image.height, h);
}

/// A margin past the foot of the picture adds nothing.
#[test]
fn trimming_never_grows_a_picture() {
    let bg = Rgb { r: 0, g: 0, b: 0 };
    let image = Image { width: 1, height: 2, rgb: vec![0, 0, 0, 5, 5, 5] }.trim(bg, 24);
    assert_eq!(image.height, 2);
    assert_eq!(image.rgb, vec![0, 0, 0, 5, 5, 5]);
}

#[test]
fn every_picture_has_a_file_of_its_own() {
    let shots = interface();
    assert_eq!(shots.len(), 8);
    for (i, shot) in shots.iter().enumerate() {
        assert!(shot.file.ends_with(".png"), "{}", shot.file);
        assert!(
            shots.iter().skip(i + 1).all(|other| other.file != shot.file),
            "{} twice",
            shot.file
        );
    }
    assert!(shots.iter().any(|s| matches!(s.subject, Subject::Settings(SettingsTab::Shortcuts))));
    let panel = panel_shot(PanelKind::Layers, 300 * POINT, "layers.png");
    assert_eq!(panel.field, Vec2 { x: metrics::PANEL, y: 300 * POINT });
    assert!(panel.trimmed, "down to what it draws");
    assert_eq!(generic_config_path(), "%APPDATA%\\Umber\\config\\preferences.conf");
}

/// A picture is taken once the interface has settled: never on the first frames,
/// and never later than the last it is given.
#[test]
fn a_picture_waits_for_the_interface_to_settle() {
    assert!(!keeps_frame(0, true), "the first of two");
    assert!(keeps_frame(MIN_FRAMES - 1, true));
    assert!(!keeps_frame(MIN_FRAMES - 1, false));
    assert!(!keeps_frame(MAX_FRAMES - 2, false));
    assert!(keeps_frame(MAX_FRAMES - 1, false), "the last there is");
}

#[test]
fn a_length_becomes_whole_pixels() {
    assert_eq!(pixels(264 * POINT, PANEL_SCALE), 528);
    assert_eq!(pixels(1048 * POINT, SETTINGS_SCALE), 1572);
    // Two group heights of margin across, and two and two fifths of it tall.
    assert_eq!(banner_extent(Vec2 { x: 10 * POINT, y: 5 * POINT }), (20, 12));
    assert_eq!(BANNER_SCALE, 3 * POINT);
}

/// A row on the device is padded to the alignment, and reading back takes the
/// padding and the alpha off again.
#[test]
fn reading_back_drops_the_padding_and_the_alpha() {
    assert_eq!(padded_row(1, 256), 256);
    assert_eq!(padded_row(64, 256), 256);
    assert_eq!(padded_row(65, 256), 512);
    let padded = padded_row(1, 8);
    assert_eq!(padded, 8);
    let mapped = [1u8, 2, 3, 255, 0, 0, 0, 0, 4, 5, 6, 255, 0, 0, 0, 0];
    let image = read_back(&mapped, 1, 2, padded);
    assert_eq!((image.width, image.height), (1, 2));
    assert_eq!(image.rgb, vec![1, 2, 3, 4, 5, 6]);
    assert_eq!(image.pixel(0, 1), Rgb { r: 4, g: 5, b: 6 });
}

/// The banner is painted as packed colours, and comes out as three channels.
#[test]
fn a_banner_is_unpacked_channel_by_channel() {
    let image = banner(&vec![0x00_12_34_56, 0x00_ff_00_01], 2, 1);
    assert_eq!(image.rgb, vec![0x12, 0x34, 0x56, 0xff, 0x00, 0x01]);
}

/// What is written is a picture any reader opens, with the same pixels in it.
#[test]
fn an_encoded_picture_reads_back_as_itself() {
    let image = Image { width: 2, height: 1, rgb: vec![1, 2, 3, 250, 251, 252] };
    let file = image.encode().expect("encodes");
    let decoder = png::Decoder::new(std::io::Cursor::new(&file));
    let mut reader = decoder.read_info().expect("a header");
    let mut buf = vec![0; reader.output_buffer_size().expect("a size")];
    let info = reader.next_frame(&mut buf).expect("a frame");
    assert_eq!((info.width, info.height), (2, 1));
    assert_eq!(info.color_type, png::ColorType::Rgb);
    assert_eq!(&buf[..info.buffer_size()], &[1, 2, 3, 250, 251, 252]);
    let text = &reader.info().uncompressed_latin1_text;
    assert!(text.iter().any(|t| t.keyword == "Software" && t.text == "Umber"));
    assert!(text.iter().any(|t| t.keyword == "Comment"));
}

/// A page can follow its reader's theme, so there is a banner for each.
#[test]
fn there_is_a_banner_for_either_theme() {
    assert_eq!(
        banners(),
        vec![(ThemeKind::Graphite, "banner.png"), (ThemeKind::Paper, "banner-paper.png")],
    );
}

/// The Layers picture shows a folder, what is in it, and a link.
#[test]
fn the_layers_picture_has_a_folder_and_a_link() {
    let (layers, active) = layers_scene();
    let names: Vec<&str> = layers.iter().map(|l| l.name).collect();
    assert_eq!(names, ["Background", "Flats", "Line", "Shading", "Ink"]);
    assert_eq!(layers.iter().position(|l| l.folder), Some(4));
    let within: Vec<Option<usize>> = layers.iter().map(|l| l.within).collect();
    assert_eq!(within, [None, None, Some(4), Some(4), None]);
    let linked: Vec<bool> = layers.iter().map(|l| l.linked).collect();
    assert_eq!(linked, [true, true, false, false, false]);
    assert_eq!(active, 2);
}

//! The pictures of the interface that its documentation shows: what is drawn,
//! how big, when a frame is worth keeping, and the bytes a picture is made of.

use crate::colorpicker::mode::{PickerMode, WheelShape};
use crate::colour::Rgb;
use crate::dock::kind::PanelKind;
use crate::editor::state::{SettingsTab, ThemeKind};
use crate::geom::{clamp_of, within_reach, Vec2, REACH};
use crate::metrics::PANEL;
use crate::picture::{encode_png, png_encoded, Effort, Remark};
use vstd::prelude::*;

verus! {

/// Device pixels per point of a docked panel, of the settings dialog and of the
/// banner, in ten-thousandths.
pub const PANEL_SCALE: i64 = 20_000;

pub const SETTINGS_SCALE: i64 = 15_000;

pub const BANNER_SCALE: i64 = 30_000;

/// Frames run before a picture is worth keeping, and the most that are waited
/// for.
pub const MIN_FRAMES: usize = 2;

pub const MAX_FRAMES: usize = 90;

/// The settings dialog at full size, with an even margin around it.
pub const SETTINGS_WIDTH: i64 = 10_480_000;

pub const SETTINGS_HEIGHT: i64 = 6_880_000;

/// More height than any picker needs; what is left over is trimmed off.
pub const PICKER_HEIGHT: i64 = 4_000_000;

/// Device pixels left under the last thing a panel draws: the panel's own
/// padding.
pub const TRIM_MARGIN: u32 = 24;

/// What the settings footer says instead of this machine's own path.
pub fn generic_config_path() -> (r: &'static str)
    ensures
        r@ == "%APPDATA%\\Umber\\config\\preferences.conf"@,
{
    "%APPDATA%\\Umber\\config\\preferences.conf"
}

// --- what is drawn ------------------------------------------------------------------

#[derive(Clone, Copy, Debug, PartialEq, Eq, Structural)]
pub enum Subject {
    Settings(SettingsTab),
    /// The Colour module, in one of its modes.
    Picker(PickerMode, WheelShape),
    /// A docked module.
    Panel(PanelKind),
}

/// One picture: what it shows, the room it is drawn in, how many device pixels a
/// point is, whether it is cut back to what was drawn, and its file.
#[derive(Clone, Copy, Debug, PartialEq, Eq)]
pub struct Shot {
    pub subject: Subject,
    pub field: Vec2,
    pub scale: i64,
    pub trimmed: bool,
    pub file: &'static str,
}

pub open spec fn settings_shown(tab: SettingsTab, file: &'static str) -> Shot {
    Shot {
        subject: Subject::Settings(tab),
        field: Vec2 { x: SETTINGS_WIDTH, y: SETTINGS_HEIGHT },
        scale: SETTINGS_SCALE,
        trimmed: false,
        file,
    }
}

pub open spec fn picker_shown(mode: PickerMode, shape: WheelShape, file: &'static str) -> Shot {
    Shot {
        subject: Subject::Picker(mode, shape),
        field: Vec2 { x: PANEL, y: PICKER_HEIGHT },
        scale: PANEL_SCALE,
        trimmed: true,
        file,
    }
}

pub open spec fn panel_shown(kind: PanelKind, height: i64, file: &'static str) -> Shot {
    Shot {
        subject: Subject::Panel(kind),
        field: Vec2 { x: PANEL, y: height },
        scale: PANEL_SCALE,
        trimmed: true,
        file,
    }
}

pub fn settings_shot(tab: SettingsTab, file: &'static str) -> (r: Shot)
    ensures
        r == settings_shown(tab, file),
{
    Shot {
        subject: Subject::Settings(tab),
        field: Vec2 { x: SETTINGS_WIDTH, y: SETTINGS_HEIGHT },
        scale: SETTINGS_SCALE,
        trimmed: false,
        file,
    }
}

pub fn picker_shot(mode: PickerMode, shape: WheelShape, file: &'static str) -> (r: Shot)
    ensures
        r == picker_shown(mode, shape, file),
{
    Shot {
        subject: Subject::Picker(mode, shape),
        field: Vec2 { x: PANEL, y: PICKER_HEIGHT },
        scale: PANEL_SCALE,
        trimmed: true,
        file,
    }
}

pub fn panel_shot(kind: PanelKind, height: i64, file: &'static str) -> (r: Shot)
    ensures
        r == panel_shown(kind, height, file),
{
    Shot {
        subject: Subject::Panel(kind),
        field: Vec2 { x: PANEL, y: height },
        scale: PANEL_SCALE,
        trimmed: true,
        file,
    }
}

pub open spec fn interface_shown() -> Seq<Shot> {
    seq![
        settings_shown(SettingsTab::Themes, "settings-themes.png"),
        settings_shown(SettingsTab::Shortcuts, "settings-shortcuts.png"),
        picker_shown(PickerMode::Wheel, WheelShape::Triangle, "picker-wheel.png"),
        picker_shown(PickerMode::Wheel, WheelShape::Square, "picker-wheel-square.png"),
        picker_shown(PickerMode::Square, WheelShape::Triangle, "picker-square.png"),
        picker_shown(PickerMode::Sliders, WheelShape::Triangle, "picker-sliders.png"),
        panel_shown(PanelKind::Brushes, 4_600_000, "brushes.png"),
        panel_shown(PanelKind::Layers, 3_200_000, "layers.png"),
    ]
}

/// Every picture that needs the interface, in the order they are drawn.
pub fn interface() -> (r: Vec<Shot>)
    ensures
        r@ == interface_shown(),
{
    let mut out: Vec<Shot> = Vec::new();
    out.push(settings_shot(SettingsTab::Themes, "settings-themes.png"));
    out.push(settings_shot(SettingsTab::Shortcuts, "settings-shortcuts.png"));
    out.push(picker_shot(PickerMode::Wheel, WheelShape::Triangle, "picker-wheel.png"));
    out.push(picker_shot(PickerMode::Wheel, WheelShape::Square, "picker-wheel-square.png"));
    out.push(picker_shot(PickerMode::Square, WheelShape::Triangle, "picker-square.png"));
    out.push(picker_shot(PickerMode::Sliders, WheelShape::Triangle, "picker-sliders.png"));
    out.push(panel_shot(PanelKind::Brushes, 4_600_000, "brushes.png"));
    out.push(panel_shot(PanelKind::Layers, 3_200_000, "layers.png"));
    assert(out@ =~= interface_shown());
    out
}

/// The banners, which need no device. One sits on the page's own background
/// rather than inside the application, so there is one for either theme.
pub fn banners() -> (r: Vec<(ThemeKind, &'static str)>)
    ensures
        r@ == seq![
            (ThemeKind::Graphite, "banner.png"),
            (ThemeKind::Paper, "banner-paper.png"),
        ],
{
    let mut out: Vec<(ThemeKind, &'static str)> = Vec::new();
    out.push((ThemeKind::Graphite, "banner.png"));
    out.push((ThemeKind::Paper, "banner-paper.png"));
    assert(out@ =~= seq![
        (ThemeKind::Graphite, "banner.png"),
        (ThemeKind::Paper, "banner-paper.png"),
    ]);
    out
}

// --- frames -------------------------------------------------------------------------

/// Whether the frames stop here: the interface has come to rest and enough have
/// been run, or no more are waited for.
pub fn keeps_frame(frame: usize, settled: bool) -> (r: bool)
    requires
        frame < MAX_FRAMES,
    ensures
        r == ((frame + 1 >= MIN_FRAMES && settled) || frame + 1 == MAX_FRAMES),
{
    (frame + 1 >= MIN_FRAMES && settled) || frame + 1 == MAX_FRAMES
}

/// How many device pixels a length comes to: the nearest whole number, and never
/// none.
pub open spec fn pixels_of(length: int, scale: int) -> int {
    clamp_of((length * scale + 50_000_000) / 100_000_000, 1, u32::MAX as int)
}

pub fn pixels(length: i64, scale: i64) -> (r: u32)
    requires
        within_reach(length as int),
        0 <= scale <= REACH,
    ensures
        r == pixels_of(length as int, scale as int),
{
    proof {
        let (n, s, q) = (length as int, scale as int, 1_000_000_000_000_000int);
        assert(-(q * q) <= n * s <= q * q) by (nonlinear_arith)
            requires
                -q <= n <= q,
                0 <= s <= q,
        ;
    }
    let exact: i128 = (length as i128) * (scale as i128) + 50_000_000;
    if exact < 0 {
        assert(exact as int / 100_000_000 < 1);
        return 1;
    }
    let whole: i128 = exact / 100_000_000;
    if whole < 1 {
        1
    } else if whole > u32::MAX as i128 {
        u32::MAX
    } else {
        whole as u32
    }
}

// --- bytes --------------------------------------------------------------------------

/// One finished picture, three bytes a pixel, row by row.
#[derive(Debug)]
pub struct Image {
    pub width: u32,
    pub height: u32,
    pub rgb: Vec<u8>,
}

/// How many bytes come before a pixel of a picture this wide.
pub open spec fn offset_of(width: int, x: int, y: int) -> int {
    (y * width + x) * 3
}

proof fn lemma_offset(width: int, height: int, x: int, y: int)
    requires
        0 <= x < width,
        0 <= y < height,
    ensures
        0 <= offset_of(width, x, y) <= width * height * 3 - 3,
        0 <= y * width,
        y * width + x < width * height,
{
    assert(0 <= y * width && y * width + width <= height * width) by (nonlinear_arith)
        requires
            0 <= y < height,
            0 <= width,
    ;
    assert(height * width == width * height) by (nonlinear_arith);
}

impl Image {
    pub open spec fn sound(self) -> bool {
        &&& self.rgb@.len() == self.width * self.height * 3
        &&& self.rgb@.len() <= u32::MAX
    }

    pub open spec fn at(self, x: int, y: int) -> Rgb {
        let i = offset_of(self.width as int, x, y);
        Rgb { r: self.rgb@[i], g: self.rgb@[i + 1], b: self.rgb@[i + 2] }
    }

    pub fn pixel(&self, x: u32, y: u32) -> (r: Rgb)
        requires
            self.sound(),
            x < self.width,
            y < self.height,
        ensures
            r == self.at(x as int, y as int),
    {
        proof {
            lemma_offset(self.width as int, self.height as int, x as int, y as int);
        }
        let i: usize = ((y * self.width + x) * 3) as usize;
        Rgb { r: self.rgb[i], g: self.rgb[i + 1], b: self.rgb[i + 2] }
    }

    /// Whether a row holds nothing but the background.
    pub open spec fn bare(self, y: int, background: Rgb) -> bool {
        forall|x: int| 0 <= x < self.width ==> (#[trigger] self.at(x, y)) == background
    }

    /// How many of the first `rows` rows there are down to the last that is not
    /// bare; none where every one of them is.
    pub open spec fn drawn_within(self, rows: int, background: Rgb) -> int
        decreases rows,
    {
        if rows <= 0 {
            0
        } else if !self.bare(rows - 1, background) {
            rows
        } else {
            self.drawn_within(rows - 1, background)
        }
    }

    pub open spec fn drawn(self, background: Rgb) -> int {
        self.drawn_within(self.height as int, background)
    }

    fn is_bare(&self, y: u32, background: Rgb) -> (r: bool)
        requires
            self.sound(),
            y < self.height,
        ensures
            r == self.bare(y as int, background),
    {
        let mut x: u32 = 0;
        while x < self.width
            invariant
                x <= self.width,
                self.sound(),
                y < self.height,
                forall|j: int| 0 <= j < x ==> (#[trigger] self.at(j, y as int)) == background,
            decreases self.width - x,
        {
            let here = self.pixel(x, y);
            if here != background {
                assert(self.at(x as int, y as int) != background);
                return false;
            }
            x += 1;
        }
        true
    }

    fn count_drawn(&self, background: Rgb) -> (r: u32)
        requires
            self.sound(),
        ensures
            r == self.drawn(background),
            r <= self.height,
    {
        let mut rows: u32 = self.height;
        while rows > 0
            invariant
                rows <= self.height,
                self.sound(),
                self.drawn_within(rows as int, background) == self.drawn(background),
            decreases rows,
        {
            if !self.is_bare(rows - 1, background) {
                return rows;
            }
            rows -= 1;
        }
        0
    }

    /// Cut the picture back to the last row that is not pure background, leaving
    /// `margin` device pixels under it. A picture of nothing is left alone.
    pub fn trim(self, background: Rgb, margin: u32) -> (r: Image)
        requires
            self.sound(),
            self.height + margin <= u32::MAX,
        ensures
            r.sound(),
            r.width == self.width,
            r.height == (if self.drawn(background) == 0 {
                self.height as int
            } else if self.drawn(background) + margin < self.height {
                self.drawn(background) + margin
            } else {
                self.height as int
            }),
            r.rgb@ == self.rgb@.take(r.width * r.height * 3),
    {
        let drawn: u32 = self.count_drawn(background);
        if drawn == 0 || drawn + margin >= self.height {
            assert(self.rgb@.take(self.width * self.height * 3) =~= self.rgb@);
            return self;
        }
        let height: u32 = drawn + margin;
        assert(0 <= height * self.width * 3 <= self.width * self.height * 3) by (nonlinear_arith)
            requires
                0 <= height <= self.height,
                0 <= self.width,
        ;
        assert(height * self.width * 3 == self.width * height * 3) by (nonlinear_arith);
        assert(0 <= height * self.width <= height * self.width * 3) by (nonlinear_arith)
            requires
                0 <= height,
                0 <= self.width,
        ;
        let mut image = self;
        image.rgb.truncate((height * image.width * 3) as usize);
        image.height = height;
        image
    }

    /// The picture in a PNG's bytes, or why there is none.
    pub fn encode(&self) -> (r: Result<Vec<u8>, String>)
        requires
            self.sound(),
        ensures
            match r {
                Ok(file) => self.encoded() == Ok::<Seq<u8>, Seq<char>>(file@),
                Err(why) => self.encoded() == Err::<Seq<u8>, Seq<char>>(why@),
            },
    {
        encode_png(
            self.width,
            self.height,
            self.rgb.as_slice(),
            Effort::High,
            Remark { keyword: "Software".to_owned(), text: "Umber".to_owned() },
            Remark {
                keyword: "Comment".to_owned(),
                text: "Generated from Umber's own interface code; do not edit. cargo run -p umber-app --example docs-images".to_owned(),
            },
        )
    }

    /// The file says in itself where it comes from, under the keywords a PNG has
    /// for a program and for a remark.
    pub open spec fn encoded(self) -> Result<Seq<u8>, Seq<char>> {
        png_encoded(
            self.width,
            self.height,
            self.rgb@,
            Effort::High,
            ("Software"@, "Umber"@),
            (
                "Comment"@,
                "Generated from Umber's own interface code; do not edit. cargo run -p umber-app --example docs-images"@,
            ),
        )
    }
}

/// One entry of the stack the Layers picture shows, counted from the bottom.
#[derive(Clone, Copy, Debug)]
pub struct SceneLayer {
    pub name: &'static str,
    pub folder: bool,
    /// The folder it is in, by its place in the stack.
    pub within: Option<usize>,
    /// Whether it is one of the group that moves together.
    pub linked: bool,
}

/// The stack the Layers picture shows, and which entry is selected: a folder over
/// the two it holds, so that a row that folds and the rows stepped in beneath it
/// are both there, and a link between the two outside it, which puts a coloured
/// chain on a row.
pub fn layers_scene() -> (r: (Vec<SceneLayer>, usize))
    ensures
        r.0@ == seq![
            (SceneLayer { name: "Background", folder: false, within: None, linked: true }),
            (SceneLayer { name: "Flats", folder: false, within: None, linked: true }),
            (SceneLayer { name: "Line", folder: false, within: Some(4), linked: false }),
            (SceneLayer { name: "Shading", folder: false, within: Some(4), linked: false }),
            (SceneLayer { name: "Ink", folder: true, within: None, linked: false }),
        ],
        r.1 == 2,
{
    let stack = vec![
        SceneLayer { name: "Background", folder: false, within: None, linked: true },
        SceneLayer { name: "Flats", folder: false, within: None, linked: true },
        SceneLayer { name: "Line", folder: false, within: Some(4), linked: false },
        SceneLayer { name: "Shading", folder: false, within: Some(4), linked: false },
        SceneLayer { name: "Ink", folder: true, within: None, linked: false },
    ];
    (stack, 2)
}

/// The rows of a trimmed picture are bare from the last thing drawn on, and the
/// last thing drawn is still in it.
pub proof fn trimming_loses_nothing_that_was_drawn(image: Image, background: Rgb, y: int)
    requires
        0 <= y < image.height,
    ensures
        0 <= image.drawn(background) <= image.height,
        y >= image.drawn(background) ==> image.bare(y, background),
        image.drawn(background) > 0 ==> !image.bare(image.drawn(background) - 1, background),
{
    lemma_drawn(image, background, image.height as int);
}

proof fn lemma_drawn(image: Image, background: Rgb, rows: int)
    requires
        0 <= rows,
    ensures
        0 <= image.drawn_within(rows, background) <= rows,
        forall|y: int|
            image.drawn_within(rows, background) <= y < rows ==> #[trigger] image.bare(
                y,
                background,
            ),
        image.drawn_within(rows, background) > 0 ==> !image.bare(
            image.drawn_within(rows, background) - 1,
            background,
        ),
    decreases rows,
{
    if rows > 0 && image.bare(rows - 1, background) {
        lemma_drawn(image, background, rows - 1);
    }
}

// --- the banner ---------------------------------------------------------------------

/// How big the banner is for a row of the mark and the wordmark: as wide as the
/// row and twice its height, and 2.4 times its height.
pub open spec fn banner_size(row: Vec2) -> (int, int) {
    (pixels_of(row.x + 2 * row.y, 10_000), pixels_of(row.y * 12 / 5, 10_000))
}

pub fn banner_extent(row: Vec2) -> (r: (u32, u32))
    requires
        0 <= row.x <= REACH / 8,
        0 <= row.y <= REACH / 8,
    ensures
        r.0 == banner_size(row).0,
        r.1 == banner_size(row).1,
{
    (pixels(row.x + 2 * row.y, 10_000), pixels(row.y * 12 / 5, 10_000))
}

/// A pixel packed as `0RGB`.
pub open spec fn packed_rgb(p: u32) -> Rgb {
    Rgb {
        r: (p as int / 65_536 % 256) as u8,
        g: (p as int / 256 % 256) as u8,
        b: (p as int % 256) as u8,
    }
}

fn unpack(p: u32) -> (r: Rgb)
    ensures
        r == packed_rgb(p),
{
    Rgb { r: (p / 65_536 % 256) as u8, g: (p / 256 % 256) as u8, b: (p % 256) as u8 }
}

fn push_rgb(out: &mut Vec<u8>, c: Rgb)
    ensures
        final(out)@ == old(out)@ + seq![c.r, c.g, c.b],
{
    out.push(c.r);
    out.push(c.g);
    out.push(c.b);
    assert(out@ =~= old(out)@ + seq![c.r, c.g, c.b]);
}

/// Pixel `k` of a run of them, three bytes each.
spec fn rgb_at(rgb: Seq<u8>, k: int) -> Rgb {
    Rgb { r: rgb[3 * k], g: rgb[3 * k + 1], b: rgb[3 * k + 2] }
}

/// The banner as a picture, from its packed pixels.
pub fn banner(packed: &Vec<u32>, width: u32, height: u32) -> (r: Image)
    requires
        packed@.len() == width * height,
        width * height * 3 <= u32::MAX,
    ensures
        r.sound(),
        r.width == width,
        r.height == height,
        forall|x: int, y: int|
            0 <= x < width && 0 <= y < height ==> #[trigger] r.at(x, y) == packed_rgb(
                packed@[y * width + x],
            ),
{
    let mut rgb: Vec<u8> = Vec::new();
    let mut i: usize = 0;
    while i < packed.len()
        invariant
            i <= packed@.len(),
            rgb@.len() == 3 * i,
            forall|k: int| 0 <= k < i ==> #[trigger] rgb_at(rgb@, k) == packed_rgb(packed@[k]),
        decreases packed@.len() - i,
    {
        let ghost before = rgb@;
        let c = unpack(packed[i]);
        push_rgb(&mut rgb, c);
        assert(rgb_at(rgb@, i as int) == packed_rgb(packed@[i as int]));
        assert forall|k: int| 0 <= k < i implies #[trigger] rgb_at(rgb@, k) == packed_rgb(
            packed@[k],
        ) by {
            assert(rgb_at(rgb@, k) == rgb_at(before, k));
        }
        i += 1;
    }
    let image = Image { width, height, rgb };
    assert forall|x: int, y: int| 0 <= x < width && 0 <= y < height implies #[trigger] image.at(x, y)
        == packed_rgb(packed@[y * width + x]) by {
        lemma_offset(width as int, height as int, x, y);
        assert(rgb_at(image.rgb@, y * width + x) == packed_rgb(packed@[y * width + x]));
    }
    image
}

// --- reading back ---------------------------------------------------------------------

/// The bytes a row of four-byte pixels takes, rounded up to the alignment rows
/// are copied at.
pub open spec fn row_bytes(width: int, align: int) -> int {
    (width * 4 + align - 1) / align * align
}

pub fn padded_row(width: u32, align: u32) -> (r: u32)
    requires
        0 < align,
        width * 4 + align - 1 <= u32::MAX,
    ensures
        r == row_bytes(width as int, align as int),
        r % align == 0,
        width * 4 <= r < width * 4 + align,
{
    let up: u32 = (width * 4 + (align - 1)) / align;
    proof {
        let (n, a, q) = (width * 4 + align - 1, align as int, up as int);
        assert(n - a < q * a <= n) by (nonlinear_arith)
            requires
                a > 0,
                q == n / a,
        ;
        vstd::arithmetic::div_mod::lemma_mod_multiples_basic(q, a);
    }
    up * align
}

/// Take a picture out of rows of four-byte pixels, each row padded, leaving the
/// fourth byte of every pixel behind.
pub fn read_back(mapped: &[u8], width: u32, height: u32, padded: u32) -> (r: Image)
    requires
        width * 4 <= padded,
        padded * height <= mapped@.len(),
        padded * height <= u32::MAX,
    ensures
        r.sound(),
        r.width == width,
        r.height == height,
        forall|x: int, y: int|
            0 <= x < width && 0 <= y < height ==> {
                let i = y * padded + x * 4;
                #[trigger] r.at(x, y) == (Rgb { r: mapped@[i], g: mapped@[i + 1], b: mapped@[i + 2] })
            },
{
    assert(width * height * 3 <= padded * height) by (nonlinear_arith)
        requires
            0 <= height,
            0 <= width,
            width * 4 <= padded,
    ;
    let mut rgb: Vec<u8> = Vec::new();
    let mut y: u32 = 0;
    assert(0 * width == 0);
    while y < height
        invariant
            y <= height,
            width * 4 <= padded,
            padded * height <= mapped@.len(),
            padded * height <= u32::MAX,
            rgb@.len() == y * width * 3,
            forall|v: int, u: int|
                0 <= u < width && 0 <= v < y ==> #[trigger] same_pixel(
                    rgb@,
                    offset_of(width as int, u, v),
                    mapped@,
                    v * padded + u * 4,
                ),
        decreases height - y,
    {
        assert(0 <= y * padded && y * padded + padded <= padded * height) by (nonlinear_arith)
            requires
                0 <= y < height,
                0 <= padded,
        ;
        let row: usize = (y * padded) as usize;
        let mut x: u32 = 0;
        while x < width
            invariant
                x <= width,
                y < height,
                width * 4 <= padded,
                row == y * padded,
                row + padded <= mapped@.len(),
                row + padded <= u32::MAX,
                rgb@.len() == (y * width + x) * 3,
                forall|v: int, u: int|
                    0 <= u < width && 0 <= v && (v < y || v == y && u < x)
                        ==> #[trigger] same_pixel(
                        rgb@,
                        offset_of(width as int, u, v),
                        mapped@,
                        v * padded + u * 4,
                    ),
            decreases width - x,
        {
            let i: usize = row + (x * 4) as usize;
            let ghost before = rgb@;
            push_rgb(&mut rgb, Rgb { r: mapped[i], g: mapped[i + 1], b: mapped[i + 2] });
            assert forall|v: int, u: int|
                0 <= u < width && 0 <= v && (v < y || v == y && u < x + 1) implies #[trigger] same_pixel(
                rgb@,
                offset_of(width as int, u, v),
                mapped@,
                v * padded + u * 4,
            ) by {
                if v == y && u == x {
                } else {
                    assert(same_pixel(
                        before,
                        offset_of(width as int, u, v),
                        mapped@,
                        v * padded + u * 4,
                    ));
                    lemma_earlier(width as int, u, v, x as int, y as int);
                }
            }
            x += 1;
        }
        assert((y + 1) * width * 3 == (y * width + width) * 3) by (nonlinear_arith);
        y += 1;
    }
    assert(height * width * 3 == width * height * 3) by (nonlinear_arith);
    let image = Image { width, height, rgb };
    assert forall|x: int, y: int| 0 <= x < width && 0 <= y < height implies {
        let i = y * padded + x * 4;
        #[trigger] image.at(x, y) == (Rgb { r: mapped@[i], g: mapped@[i + 1], b: mapped@[i + 2] })
    } by {
        assert(same_pixel(
            image.rgb@,
            offset_of(width as int, x, y),
            mapped@,
            y * padded + x * 4,
        ));
    }
    image
}

/// Whether three bytes at one place are the three at another.
pub open spec fn same_pixel(a: Seq<u8>, i: int, b: Seq<u8>, j: int) -> bool {
    a[i] == b[j] && a[i + 1] == b[j + 1] && a[i + 2] == b[j + 2]
}

proof fn lemma_earlier(width: int, u: int, v: int, x: int, y: int)
    requires
        0 <= u < width,
        0 <= x < width,
        0 <= v,
        v < y || v == y && u < x,
    ensures
        0 <= offset_of(width, u, v),
        offset_of(width, u, v) + 3 <= offset_of(width, x, y),
{
    assert(0 <= v * width) by (nonlinear_arith)
        requires
            0 <= v,
            0 <= width,
    ;
    if v < y {
        assert(v * width + width <= y * width) by (nonlinear_arith)
            requires
                v + 1 <= y,
                0 <= width,
        ;
    }
}

// --- what the pictures are ----------------------------------------------------

/// The settings are pictured whole, 1048 by 688 points at one and a half pixels to the
/// point; a picker and a panel 264 points wide at two, with what is left bare below
/// them cut off.
pub proof fn pictures_have_their_sizes(
    tab: SettingsTab,
    mode: PickerMode,
    shape: WheelShape,
    kind: PanelKind,
    height: i64,
    file: &'static str,
)
    ensures
        ({
            let (s, p, k) = (
                settings_shown(tab, file),
                picker_shown(mode, shape, file),
                panel_shown(kind, height, file),
            );
            &&& s.subject == Subject::Settings(tab)
            &&& s.field == (Vec2 { x: 10_480_000, y: 6_880_000 })
            &&& s.scale == 15_000
            &&& !s.trimmed
            &&& p.subject == Subject::Picker(mode, shape)
            &&& p.field == (Vec2 { x: 2_640_000, y: 4_000_000 })
            &&& p.scale == 20_000
            &&& p.trimmed
            &&& k.subject == Subject::Panel(kind)
            &&& k.field == (Vec2 { x: 2_640_000, y: height })
            &&& k.scale == 20_000
            &&& k.trimmed
            &&& s.file == file
            &&& p.file == file
            &&& k.file == file
        }),
{
}

/// No two of the pictures show the same thing.
pub proof fn every_picture_shows_something_else(i: int, j: int)
    requires
        0 <= i < j < interface_shown().len(),
    ensures
        interface_shown()[i].subject != interface_shown()[j].subject,
{
}

/// A length in points takes the nearest number of pixels there is, and never none.
pub proof fn a_length_takes_the_nearest_number_of_pixels(length: int, scale: int)
    requires
        0 <= length * scale <= 100_000_000 * 4_294_967_294,
    ensures
        ({
            let p = pixels_of(length, scale);
            &&& 1 <= p
            &&& length * scale >= 50_000_000 ==> -50_000_000 <= 100_000_000 * p - length * scale
                <= 50_000_000
            &&& length * scale < 50_000_000 ==> p == 1
        }),
{
}

/// A picture is kept row by row from the top, each from the left, three bytes to the
/// pixel: red, green and blue.
pub proof fn pixels_follow_one_another(image: Image, x: int, y: int)
    requires
        0 <= x < image.width,
        0 <= y < image.height,
    ensures
        offset_of(image.width as int, 0, 0) == 0,
        x + 1 < image.width ==> offset_of(image.width as int, x + 1, y) - offset_of(
            image.width as int,
            x,
            y,
        ) == 3,
        x + 1 == image.width ==> offset_of(image.width as int, 0, y + 1) - offset_of(
            image.width as int,
            x,
            y,
        ) == 3,
        image.at(x, y).r == image.rgb@[offset_of(image.width as int, x, y)],
        image.at(x, y).g == image.rgb@[offset_of(image.width as int, x, y) + 1],
        image.at(x, y).b == image.rgb@[offset_of(image.width as int, x, y) + 2],
{
    let w = image.width as int;
    assert((y + 1) * w == y * w + w) by (nonlinear_arith);
    assert(0 * w == 0) by (nonlinear_arith);
}

/// A row is bare just if every pixel of it is the background.
pub proof fn a_bare_row_is_all_background(image: Image, y: int, background: Rgb, x: int)
    requires
        0 <= x < image.width,
    ensures
        image.bare(y, background) ==> image.at(x, y) == background,
        image.at(x, y) != background ==> !image.bare(y, background),
{
}

/// A banner leaves its row of text as much room at either end as it is tall, and is
/// twelve fifths as tall as the row.
pub proof fn a_banner_has_room_around_its_text(row: Vec2)
    requires
        10_000 <= row.x <= 10_000_000_000,
        10_000 <= row.y <= 10_000_000_000,
    ensures
        ({
            let (wide, tall) = banner_size(row);
            &&& -5_000 <= 10_000 * wide - (row.x + 2 * row.y) <= 5_000
            &&& -5_001 <= 10_000 * tall - 12 * row.y / 5 <= 5_001
        }),
{
}

/// A packed pixel is its red, green and blue from the top, eight bits each; what is
/// above them is nothing's.
pub proof fn a_packed_pixel_is_its_channels(p: u32)
    ensures
        ({
            let c = packed_rgb(p);
            p as int % 16_777_216 == c.r * 65_536 + c.g * 256 + c.b
        }),
{
}

/// A row read back takes up a whole number of alignments, room for its pixels at four
/// bytes each, and no more than that needs.
pub proof fn a_padded_row_is_the_least_that_aligns(width: int, align: int)
    requires
        width >= 0,
        align > 0,
    ensures
        row_bytes(width, align) % align == 0,
        width * 4 <= row_bytes(width, align) < width * 4 + align,
{
    let n = width * 4 + align - 1;
    let q = n / align;
    vstd::arithmetic::div_mod::lemma_fundamental_div_mod(n, align);
    vstd::arithmetic::div_mod::lemma_mod_multiples_basic(q, align);
    assert(q * align == align * q) by (nonlinear_arith);
}

/// Every picture is filed under what it shows: the settings by their tab, the pickers by
/// their kind, and the panels by their module, the brushes 460 points tall and the layers
/// 320.
pub proof fn every_picture_is_filed_under_what_it_shows()
    ensures
        ({
            let shots = interface_shown();
            &&& shots.len() == 8
            &&& shots[0].file == "settings-themes.png" && shots[0].subject == Subject::Settings(
                SettingsTab::Themes,
            )
            &&& shots[1].file == "settings-shortcuts.png" && shots[1].subject == Subject::Settings(
                SettingsTab::Shortcuts,
            )
            &&& shots[2].file == "picker-wheel.png" && shots[2].subject == Subject::Picker(
                PickerMode::Wheel,
                WheelShape::Triangle,
            )
            &&& shots[3].file == "picker-wheel-square.png" && shots[3].subject == Subject::Picker(
                PickerMode::Wheel,
                WheelShape::Square,
            )
            &&& shots[4].file == "picker-square.png" && shots[4].subject == Subject::Picker(
                PickerMode::Square,
                WheelShape::Triangle,
            )
            &&& shots[5].file == "picker-sliders.png" && shots[5].subject == Subject::Picker(
                PickerMode::Sliders,
                WheelShape::Triangle,
            )
            &&& shots[6].file == "brushes.png" && shots[6].subject == Subject::Panel(
                PanelKind::Brushes,
            ) && shots[6].field.y == 4_600_000
            &&& shots[7].file == "layers.png" && shots[7].subject == Subject::Panel(
                PanelKind::Layers,
            ) && shots[7].field.y == 3_200_000
        }),
{
}

} // verus!

//! Which glyphs a run of text is made of, for text that is drawn without a
//! window.

use crate::geom::{clamp, clamp_of, max_of, round, round_of, Pos2, Vec2, POINT};
use crate::text::chars_of;
use skrifa::MetadataProvider;
use vstd::prelude::*;

verus! {

/// Whether `skrifa::FontRef` reads these bytes as a font.
pub uninterp spec fn font_reads(font: Seq<u8>) -> bool;

/// The glyph that the character map `skrifa` selects in a font gives a
/// character; nothing where it has none, or where the bytes are no font.
pub uninterp spec fn mapped_glyph(font: Seq<u8>, c: char) -> Option<u32>;

/// Asks `skrifa::FontRef::new` whether the bytes are a font. Claimed of it is
/// that the answer is a function of the bytes.
#[verifier::external_body]
fn reads_font(font: &[u8]) -> (r: bool)
    ensures
        r == font_reads(font@),
{
    skrifa::FontRef::new(font).is_ok()
}

/// Looks a character up with `skrifa`'s `Charmap::map`. Claimed of it is that
/// the answer is a function of the font's bytes and the character, and that there
/// is none where `FontRef::new` refuses the bytes.
#[verifier::external_body]
fn map_char(font: &[u8], c: char) -> (r: Option<u32>)
    ensures
        r == mapped_glyph(font@, c),
        r is Some ==> font_reads(font@),
{
    skrifa::FontRef::new(font).ok()?.charmap().map(c).map(|glyph| glyph.to_u32())
}

/// The glyphs of the characters that have one, in order, from position `from`
/// on. A character without one is left out rather than drawn as a box.
pub open spec fn glyphs_from(glyphs: Seq<Option<u32>>, from: int) -> Seq<u32>
    decreases glyphs.len() - from,
{
    if 0 <= from < glyphs.len() {
        match glyphs[from] {
            Some(g) => seq![g] + glyphs_from(glyphs, from + 1),
            None => glyphs_from(glyphs, from + 1),
        }
    } else {
        Seq::empty()
    }
}

pub open spec fn mapped_glyphs(font: Seq<u8>, text: Seq<char>) -> Seq<Option<u32>> {
    text.map_values(|c: char| mapped_glyph(font, c))
}

/// Keep the glyphs there are.
pub fn present_glyphs(glyphs: &Vec<Option<u32>>) -> (r: Vec<u32>)
    ensures
        r@ == glyphs_from(glyphs@, 0),
{
    let mut out: Vec<u32> = Vec::new();
    let mut i: usize = 0;
    assert(out@ + glyphs_from(glyphs@, 0) =~= glyphs_from(glyphs@, 0));
    while i < glyphs.len()
        invariant
            0 <= i <= glyphs@.len(),
            out@ + glyphs_from(glyphs@, i as int) == glyphs_from(glyphs@, 0),
        decreases glyphs@.len() - i,
    {
        let ghost before = out@;
        if let Some(g) = glyphs[i] {
            out.push(g);
            assert(out@ + glyphs_from(glyphs@, i + 1) =~= before + (seq![g] + glyphs_from(
                glyphs@,
                i + 1,
            )));
        }
        i += 1;
    }
    assert(out@ =~= glyphs_from(glyphs@, 0));
    out
}

/// Whether every one of them is there.
pub fn all_present(glyphs: &Vec<Option<u32>>) -> (r: bool)
    ensures
        r == forall|i: int| 0 <= i < glyphs@.len() ==> (#[trigger] glyphs@[i]) is Some,
{
    let mut i: usize = 0;
    while i < glyphs.len()
        invariant
            0 <= i <= glyphs@.len(),
            forall|j: int| 0 <= j < i ==> (#[trigger] glyphs@[j]) is Some,
        decreases glyphs@.len() - i,
    {
        if glyphs[i].is_none() {
            assert(glyphs@[i as int] is None);
            return false;
        }
        i += 1;
    }
    true
}

fn map_text(font: &[u8], text: &str) -> (r: Vec<Option<u32>>)
    ensures
        r@ == mapped_glyphs(font@, text@),
        !font_reads(font@) ==> forall|i: int| 0 <= i < r@.len() ==> (#[trigger] r@[i]) is None,
{
    let chars = chars_of(text);
    let mut out: Vec<Option<u32>> = Vec::new();
    let mut i: usize = 0;
    while i < chars.len()
        invariant
            0 <= i <= chars@.len(),
            chars@ == text@,
            out@.len() == i,
            forall|j: int| 0 <= j < i ==> #[trigger] out@[j] == mapped_glyph(font@, text@[j]),
            !font_reads(font@) ==> forall|j: int| 0 <= j < i ==> (#[trigger] out@[j]) is None,
        decreases chars@.len() - i,
    {
        out.push(map_char(font, chars[i]));
        i += 1;
    }
    assert(out@ =~= mapped_glyphs(font@, text@));
    out
}

/// Glyphs none of which is there leave nothing to draw.
proof fn lemma_nothing_there(glyphs: Seq<Option<u32>>, from: int)
    requires
        0 <= from <= glyphs.len(),
        forall|i: int| 0 <= i < glyphs.len() ==> (#[trigger] glyphs[i]) is None,
    ensures
        glyphs_from(glyphs, from).len() == 0,
    decreases glyphs.len() - from,
{
    if from < glyphs.len() {
        lemma_nothing_there(glyphs, from + 1);
    }
}

/// The glyphs a run of text is drawn with: none at all where the bytes are no
/// font.
pub fn glyph_run(font: &[u8], text: &str) -> (r: Vec<u32>)
    ensures
        r@ == glyphs_from(mapped_glyphs(font@, text@), 0),
        !font_reads(font@) ==> r@.len() == 0,
{
    let glyphs = map_text(font, text);
    proof {
        if !font_reads(font@) {
            lemma_nothing_there(glyphs@, 0);
        }
    }
    present_glyphs(&glyphs)
}

/// Whether a font carries a glyph for every character in `text`.
pub fn covers(font: &[u8], text: &str) -> (r: bool)
    ensures
        r == (font_reads(font@) && forall|i: int|
            0 <= i < text@.len() ==> (#[trigger] mapped_glyphs(font@, text@)[i]) is Some),
{
    if !reads_font(font) {
        return false;
    }
    let glyphs = map_text(font, text);
    all_present(&glyphs)
}

// --- where the glyphs of a run go ------------------------------------------------

/// How far a glyph may advance, in pixels on the grid, and how many a run may
/// have, so that their sum has room.
pub const WIDEST: i64 = 10_000_000_000;

pub const LONGEST: usize = 1_000_000;

/// Whether a run's advances and its tracking add up.
pub open spec fn settable(advances: Seq<i64>, tracking: int) -> bool {
    &&& advances.len() <= LONGEST
    &&& -WIDEST <= tracking <= WIDEST
    &&& forall|i: int| 0 <= i < advances.len() ==> -WIDEST <= (#[trigger] advances[i]) <= WIDEST
}

/// How far the pen has gone after the first `n` glyphs: each advances by its own
/// width and the tracking.
pub open spec fn travelled(advances: Seq<i64>, tracking: int, n: int) -> int
    decreases n,
{
    if n <= 0 {
        0
    } else {
        travelled(advances, tracking, n - 1) + advances[n - 1] + tracking
    }
}

proof fn lemma_travelled(advances: Seq<i64>, tracking: int, n: int)
    requires
        settable(advances, tracking),
        0 <= n <= advances.len(),
    ensures
        -20_000_000_000 * n <= travelled(advances, tracking, n) <= 20_000_000_000 * n,
    decreases n,
{
    if n > 0 {
        lemma_travelled(advances, tracking, n - 1);
    }
}

/// Where each glyph of a run starts, measured from where the run does.
pub fn run_places(advances: &Vec<i64>, tracking: i64) -> (r: Vec<i64>)
    requires
        settable(advances@, tracking as int),
    ensures
        r@.len() == advances@.len(),
        forall|i: int|
            0 <= i < r@.len() ==> #[trigger] r@[i] == travelled(advances@, tracking as int, i),
{
    let mut out: Vec<i64> = Vec::new();
    let mut at: i64 = 0;
    let mut i: usize = 0;
    while i < advances.len()
        invariant
            i <= advances@.len(),
            settable(advances@, tracking as int),
            at == travelled(advances@, tracking as int, i as int),
            out@.len() == i,
            forall|k: int|
                0 <= k < i ==> #[trigger] out@[k] == travelled(advances@, tracking as int, k),
        decreases advances@.len() - i,
    {
        proof {
            lemma_travelled(advances@, tracking as int, i as int);
        }
        out.push(at);
        at = at + advances[i] + tracking;
        i += 1;
    }
    out
}

/// The total advance of a run. The last glyph's tracking is space after it and
/// is taken back off, or it would push a centred run to one side. A run without
/// a letter has no last glyph and no width.
pub open spec fn run_wide(advances: Seq<i64>, tracking: int) -> int {
    if advances.len() == 0 {
        0
    } else {
        max_of(travelled(advances, tracking, advances.len() as int) - tracking, 0)
    }
}

pub fn run_width(advances: &Vec<i64>, tracking: i64) -> (r: i64)
    requires
        settable(advances@, tracking as int),
    ensures
        r == run_wide(advances@, tracking as int),
        0 <= r <= 40_000_000_000_000_000,
{
    if advances.len() == 0 {
        return 0;
    }
    let mut at: i64 = 0;
    let mut i: usize = 0;
    while i < advances.len()
        invariant
            i <= advances@.len(),
            settable(advances@, tracking as int),
            at == travelled(advances@, tracking as int, i as int),
        decreases advances@.len() - i,
    {
        proof {
            lemma_travelled(advances@, tracking as int, i as int);
        }
        at = at + advances[i] + tracking;
        i += 1;
    }
    proof {
        lemma_travelled(advances@, tracking as int, i as int);
    }
    let wide: i64 = at - tracking;
    if wide >= 0 {
        wide
    } else {
        0
    }
}

/// A length up to the next whole number of pixels, and at least one.
pub open spec fn whole_pixels(v: int) -> int {
    max_of((v + POINT - 1) / POINT as int, 1)
}

/// What a run is rasterised into. It is generous on every side, because outlines
/// reach past the advance: accents above, descenders below, and the overshoot of
/// round letters.
#[derive(Clone, Copy, Debug, PartialEq, Eq, Structural)]
pub struct RasterBox {
    /// In pixels.
    pub width: usize,
    pub height: usize,
    /// Where the first glyph starts and the line it stands on, inside the box
    /// and on the grid.
    pub pad: i64,
    pub baseline: i64,
    /// Where the box goes, in pixels.
    pub left: i64,
    pub top: i64,
}

/// The box for a run of this width, at this many pixels to the em, whose left
/// edge and baseline are at a place.
pub fn raster_box(width: i64, ppem: i64, at: Pos2) -> (r: RasterBox)
    requires
        0 <= width <= 40_000_000_000_000_000,
        0 <= ppem <= WIDEST,
        -WIDEST <= at.x <= WIDEST,
        -WIDEST <= at.y <= WIDEST,
        (width + 2 * ppem) / POINT as int + 1 <= usize::MAX,
        ppem * 5 / 20_000 + 1 <= usize::MAX,
    ensures
        r.width == whole_pixels(width + 2 * ppem),
        r.height == whole_pixels(ppem * 5 / 2),
        r.pad == ppem,
        r.baseline == ppem * 9 / 5,
        r.left == round_of(at.x - ppem) / POINT as int,
        r.top == round_of(at.y - ppem * 9 / 5) / POINT as int,
        -5_000 <= r.left * 10_000 + r.pad - at.x <= 5_000,
        -5_000 <= r.top * 10_000 + r.baseline - at.y <= 5_000,
        r.width * 10_000 >= r.pad + width + ppem,
{
    let wide: i64 = (width + 2 * ppem + (POINT - 1)) / POINT;
    let tall: i64 = (ppem * 5 / 2 + (POINT - 1)) / POINT;
    let baseline: i64 = ppem * 9 / 5;
    let left: i64 = round(at.x - ppem);
    let top: i64 = round(at.y - baseline);
    RasterBox {
        width: if wide >= 1 {
            wide as usize
        } else {
            1
        },
        height: if tall >= 1 {
            tall as usize
        } else {
            1
        },
        pad: ppem,
        baseline,
        left: pixels_down(left),
        top: pixels_down(top),
    }
}

/// A whole number of pixels as their number.
fn pixels_down(v: i64) -> (r: i64)
    requires
        -4 * WIDEST <= v <= 4 * WIDEST,
    ensures
        r == v as int / POINT as int,
{
    if v >= 0 {
        v / POINT
    } else {
        let up: i64 = (-v + (POINT - 1)) / POINT;
        -up
    }
}

/// Where a point of a glyph's outline goes in the box. Outlines are measured
/// upwards from the baseline and the box downwards from its top, and a point
/// that strays outside is held to the edge.
pub fn pen_at(b: RasterBox, glyph: i64, outline: Vec2) -> (r: Pos2)
    requires
        b.width <= 4_000_000_000_000,
        b.height <= 4_000_000_000_000,
        -40_000_000_000_000_000 <= glyph <= 40_000_000_000_000_000,
        -WIDEST <= b.pad <= WIDEST,
        -2 * WIDEST <= b.baseline <= 2 * WIDEST,
        -WIDEST <= outline.x <= WIDEST,
        -WIDEST <= outline.y <= WIDEST,
    ensures
        r.x == clamp_of(b.pad + glyph + outline.x, 0, b.width * POINT),
        r.y == clamp_of(b.baseline - outline.y, 0, b.height * POINT),
{
    Pos2 {
        x: clamp(b.pad + glyph + outline.x, 0, b.width as i64 * POINT),
        y: clamp(b.baseline - outline.y, 0, b.height as i64 * POINT),
    }
}

/// One stretch of a glyph's outline, as the rasteriser takes it.
#[derive(Clone, Copy, Debug, PartialEq, Eq, Structural)]
pub enum Stretch {
    Line(Pos2, Pos2),
    Quad(Pos2, Pos2, Pos2),
    Cubic(Pos2, Pos2, Pos2, Pos2),
}

impl Stretch {
    pub open spec fn from(self) -> Pos2 {
        match self {
            Stretch::Line(a, _) => a,
            Stretch::Quad(a, _, _) => a,
            Stretch::Cubic(a, _, _, _) => a,
        }
    }

    pub open spec fn to(self) -> Pos2 {
        match self {
            Stretch::Line(_, b) => b,
            Stretch::Quad(_, _, b) => b,
            Stretch::Cubic(_, _, _, b) => b,
        }
    }
}

/// What an outline asks of the pen once it has been put down.
#[derive(Clone, Copy, Debug, PartialEq, Eq, Structural)]
pub enum Step {
    Line(Pos2),
    Quad(Pos2, Pos2),
    Cubic(Pos2, Pos2, Pos2),
    Close,
}

/// Where the pen that follows an outline is, and where the contour it is on
/// began. An unclosed contour would leak coverage across the whole scanline, so
/// the start is remembered and closing always joins back to it.
#[derive(Clone, Copy, Debug, PartialEq, Eq, Structural)]
pub struct Pen {
    pub last: Pos2,
    pub start: Pos2,
}

impl Pen {
    /// The stretch a step draws: it starts where the pen is.
    pub open spec fn stretch(self, step: Step) -> Stretch {
        match step {
            Step::Line(to) => Stretch::Line(self.last, to),
            Step::Quad(bend, to) => Stretch::Quad(self.last, bend, to),
            Step::Cubic(first, second, to) => Stretch::Cubic(self.last, first, second, to),
            Step::Close => Stretch::Line(self.last, self.start),
        }
    }

    /// The pen after a step: at the end of what it drew, on the same contour.
    pub open spec fn after(self, step: Step) -> Pen {
        Pen { last: self.stretch(step).to(), start: self.start }
    }

    /// What the pen draws over a series of steps.
    pub open spec fn drawing(self, steps: Seq<Step>) -> Seq<Stretch>
        decreases steps.len(),
    {
        if steps.len() == 0 {
            Seq::empty()
        } else {
            seq![self.stretch(steps[0])] + self.after(steps[0]).drawing(steps.drop_first())
        }
    }

    /// Put the pen down at the start of a contour.
    pub fn move_to(&mut self, to: Pos2)
        ensures
            *final(self) == (Pen { last: to, start: to }),
    {
        self.last = to;
        self.start = to;
    }

    pub fn line_to(&mut self, to: Pos2) -> (r: Stretch)
        ensures
            r == old(self).stretch(Step::Line(to)),
            *final(self) == old(self).after(Step::Line(to)),
    {
        let r = Stretch::Line(self.last, to);
        self.last = to;
        r
    }

    pub fn quad_to(&mut self, bend: Pos2, to: Pos2) -> (r: Stretch)
        ensures
            r == old(self).stretch(Step::Quad(bend, to)),
            *final(self) == old(self).after(Step::Quad(bend, to)),
    {
        let r = Stretch::Quad(self.last, bend, to);
        self.last = to;
        r
    }

    pub fn curve_to(&mut self, first: Pos2, second: Pos2, to: Pos2) -> (r: Stretch)
        ensures
            r == old(self).stretch(Step::Cubic(first, second, to)),
            *final(self) == old(self).after(Step::Cubic(first, second, to)),
    {
        let r = Stretch::Cubic(self.last, first, second, to);
        self.last = to;
        r
    }

    pub fn close(&mut self) -> (r: Stretch)
        ensures
            r == old(self).stretch(Step::Close),
            *final(self) == old(self).after(Step::Close),
    {
        let r = Stretch::Line(self.last, self.start);
        self.last = self.start;
        r
    }
}

/// Whether each stretch starts where the one before it ended, the first of them
/// at a place.
pub open spec fn joined(contour: Seq<Stretch>, start: Pos2) -> bool {
    forall|i: int|
        0 <= i < contour.len() ==> (#[trigger] contour[i]).from() == if i == 0 {
            start
        } else {
            contour[i - 1].to()
        }
}

/// Whatever a contour is made of, it has no gap in it, and once it is closed it
/// ends where it began.
pub proof fn a_closed_contour_comes_back_to_its_start(pen: Pen, steps: Seq<Step>)
    ensures
        joined(pen.drawing(steps), pen.last),
        steps.len() > 0 && steps.last() == Step::Close ==> pen.drawing(steps).len() > 0
            && pen.drawing(steps).last().to() == pen.start,
    decreases steps.len(),
{
    if steps.len() > 0 {
        let next = pen.after(steps[0]);
        let rest = steps.drop_first();
        a_closed_contour_comes_back_to_its_start(next, rest);
        let all = pen.drawing(steps);
        let tail = next.drawing(rest);
        assert(all =~= seq![pen.stretch(steps[0])] + tail);
        assert forall|i: int| 0 <= i < all.len() implies (#[trigger] all[i]).from() == if i == 0 {
            pen.last
        } else {
            all[i - 1].to()
        } by {
            if i > 0 {
                assert(all[i] == tail[i - 1]);
                if i > 1 {
                    assert(all[i - 1] == tail[i - 2]);
                }
            }
        }
        if rest.len() > 0 && steps.last() == Step::Close {
            assert(rest.last() == steps.last());
            assert(all.last() == tail.last());
        } else if rest.len() == 0 {
            assert(tail.len() == 0);
        }
    }
}

/// A run of one glyph is as wide whatever the tracking, which lies between
/// letters; of more, it moves the end by itself for every gap.
pub proof fn tracking_lies_between_the_letters(advances: Seq<i64>, tight: int, loose: int, n: int)
    requires
        0 <= n <= advances.len(),
    ensures
        travelled(advances, loose, n) - travelled(advances, tight, n) == n * (loose - tight),
        n == 1 ==> travelled(advances, loose, n) - loose == travelled(advances, tight, n) - tight,
    decreases n,
{
    if n > 0 {
        tracking_lies_between_the_letters(advances, tight, loose, n - 1);
        assert((n - 1) * (loose - tight) + (loose - tight) == n * (loose - tight))
            by (nonlinear_arith);
    } else {
        assert(0 * (loose - tight) == 0) by (nonlinear_arith);
    }
}

/// A font that carries every character of a text draws one glyph for each.
pub proof fn a_covered_text_loses_nothing(glyphs: Seq<Option<u32>>, from: int)
    requires
        0 <= from <= glyphs.len(),
        forall|i: int| 0 <= i < glyphs.len() ==> (#[trigger] glyphs[i]) is Some,
    ensures
        glyphs_from(glyphs, from).len() == glyphs.len() - from,
        forall|i: int|
            from <= i < glyphs.len() ==> Some(glyphs_from(glyphs, from)[i - from])
                == #[trigger] glyphs[i],
    decreases glyphs.len() - from,
{
    if from < glyphs.len() {
        a_covered_text_loses_nothing(glyphs, from + 1);
        let rest = glyphs_from(glyphs, from + 1);
        let all = glyphs_from(glyphs, from);
        assert forall|i: int| from <= i < glyphs.len() implies Some(all[i - from])
            == #[trigger] glyphs[i] by {
            if i > from {
                assert(all[i - from] == rest[i - from - 1]);
            }
        }
    }
}

/// A character with a glyph adds it at the end of the run; one without adds nothing.
pub proof fn a_character_adds_its_glyph_and_no_other(
    glyphs: Seq<Option<u32>>,
    last: Option<u32>,
    from: int,
)
    requires
        0 <= from <= glyphs.len(),
    ensures
        glyphs_from(Seq::<Option<u32>>::empty(), 0).len() == 0,
        last matches Some(g) ==> glyphs_from(glyphs.push(last), from) == glyphs_from(
            glyphs,
            from,
        ).push(g),
        last is None ==> glyphs_from(glyphs.push(last), from) == glyphs_from(glyphs, from),
    decreases glyphs.len() - from,
{
    let all = glyphs.push(last);
    if from < glyphs.len() {
        a_character_adds_its_glyph_and_no_other(glyphs, last, from + 1);
        assert(all[from] == glyphs[from]);
        if let Some(g) = glyphs[from] {
            if let Some(h) = last {
                assert(seq![g] + glyphs_from(glyphs, from + 1).push(h) =~= (seq![g] + glyphs_from(
                    glyphs,
                    from + 1,
                )).push(h));
            }
        }
    } else {
        assert(glyphs_from(all, from + 1) =~= Seq::<u32>::empty());
        if let Some(h) = last {
            assert(seq![h] + Seq::<u32>::empty() =~= Seq::<u32>::empty().push(h));
        }
    }
}

/// Every character is looked up on its own, in the font it is to be drawn with.
pub proof fn every_character_is_looked_up(font: Seq<u8>, text: Seq<char>, i: int)
    requires
        0 <= i < text.len(),
    ensures
        mapped_glyphs(font, text).len() == text.len(),
        mapped_glyphs(font, text)[i] == mapped_glyph(font, text[i]),
{
}

/// The first glyph starts where the run does, and each further one past the end of
/// the one before it by the tracking.
pub proof fn a_glyph_starts_where_the_one_before_ends(advances: Seq<i64>, tracking: int, n: int)
    requires
        0 <= n < advances.len(),
    ensures
        travelled(advances, tracking, 0) == 0,
        travelled(advances, tracking, n + 1) - travelled(advances, tracking, n) == advances[n]
            + tracking,
{
}

/// A run ends where its last glyph does: nothing is wide as nothing, one glyph as its
/// own advance, and no tracking follows the last.
pub proof fn a_run_ends_with_its_last_glyph(advances: Seq<i64>, tracking: int)
    ensures
        advances.len() == 0 ==> run_wide(advances, tracking) == 0,
        advances.len() == 1 && advances[0] >= 0 ==> run_wide(advances, tracking) == advances[0],
        advances.len() > 0 && travelled(advances, tracking, advances.len() - 1)
            + advances.last() >= 0 ==> run_wide(advances, tracking) == travelled(
            advances,
            tracking,
            advances.len() - 1,
        ) + advances.last(),
        run_wide(advances, tracking) >= 0,
{
    assert(travelled(advances, tracking, 0) == 0);
}

/// A length fits in its whole pixels, of which there is never one too many.
pub proof fn a_length_fits_in_its_pixels(v: int)
    ensures
        whole_pixels(v) >= 1,
        whole_pixels(v) * 10_000 >= v,
        v > 0 ==> whole_pixels(v) * 10_000 < v + 10_000,
        v <= 10_000 ==> whole_pixels(v) == 1,
{
}

/// A step is drawn from where the pen is, through the points it names, in their order,
/// to where it asks; closing draws straight back to where the contour began; and the
/// pen is left at the end of it.
pub proof fn a_step_goes_through_its_own_points(pen: Pen, a: Pos2, b: Pos2, c: Pos2)
    ensures
        pen.stretch(Step::Line(a)) == Stretch::Line(pen.last, a),
        pen.stretch(Step::Quad(a, b)) == Stretch::Quad(pen.last, a, b),
        pen.stretch(Step::Cubic(a, b, c)) == Stretch::Cubic(pen.last, a, b, c),
        pen.stretch(Step::Close) == Stretch::Line(pen.last, pen.start),
        pen.after(Step::Line(a)).last == a,
        pen.after(Step::Quad(a, b)).last == b,
        pen.after(Step::Cubic(a, b, c)).last == c,
        pen.after(Step::Close).last == pen.start,
        forall|step: Step| (#[trigger] pen.after(step)).start == pen.start,
{
}

} // verus!

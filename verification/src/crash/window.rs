//! The crash box: what it says, where its parts go, and what its buttons do.

use crate::crash::report::{
    at_risk_of, note_of, rescue_views, rescued_of, string_views, DocumentNote, Report, Rescue,
    RescueView,
};
use crate::geom::{max_of, within_reach, Pos2, Rect, Vec2, REACH};
use crate::picture::{decode_png, png_decoded, Channels, Decoded};
use crate::ratio::{nearest_div, nearest_of};
use crate::text::{push_text, string_of};
use vstd::prelude::*;

verus! {

pub const TITLE: &'static str = "Umber crash report";

/// The window, in points on the grid. Fixed: the details scroll.
pub const WINDOW_WIDTH: i64 = 5_600_000;

pub const WINDOW_HEIGHT: i64 = 5_200_000;

/// The space above the row of buttons.
pub const FOOTER_GAP: i64 = 100_000;

/// The least the scrolling body is ever given.
pub const MIN_BODY: i64 = 1_200_000;

/// How wide the cat is drawn. The height follows the picture.
pub const CAT_WIDTH: i64 = 1_280_000;

/// The warning mark's side, and the gap between it and the words.
pub const MARK: i64 = 260_000;

pub const MARK_GAP: i64 = 100_000;

/// The gap between the window's edge and the box inside it.
pub const OUTER_INSET: i64 = 100_000;

/// Space above the heading row.
pub const HEADING_TOP: i64 = 100_000;

pub const HEADING: &'static str = "Oh no, oopsy";

/// What happened, in plain words.
pub const WHAT_HAPPENED: &'static str =
    "Umber ran into a problem it could not carry on from and had to stop. Nothing about this has left your machine: the report below is a file on this computer and stays there unless you send it.";

// --- what it says -------------------------------------------------------------------

/// How a line of the box is set.
#[derive(Clone, Copy, Debug, PartialEq, Eq, Structural)]
pub enum Style {
    /// A small dim heading.
    Section,
    /// A document's name.
    Title,
    /// Where a file is.
    Path,
    /// A sentence under one of the others.
    Note,
}

#[derive(Debug)]
pub struct Line {
    pub style: Style,
    pub text: String,
}

#[verifier::ext_equal]
pub struct LineView {
    pub style: Style,
    pub text: Seq<char>,
}

impl View for Line {
    type V = LineView;

    open spec fn view(&self) -> LineView {
        LineView { style: self.style, text: self.text@ }
    }
}

pub open spec fn line_views(lines: Seq<Line>) -> Seq<LineView> {
    lines.map_values(|l: Line| l@)
}

pub open spec fn section_line() -> LineView {
    LineView { style: Style::Section, text: "Your work"@ }
}

/// A document there is a copy of: its name, where the copy is, and what is in it.
pub open spec fn rescue_lines(r: RescueView) -> Seq<LineView> {
    seq![
        LineView { style: Style::Title, text: r.title },
        LineView { style: Style::Path, text: r.path },
        LineView { style: Style::Note, text: note_of(r.complete, r.seconds_ago as int) },
    ]
}

/// A document there is no copy of.
pub open spec fn risk_lines(title: Seq<char>) -> Seq<LineView> {
    seq![
        LineView { style: Style::Title, text: title },
        LineView { style: Style::Note, text: "Umber had no copy of this one."@ },
    ]
}

pub open spec fn rescues_lines(rescues: Seq<RescueView>) -> Seq<LineView>
    decreases rescues.len(),
{
    if rescues.len() == 0 {
        Seq::empty()
    } else {
        rescues_lines(rescues.drop_last()) + rescue_lines(rescues.last())
    }
}

pub open spec fn risks_lines(titles: Seq<Seq<char>>) -> Seq<LineView>
    decreases titles.len(),
{
    if titles.len() == 0 {
        Seq::empty()
    } else {
        risks_lines(titles.drop_last()) + risk_lines(titles.last())
    }
}

/// What happened to the artist's work. With nothing to point at it is said that
/// nothing was open, and no promise is made about files nobody looked at.
pub open spec fn work_lines(docs: Seq<DocumentNote>) -> Seq<LineView> {
    let rescued = rescued_of(docs);
    let at_risk = at_risk_of(docs);
    if rescued.len() == 0 && at_risk.len() == 0 {
        seq![
            section_line(),
            LineView { style: Style::Note, text: "Nothing was open with unsaved changes."@ },
        ]
    } else {
        seq![section_line()] + rescues_lines(rescued) + risks_lines(at_risk)
    }
}

fn add_line(out: &mut Vec<Line>, style: Style, text: String)
    ensures
        line_views(final(out)@) == line_views(old(out)@).push(LineView { style, text: text@ }),
{
    let line = Line { style, text };
    out.push(line);
    assert(line_views(out@) =~= line_views(old(out)@).push(LineView { style, text: text@ }));
}

fn add_rescue(out: &mut Vec<Line>, rescue: &Rescue)
    ensures
        line_views(final(out)@) == line_views(old(out)@) + rescue_lines(rescue@),
{
    add_line(out, Style::Title, rescue.title.clone());
    add_line(out, Style::Path, rescue.path.clone());
    add_line(out, Style::Note, rescue.note());
    assert(line_views(out@) =~= line_views(old(out)@) + rescue_lines(rescue@));
}

fn add_risk(out: &mut Vec<Line>, title: &String)
    ensures
        line_views(final(out)@) == line_views(old(out)@) + risk_lines(title@),
{
    add_line(out, Style::Title, title.clone());
    add_line(out, Style::Note, "Umber had no copy of this one.".to_owned());
    assert(line_views(out@) =~= line_views(old(out)@) + risk_lines(title@));
}

/// The lines of the box about the artist's work.
pub fn work(report: &Report) -> (r: Vec<Line>)
    ensures
        line_views(r@) == work_lines(report.documents@),
{
    let rescued = report.rescued();
    let at_risk = report.at_risk();
    let mut out: Vec<Line> = Vec::new();
    add_line(&mut out, Style::Section, "Your work".to_owned());
    assert(rescue_views(rescued@).len() == rescued@.len());
    assert(string_views(at_risk@).len() == at_risk@.len());
    if rescued.len() == 0 && at_risk.len() == 0 {
        add_line(
            &mut out,
            Style::Note,
            "Nothing was open with unsaved changes.".to_owned(),
        );
        assert(line_views(out@) =~= work_lines(report.documents@));
        return out;
    }
    let ghost views = rescue_views(rescued@);
    let ghost titles = string_views(at_risk@);
    assert(line_views(out@) =~= seq![section_line()] + rescues_lines(views.take(0)));
    let mut i: usize = 0;
    while i < rescued.len()
        invariant
            i <= rescued@.len(),
            views == rescue_views(rescued@),
            line_views(out@) == seq![section_line()] + rescues_lines(views.take(i as int)),
        decreases rescued@.len() - i,
    {
        assert(views[i as int] == rescued@[i as int]@);
        add_rescue(&mut out, &rescued[i]);
        assert(views.take(i + 1).drop_last() =~= views.take(i as int));
        assert(views.take(i + 1).last() == views[i as int]);
        assert(line_views(out@) =~= seq![section_line()] + rescues_lines(views.take(i + 1)));
        i += 1;
    }
    assert(views.take(views.len() as int) =~= views);
    let ghost so_far = line_views(out@);
    assert(line_views(out@) =~= so_far + risks_lines(titles.take(0)));
    let mut k: usize = 0;
    while k < at_risk.len()
        invariant
            k <= at_risk@.len(),
            titles == string_views(at_risk@),
            line_views(out@) == so_far + risks_lines(titles.take(k as int)),
        decreases at_risk@.len() - k,
    {
        add_risk(&mut out, &at_risk[k]);
        assert(titles[k as int] == at_risk@[k as int]@);
        assert(titles.take(k + 1).drop_last() =~= titles.take(k as int));
        assert(titles.take(k + 1).last() == titles[k as int]);
        assert(line_views(out@) =~= so_far + risks_lines(titles.take(k + 1)));
        k += 1;
    }
    assert(titles.take(titles.len() as int) =~= titles);
    out
}

/// Where the report was written.
pub fn saved_to(path: &str) -> (r: String)
    ensures
        r@ == "Saved to "@ + path@,
{
    let mut out: Vec<char> = Vec::new();
    push_text(&mut out, "Saved to ");
    push_text(&mut out, path);
    assert(out@ =~= "Saved to "@ + path@);
    string_of(&out)
}

// --- what its buttons do --------------------------------------------------------------

/// What the box remembers while it is open.
#[derive(Clone, Copy, Debug, PartialEq, Eq, Structural)]
pub struct Reporter {
    /// "Technical details", closed to begin with.
    pub expanded: bool,
    /// Whether "Copy details" has been used. It stays set: a line that simply
    /// stays costs no frame beyond the one the click caused.
    pub copied: bool,
    pub restart: bool,
    pub close: bool,
}

/// What the technical section shows this frame.
#[derive(Clone, Copy, Debug, PartialEq, Eq, Structural)]
pub struct Technical {
    /// Which way the mark on the header points.
    pub chevron_up: bool,
    /// Whether the details are drawn under it.
    pub details: bool,
    /// Whether the details go to the clipboard now.
    pub copy: bool,
    /// Whether it says that they were copied.
    pub confirmed: bool,
}

impl Reporter {
    pub fn new() -> (r: Reporter)
        ensures
            r == (Reporter { expanded: false, copied: false, restart: false, close: false }),
    {
        Reporter { expanded: false, copied: false, restart: false, close: false }
    }

    /// One frame of the technical section: `toggled` when its header was
    /// clicked, `copy` when "Copy details" was. The button is drawn only while
    /// the details are.
    pub fn technical(&mut self, toggled: bool, copy: bool) -> (r: Technical)
        ensures
            final(self).expanded == (old(self).expanded != toggled),
            final(self).copied == (old(self).copied || (final(self).expanded && copy)),
            final(self).restart == old(self).restart,
            final(self).close == old(self).close,
            r == (Technical {
                chevron_up: old(self).expanded,
                details: final(self).expanded,
                copy: final(self).expanded && copy,
                confirmed: final(self).expanded && final(self).copied,
            }),
    {
        let chevron_up = self.expanded;
        if toggled {
            self.expanded = !self.expanded;
        }
        if !self.expanded {
            return Technical { chevron_up, details: false, copy: false, confirmed: false };
        }
        if copy {
            self.copied = true;
        }
        Technical { chevron_up, details: true, copy, confirmed: self.copied }
    }

    /// The two buttons at the bottom. Restarting closes the box as well.
    pub fn footer(&mut self, restart: bool, close: bool)
        ensures
            *final(self) == (Reporter {
                restart: old(self).restart || restart,
                close: old(self).close || restart || close,
                ..*old(self)
            }),
    {
        if restart {
            self.restart = true;
            self.close = true;
        }
        if close {
            self.close = true;
        }
    }
}

// --- where its parts go -----------------------------------------------------------------

/// Sizes the frame around a dialog has everywhere.
#[derive(Clone, Copy, Debug, PartialEq, Eq, Structural)]
pub struct DialogFrame {
    pub margin: i64,
    pub stroke: i64,
    pub button_height: i64,
}

impl DialogFrame {
    pub open spec fn sound(self) -> bool {
        &&& 0 <= self.margin <= REACH
        &&& 0 <= self.stroke <= REACH
        &&& 0 <= self.button_height <= REACH
    }
}

/// How tall the box's content is in a window of this height: what both insets
/// and the line around it leave.
pub open spec fn content_tall(room: int, frame: DialogFrame) -> int {
    max_of(room - 2 * OUTER_INSET - 2 * frame.margin - 2 * frame.stroke, MIN_BODY as int)
}

pub fn content_height(room: i64, frame: DialogFrame) -> (r: i64)
    requires
        within_reach(room as int),
        frame.sound(),
    ensures
        r == content_tall(room as int, frame),
{
    let left: i64 = room - 2 * OUTER_INSET - 2 * frame.margin - 2 * frame.stroke;
    if left >= MIN_BODY {
        left
    } else {
        MIN_BODY
    }
}

/// Where the footer and the body lie.
#[derive(Clone, Copy, Debug, PartialEq, Eq, Structural)]
pub struct BodyPlaces {
    /// The bottom of the content, and of the footer.
    pub bottom: i64,
    pub footer_top: i64,
    /// How tall the scrolling body is.
    pub body: i64,
}

/// Place the footer at the bottom of the content, and give the body what is
/// above it. `top` is where the content begins and `under` where the heading has
/// left off.
pub fn body_places(top: i64, under: i64, content: i64, frame: DialogFrame) -> (r: BodyPlaces)
    requires
        within_reach(top as int),
        within_reach(under as int),
        0 <= content <= 2 * REACH,
        frame.sound(),
    ensures
        r.bottom == top + content,
        r.footer_top == r.bottom - frame.button_height,
        r.body == max_of(r.footer_top - FOOTER_GAP - under, MIN_BODY as int),
        r.body >= 1_200_000,
        r.body > 1_200_000 ==> under + r.body + 100_000 + frame.button_height == top + content,
{
    let bottom: i64 = top + content;
    let footer_top: i64 = bottom - frame.button_height;
    let left: i64 = footer_top - FOOTER_GAP - under;
    BodyPlaces {
        bottom,
        footer_top,
        body: if left >= MIN_BODY {
            left
        } else {
            MIN_BODY
        },
    }
}

/// In a window tall enough for it, the box leaves the same gap above and below
/// that it leaves at the sides.
pub proof fn the_box_fills_the_window(room: int, frame: DialogFrame)
    requires
        room >= MIN_BODY + 2 * OUTER_INSET + 2 * frame.margin + 2 * frame.stroke,
    ensures
        OUTER_INSET + frame.stroke + frame.margin + content_tall(room, frame) + frame.margin
            + frame.stroke + OUTER_INSET == room,
{
}

/// Where the heading's parts go.
#[derive(Clone, Copy, Debug, PartialEq, Eq, Structural)]
pub struct HeadingPlaces {
    pub mark: Rect,
    /// The top left corner of the words.
    pub words: Pos2,
    pub picture: Option<Rect>,
}

/// The size a picture of this many pixels is drawn at.
pub open spec fn picture_tall(width: int, height: int) -> int {
    nearest_of(CAT_WIDTH * height, max_of(width, 1))
}

pub fn picture_size(width: u32, height: u32) -> (r: Vec2)
    ensures
        r.x == CAT_WIDTH,
        r.y == picture_tall(width as int, height as int),
        0 <= r.y <= 1_280_000 * 0x1_0000_0000,
{
    let across: i128 = if width >= 1 {
        width as i128
    } else {
        1
    };
    proof {
        let (n, d) = (1_280_000 * height as int, across as int);
        assert(0 <= (2 * n + d) / (2 * d) <= n + 1) by (nonlinear_arith)
            requires
                n >= 0,
                d >= 1,
        ;
    }
    Vec2 { x: CAT_WIDTH, y: nearest_div(1_280_000 * (height as i128), across) as i64 }
}

pub open spec fn tallest(words: Vec2, picture: Option<Vec2>) -> int {
    let block = max_of(words.y as int, MARK as int);
    match picture {
        Some(size) => max_of(size.y as int, block),
        None => block,
    }
}

/// How tall the heading row is: as tall as the tallest thing in it.
pub fn heading_height(words: Vec2, picture: Option<Vec2>) -> (r: i64)
    ensures
        r == tallest(words, picture),
{
    let block: i64 = if words.y >= MARK {
        words.y
    } else {
        MARK
    };
    match picture {
        Some(size) if size.y >= block => size.y,
        _ => block,
    }
}

/// A rectangle of a size about a place.
pub open spec fn about(x: int, y: int, size: Vec2) -> Rect {
    Rect {
        min: Pos2 { x: (x - size.x as int / 2) as i64, y: (y - size.y as int / 2) as i64 },
        max: Pos2 {
            x: (x - size.x as int / 2 + size.x) as i64,
            y: (y - size.y as int / 2 + size.y) as i64,
        },
    }
}

fn around(x: i64, y: i64, size: Vec2) -> (r: Rect)
    requires
        -4 * REACH <= x <= 4 * REACH,
        -4 * REACH <= y <= 4 * REACH,
        0 <= size.x <= 4 * REACH,
        0 <= size.y <= 4 * REACH,
    ensures
        r == about(x as int, y as int, size),
        r.min.x == x - size.x as int / 2,
        r.min.y == y - size.y as int / 2,
{
    let left: i64 = x - size.x / 2;
    let top: i64 = y - size.y / 2;
    Rect { min: Pos2 { x: left, y: top }, max: Pos2 { x: left + size.x, y: top + size.y } }
}

/// With a picture, the words are centred a third of the way in from the left and
/// the picture a third in from the right; without one the words take the middle.
pub open spec fn places_of(row: Rect, words: Vec2, picture: Option<Vec2>) -> HeadingPlaces {
    let middle = (row.min.y + row.max.y) / 2;
    let at = match picture {
        Some(_) => row.min.x + row.wide() / 3,
        None => (row.min.x + row.max.x) / 2,
    };
    let left = at - (MARK + MARK_GAP + words.x) / 2;
    HeadingPlaces {
        mark: about(left + MARK as int / 2, middle, Vec2 { x: MARK, y: MARK }),
        words: Pos2 {
            x: (left + MARK + MARK_GAP) as i64,
            y: (middle - words.y as int / 2) as i64,
        },
        picture: match picture {
            Some(size) => Some(about(row.max.x - row.wide() / 3, middle, size)),
            None => None,
        },
    }
}

fn middle(a: i64, b: i64) -> (r: i64)
    requires
        within_reach(a as int),
        within_reach(b as int),
        a <= b,
    ensures
        r == (a + b) / 2,
        a <= r <= b,
{
    let over: i64 = (b - a) / 2;
    a + over
}

/// Place the mark, the words and the picture in a row.
pub fn heading(row: Rect, words: Vec2, picture: Option<Vec2>) -> (r: HeadingPlaces)
    requires
        row.in_reach(),
        row.upright(),
        0 <= words.x <= REACH,
        0 <= words.y <= REACH,
        picture matches Some(size) ==> 0 <= size.x <= 4 * REACH && 0 <= size.y <= 4 * REACH,
    ensures
        r == places_of(row, words, picture),
{
    let across: i64 = row.max.x - row.min.x;
    let level: i64 = middle(row.min.y, row.max.y);
    let at: i64 = match picture {
        Some(_) => row.min.x + across / 3,
        None => middle(row.min.x, row.max.x),
    };
    let left: i64 = at - (MARK + MARK_GAP + words.x) / 2;
    HeadingPlaces {
        mark: around(left + MARK / 2, level, Vec2 { x: MARK, y: MARK }),
        words: Pos2 { x: left + MARK + MARK_GAP, y: level - words.y / 2 },
        picture: match picture {
            Some(size) => Some(around(row.max.x - across / 3, level, size)),
            None => None,
        },
    }
}

// --- the picture --------------------------------------------------------------------------

/// The drawing beside the heading, as ink rather than as a picture: one byte a
/// pixel, tinted when it is drawn.
#[derive(Debug)]
pub struct Cat {
    pub width: u32,
    pub height: u32,
    pub ink: Vec<u8>,
}

pub open spec fn ink_of(decoded: Option<(Channels, u32, u32, Seq<u8>)>) -> Option<
    (u32, u32, Seq<u8>),
> {
    match decoded {
        Some((Channels::Grey, width, height, data)) => Some((width, height, data)),
        _ => None,
    }
}

pub open spec fn is_cat(cat: Option<Cat>, ink: Option<(u32, u32, Seq<u8>)>) -> bool {
    match (cat, ink) {
        (Some(c), Some((width, height, data))) => c.width == width && c.height == height && c.ink@
            == data,
        (None, None) => true,
        _ => false,
    }
}

/// The ink of a decoded drawing. Anything that is not one channel of grey is
/// nothing: drawing nothing beats drawing noise.
pub fn cat_of(decoded: Option<Decoded>) -> (r: Option<Cat>)
    ensures
        is_cat(
            r,
            ink_of(
                match decoded {
                    Some(d) => Some((d.channels, d.width, d.height, d.data@)),
                    None => None,
                },
            ),
        ),
{
    match decoded {
        Some(d) => match d.channels {
            Channels::Grey => Some(Cat { width: d.width, height: d.height, ink: d.data }),
            _ => None,
        },
        None => None,
    }
}

/// The ink of the drawing in a file: a byte for every pixel.
pub fn load_cat(file: &[u8]) -> (r: Option<Cat>)
    ensures
        is_cat(r, ink_of(png_decoded(file@))),
        r matches Some(cat) ==> cat.ink@.len() == cat.width * cat.height,
{
    cat_of(decode_png(file))
}

// --- laws ------------------------------------------------------------------------------------

/// Every document that would have lost something is named in the box, once for
/// each of it, and nothing else is.
pub proof fn every_unsaved_document_is_named(docs: Seq<DocumentNote>)
    ensures
        title_count(work_lines(docs)) == crate::crash::report::modified_count(docs),
{
    crate::crash::report::every_unsaved_document_is_accounted_for(docs);
    let (rescued, at_risk) = (rescued_of(docs), at_risk_of(docs));
    if rescued.len() == 0 && at_risk.len() == 0 {
        let lines = work_lines(docs);
        let first = lines.drop_last();
        assert(first =~= seq![section_line()]);
        assert(first.drop_last() =~= Seq::<LineView>::empty());
        assert(title_count(first.drop_last()) == 0);
        assert(title_count(first) == 0);
    } else {
        lemma_rescues_titles(rescued);
        lemma_risks_titles(at_risk);
        let first = seq![section_line()];
        assert(first.drop_last() =~= Seq::<LineView>::empty());
        assert(title_count(first.drop_last()) == 0);
        lemma_titles_add(first, rescues_lines(rescued));
        lemma_titles_add(first + rescues_lines(rescued), risks_lines(at_risk));
    }
}

/// How many documents a run of lines names.
pub open spec fn title_count(lines: Seq<LineView>) -> int
    decreases lines.len(),
{
    if lines.len() == 0 {
        0
    } else {
        title_count(lines.drop_last()) + if lines.last().style == Style::Title {
            1int
        } else {
            0
        }
    }
}

proof fn lemma_titles_add(a: Seq<LineView>, b: Seq<LineView>)
    ensures
        title_count(a + b) == title_count(a) + title_count(b),
    decreases b.len(),
{
    if b.len() == 0 {
        assert(a + b =~= a);
    } else {
        lemma_titles_add(a, b.drop_last());
        assert((a + b).drop_last() =~= a + b.drop_last());
    }
}

proof fn lemma_rescues_titles(rescues: Seq<RescueView>)
    ensures
        title_count(rescues_lines(rescues)) == rescues.len(),
    decreases rescues.len(),
{
    if rescues.len() > 0 {
        lemma_rescues_titles(rescues.drop_last());
        let lines = rescue_lines(rescues.last());
        lemma_titles_add(rescues_lines(rescues.drop_last()), lines);
        reveal_with_fuel(title_count, 4);
    }
}

proof fn lemma_risks_titles(titles: Seq<Seq<char>>)
    ensures
        title_count(risks_lines(titles)) == titles.len(),
    decreases titles.len(),
{
    if titles.len() > 0 {
        lemma_risks_titles(titles.drop_last());
        let lines = risk_lines(titles.last());
        lemma_titles_add(risks_lines(titles.drop_last()), lines);
        reveal_with_fuel(title_count, 3);
    }
}

/// A rescued document takes three lines: its title, where its copy is, and what the
/// copy holds. They come in the documents' order.
pub proof fn a_rescued_document_takes_three_lines(rescues: Seq<RescueView>, r: RescueView)
    ensures
        ({
            let (before, after) = (rescues_lines(rescues), rescues_lines(rescues.push(r)));
            &&& after.len() == before.len() + 3
            &&& after.take(before.len() as int) == before
            &&& after[before.len() as int] == (LineView { style: Style::Title, text: r.title })
            &&& after[before.len() as int + 1] == (LineView { style: Style::Path, text: r.path })
            &&& after[before.len() as int + 2].style == Style::Note
            &&& r.complete ==> after[before.len() as int + 2].text == "Written "@
                + crate::crash::report::age_text(r.seconds_ago as int)
                + ", with everything you had done."@
            &&& !r.complete ==> after[before.len() as int + 2].text == "Written "@
                + crate::crash::report::age_text(r.seconds_ago as int)
                + ". It does not include your most recent changes."@
        }),
{
    assert(rescues.push(r).drop_last() =~= rescues);
    let (before, after) = (rescues_lines(rescues), rescues_lines(rescues.push(r)));
    assert(after == before + rescue_lines(r));
    assert(after.take(before.len() as int) =~= before);
}

/// A document that nothing was kept of takes two lines: its title, and that.
pub proof fn a_lost_document_takes_two_lines(titles: Seq<Seq<char>>, title: Seq<char>)
    ensures
        ({
            let (before, after) = (risks_lines(titles), risks_lines(titles.push(title)));
            &&& after.len() == before.len() + 2
            &&& after.take(before.len() as int) == before
            &&& after[before.len() as int] == (LineView { style: Style::Title, text: title })
            &&& after[before.len() as int + 1] == (LineView {
                style: Style::Note,
                text: "Umber had no copy of this one."@,
            })
        }),
{
    assert(titles.push(title).drop_last() =~= titles);
    let (before, after) = (risks_lines(titles), risks_lines(titles.push(title)));
    assert(after == before + risk_lines(title));
    assert(after.take(before.len() as int) =~= before);
}

/// The work is listed under its heading: what was rescued, and after it what was not;
/// or, where there was nothing unsaved, that.
pub proof fn work_is_listed_under_its_heading(docs: Seq<DocumentNote>)
    ensures
        work_lines(docs).len() >= 2,
        work_lines(docs)[0] == (LineView { style: Style::Section, text: "Your work"@ }),
        rescued_of(docs).len() == 0 && at_risk_of(docs).len() == 0 ==> work_lines(docs).len() == 2
            && work_lines(docs)[1] == (LineView {
            style: Style::Note,
            text: "Nothing was open with unsaved changes."@,
        }),
        rescued_of(docs).len() > 0 || at_risk_of(docs).len() > 0 ==> work_lines(docs).skip(1)
            == rescues_lines(rescued_of(docs)) + risks_lines(at_risk_of(docs)),
{
    let (rescued, lost) = (rescued_of(docs), at_risk_of(docs));
    if rescued.len() > 0 {
        a_rescued_document_takes_three_lines(rescued.drop_last(), rescued.last());
        assert(rescued.drop_last().push(rescued.last()) =~= rescued);
    }
    if lost.len() > 0 {
        a_lost_document_takes_two_lines(lost.drop_last(), lost.last());
        assert(lost.drop_last().push(lost.last()) =~= lost);
    }
    if rescued.len() > 0 || lost.len() > 0 {
        assert(work_lines(docs).skip(1) =~= rescues_lines(rescued) + risks_lines(lost));
    }
}

/// The content has what the window's 10 points and the box's margins and line leave at
/// top and bottom, and never less than 120 points.
pub proof fn the_content_has_what_the_insets_leave(room: int, frame: DialogFrame)
    ensures
        ({
            let left = room - 200_000 - 2 * frame.margin - 2 * frame.stroke;
            &&& left >= 1_200_000 ==> content_tall(room, frame) == left
            &&& left < 1_200_000 ==> content_tall(room, frame) == 1_200_000
        }),
{
}

/// A picture is drawn 128 points wide and as tall as keeps its shape.
pub proof fn a_picture_keeps_its_shape(width: int, height: int)
    requires
        width >= 1,
        height >= 0,
    ensures
        -width <= 2 * (picture_tall(width, height) * width - 1_280_000 * height) <= width,
{
    let n = 1_280_000 * height;
    crate::ratio::a_quotient_is_the_nearest(n, width);
    assert(width * picture_tall(width, height) == picture_tall(width, height) * width)
        by (nonlinear_arith);
}

/// The heading row is as tall as the tallest of the mark, which is 26 points, the words
/// and the picture.
pub proof fn the_heading_is_as_tall_as_its_tallest(words: Vec2, picture: Option<Vec2>)
    ensures
        ({
            let tall = tallest(words, picture);
            &&& tall >= 260_000
            &&& tall >= words.y
            &&& picture matches Some(size) ==> tall >= size.y
            &&& tall == 260_000 || tall == words.y || (picture matches Some(size) && tall == size.y)
        }),
{
}

/// The mark, ten points and the words stand side by side about the middle of the row, or
/// with a picture about a third of the way in; each of the three is centred on the row's
/// middle, to within a step, and the picture is as far in from the right as the words are
/// from the left.
pub proof fn a_heading_is_centred(row: Rect, words: Vec2, picture: Option<Vec2>)
    requires
        row.in_reach(),
        row.upright(),
        0 <= words.x <= 1_000_000_000_000_000,
        0 <= words.y <= 1_000_000_000_000_000,
        picture matches Some(size) ==> 0 <= size.x <= 1_000_000_000_000_000 && 0 <= size.y
            <= 1_000_000_000_000_000,
    ensures
        ({
            let p = places_of(row, words, picture);
            let (left, right) = (p.mark.min.x - row.min.x, row.max.x - (p.words.x + words.x));
            &&& p.mark.wide() == 260_000
            &&& p.mark.tall() == 260_000
            &&& p.words.x == p.mark.max.x + 100_000
            &&& -2 <= p.mark.min.y + p.mark.max.y - (row.min.y + row.max.y) <= 2
            &&& -2 <= 2 * p.words.y + words.y - (row.min.y + row.max.y) <= 2
            &&& p.picture is Some == picture is Some
            &&& picture is None ==> -4 <= left - right <= 4
            &&& picture matches Some(size) ==> {
                let q = p.picture->0;
                &&& q.wide() == size.x
                &&& q.tall() == size.y
                &&& -2 <= q.min.y + q.max.y - (row.min.y + row.max.y) <= 2
                &&& -9 <= 3 * (p.mark.min.x + p.words.x + words.x - 2 * row.min.x) - 2 * row.wide()
                    <= 9
                &&& -9 <= 3 * (2 * row.max.x - q.min.x - q.max.x) - 2 * row.wide() <= 9
            }
        }),
{
}

/// Only one channel of grey is ink, and it is taken as it is.
pub proof fn only_grey_is_ink(channels: Channels, width: u32, height: u32, data: Seq<u8>)
    ensures
        ink_of(None) is None,
        channels == Channels::Grey ==> ink_of(Some((channels, width, height, data))) == Some(
            (width, height, data),
        ),
        channels != Channels::Grey ==> ink_of(Some((channels, width, height, data))) is None,
{
}

/// A drawing is the ink it was read from, pixel for pixel, and there is none where there
/// is no ink.
pub proof fn a_drawing_is_its_ink(cat: Option<Cat>, width: u32, height: u32, data: Seq<u8>)
    ensures
        is_cat(cat, Some((width, height, data))) ==> cat is Some && cat->0.width == width
            && cat->0.height == height && cat->0.ink@ == data,
        is_cat(cat, None) ==> cat is None,
{
}

} // verus!

//! The layout file: one line for the version, one for each column, one for each
//! panel docked in it, and one for each panel that floats.
//!
//! Two more line shapes are read and never written. `width <side> <points>` is
//! from when a side was one column, and `rail <side>` is from when the tool rail
//! was not a module. A file that names a rail opens with one at that edge; a
//! file this crate writes never does, so a rail that was removed stays removed.

use crate::dock::kind::{PanelKind, Side};
use crate::dock::layout::Layout;
use crate::dock::limits;
use crate::dock::model::{
    column_tally, column_views, columns_sound, float_tally, floats_sound, lemma_widest_minimum,
    no_blank, panel_tally, pruned_columns, with_panels, Column, ColumnView, Docked, Floating,
    LayoutView,
};
use crate::geom::{clamp, clamp_of, round, round_of, Pos2, Rect, Vec2, POINT, REACH};
use crate::metrics;
use crate::number::{
    nearest, number_of, number_text, parse_number, write_number, Decimals, Number, MOST_DECIMALS,
};
use crate::text::{
    chars_of, lines_of, push_text, spells, split_lines, split_words, string_of, texts, trim,
    trim_of, words_of,
};
use vstd::prelude::*;

verus! {

// --- what a file says -------------------------------------------------------

/// What has been read so far.
#[verifier::ext_equal]
pub struct Reading {
    pub layout: LayoutView,
    /// How wide the column is that a side has without a `column` line.
    pub implied_left: i64,
    pub implied_right: i64,
    /// The edge of a rail that is not a module yet.
    pub rail: Option<Side>,
}

impl Reading {
    /// Nothing read yet.
    pub open spec fn start() -> Reading {
        Reading {
            layout: LayoutView {
                left: Seq::empty(),
                right: Seq::empty(),
                floating: Seq::empty(),
                drag: None,
                edit_mode: false,
                dirty: false,
            },
            implied_left: metrics::PANEL,
            implied_right: metrics::PANEL,
            rail: None,
        }
    }

    pub open spec fn implied(self, side: Side) -> i64 {
        match side {
            Side::Left => self.implied_left,
            Side::Right => self.implied_right,
        }
    }

    pub open spec fn with_implied(self, side: Side, width: i64) -> Reading {
        match side {
            Side::Left => Reading { implied_left: width, ..self },
            Side::Right => Reading { implied_right: width, ..self },
        }
    }

    pub open spec fn with_columns(self, side: Side, columns: Seq<ColumnView>) -> Reading {
        Reading { layout: self.layout.with_columns(side, columns), ..self }
    }

    /// Whether a module has been placed already; its first placement counts.
    pub open spec fn seen(self, k: PanelKind) -> bool {
        self.layout.placed(k) > 0
    }
}

/// A number held between two bounds, infinities at either end; nothing for what
/// is not a number.
pub open spec fn bounded_number(n: Number, low: int, high: int) -> Option<int> {
    match n {
        Number::Finite(v) => Some(clamp_of(v as int, low, high)),
        Number::Infinite { negative } => Some(
            if negative {
                low
            } else {
                high
            },
        ),
        Number::NotANumber => None,
    }
}

/// The weight a word gives a panel: one where it is no number, none where it is
/// not a number a panel can have a share by.
pub open spec fn weight_word(word: Seq<char>) -> int {
    match number_of(word, 6) {
        None => limits::WEIGHT_ONE as int,
        Some(n) => match bounded_number(n, 0, limits::WEIGHT_MAX as int) {
            Some(w) => w,
            None => 0,
        },
    }
}

/// The value of a word that is a finite number, to so many decimals.
pub open spec fn finite_word(word: Seq<char>, decimals: int) -> Option<int> {
    match number_of(word, decimals) {
        Some(Number::Finite(v)) => Some(v as int),
        _ => None,
    }
}

/// The width an old file's `width` line gives a side: whole points, within what a
/// side may be.
pub open spec fn side_width_word(word: Seq<char>) -> Option<int> {
    match number_of(word, 0) {
        None => None,
        Some(n) => match bounded_number(
            n,
            limits::SIDEBAR_MIN_WIDTH as int / POINT as int,
            limits::SIDEBAR_MAX_WIDTH as int / POINT as int,
        ) {
            Some(w) => Some(w * POINT),
            None => None,
        },
    }
}

/// A floating panel as a file has it: where it says, at a size within limits.
pub open spec fn float_at(kind: PanelKind, x: int, y: int, w: int, h: int) -> Floating {
    Floating {
        kind,
        rect: Rect::sized(
            Pos2 { x: x as i64, y: y as i64 },
            Vec2 {
                x: clamp_of(
                    w,
                    limits::FLOAT_MIN_WIDTH as int,
                    limits::FLOAT_MAX_WIDTH as int,
                ) as i64,
                y: clamp_of(
                    h,
                    limits::FLOAT_MIN_HEIGHT as int,
                    limits::FLOAT_MAX_HEIGHT as int,
                ) as i64,
            },
        ),
    }
}

/// A `width` line: how wide a side's implicit column is.
pub open spec fn read_width(st: Reading, side: Seq<char>, value: Seq<char>) -> Reading {
    match (Side::named(side), side_width_word(value)) {
        (Some(side), Some(w)) => st.with_implied(side, w as i64),
        _ => st,
    }
}

/// A `column` line: another column, innermost on its side. The floor of its
/// width is applied once its panels are known.
pub open spec fn read_column(st: Reading, side: Seq<char>, width: Seq<char>) -> Reading {
    match (Side::named(side), finite_word(width, 0)) {
        (Some(side), Some(w)) => st.with_columns(
            side,
            st.layout.columns(side).push(
                ColumnView {
                    panels: Seq::empty(),
                    width: (clamp_of(w, 0, limits::SIDEBAR_MAX_WIDTH as int / POINT as int)
                        * POINT) as i64,
                },
            ),
        ),
        _ => st,
    }
}

/// A `dock` line: another panel at the bottom of the side's innermost column,
/// which the side has even when no line has named one.
pub open spec fn read_dock(
    st: Reading,
    side: Seq<char>,
    kind: Seq<char>,
    weight: Seq<char>,
) -> Reading {
    match (Side::named(side), PanelKind::named(kind)) {
        (Some(side), Some(kind)) => if st.seen(kind) {
            st
        } else {
            let columns = if st.layout.columns(side).len() == 0 {
                seq![ColumnView { panels: Seq::empty(), width: st.implied(side) }]
            } else {
                st.layout.columns(side)
            };
            let docked = Docked { kind, weight: weight_word(weight) as i64 };
            st.with_columns(
                side,
                with_panels(columns, columns.len() - 1, columns.last().panels.push(docked)),
            )
        },
        _ => st,
    }
}

/// A `float` line: another floating panel, in front of the others.
pub open spec fn read_float(
    st: Reading,
    kind: Seq<char>,
    x: Seq<char>,
    y: Seq<char>,
    w: Seq<char>,
    h: Seq<char>,
) -> Reading {
    match (
        PanelKind::named(kind),
        finite_word(x, 4),
        finite_word(y, 4),
        finite_word(w, 4),
        finite_word(h, 4),
    ) {
        (Some(kind), Some(x), Some(y), Some(w), Some(h)) => if st.seen(kind) {
            st
        } else {
            Reading {
                layout: LayoutView {
                    floating: st.layout.floating.push(float_at(kind, x, y, w, h)),
                    ..st.layout
                },
                ..st
            }
        },
        _ => st,
    }
}

/// One line, as words. A line of any other shape says nothing.
pub open spec fn read_line(st: Reading, w: Seq<Seq<char>>) -> Reading {
    if w.len() == 2 && w[0] == "rail"@ {
        Reading { rail: Side::named(w[1]), ..st }
    } else if w.len() == 3 && w[0] == "width"@ {
        read_width(st, w[1], w[2])
    } else if w.len() == 3 && w[0] == "column"@ {
        read_column(st, w[1], w[2])
    } else if w.len() == 4 && w[0] == "dock"@ {
        read_dock(st, w[1], w[2], w[3])
    } else if w.len() == 6 && w[0] == "float"@ {
        read_float(st, w[1], w[2], w[3], w[4], w[5])
    } else {
        st
    }
}

/// The first `n` lines, one after the other.
pub open spec fn read_lines(st: Reading, lines: Seq<Seq<char>>, n: int) -> Reading
    decreases n,
{
    if n <= 0 {
        st
    } else {
        read_line(read_lines(st, lines, n - 1), words_of(lines[n - 1]))
    }
}

/// A column with its width held to its limits.
pub open spec fn fitted(c: ColumnView) -> ColumnView {
    ColumnView {
        panels: c.panels,
        width: round_of(
            clamp_of(c.width as int, c.least_width(), limits::SIDEBAR_MAX_WIDTH as int),
        ) as i64,
    }
}

pub open spec fn fitted_columns(columns: Seq<ColumnView>) -> Seq<ColumnView> {
    columns.map_values(|c: ColumnView| fitted(c))
}

/// What a whole file comes to: an old file's rail becomes the outermost column
/// at its edge, columns with nothing in them go, and every width is held to
/// what the modules in the column accept.
pub open spec fn finished(st: Reading) -> LayoutView {
    let railed = match st.rail {
        Some(side) => if st.seen(PanelKind::Tools) {
            st.layout
        } else {
            st.layout.with_columns(
                side,
                st.layout.columns(side).insert(0, ColumnView::of(PanelKind::Tools)),
            )
        },
        None => st.layout,
    };
    let pruned = railed.pruned();
    LayoutView {
        left: fitted_columns(pruned.left),
        right: fitted_columns(pruned.right),
        ..pruned
    }
}

/// The first line at or after `from` that is not blank.
pub open spec fn header_at(lines: Seq<Seq<char>>, from: int) -> int
    decreases lines.len() - from,
{
    if 0 <= from < lines.len() && trim_of(lines[from]).len() == 0 {
        header_at(lines, from + 1)
    } else {
        from
    }
}

pub open spec fn header() -> Seq<char> {
    "umber-layout 1"@
}

/// The layout a file describes; nothing when it does not begin with the version
/// this crate reads.
pub open spec fn config_of(text: Seq<char>) -> Option<LayoutView> {
    let lines = lines_of(text);
    let h = header_at(lines, 0);
    if h < lines.len() && trim_of(lines[h]) == header() {
        let rest = lines.skip(h + 1);
        Some(finished(read_lines(Reading::start(), rest, rest.len() as int)))
    } else {
        None
    }
}

// --- what reading keeps -----------------------------------------------------

pub open spec fn draft_column(c: ColumnView) -> bool {
    &&& 0 <= c.width <= limits::SIDEBAR_MAX_WIDTH
    &&& c.width as int % POINT as int == 0
    &&& forall|i: int|
        0 <= i < c.panels.len() ==> 0 <= (#[trigger] c.panels[i]).weight <= limits::WEIGHT_MAX
}

pub open spec fn draft_columns(columns: Seq<ColumnView>) -> bool {
    forall|i: int| 0 <= i < columns.len() ==> draft_column(#[trigger] columns[i])
}

pub open spec fn draft_width(w: int) -> bool {
    limits::SIDEBAR_MIN_WIDTH <= w <= limits::SIDEBAR_MAX_WIDTH && w % POINT as int == 0
}

/// What holds after every line: one of each module at most, and sizes within
/// what a file may give.
pub open spec fn reading_sound(st: Reading) -> bool {
    &&& forall|k: PanelKind| #[trigger] st.layout.placed(k) <= 1
    &&& draft_columns(st.layout.left)
    &&& draft_columns(st.layout.right)
    &&& floats_sound(st.layout.floating)
    &&& draft_width(st.implied_left as int)
    &&& draft_width(st.implied_right as int)
    &&& st.layout.drag is None
    &&& !st.layout.edit_mode
    &&& !st.layout.dirty
}

proof fn lemma_round_whole(v: int, low: int, high: int)
    requires
        0 <= low <= high,
        low % POINT as int == 0,
        high % POINT as int == 0,
    ensures
        low <= round_of(clamp_of(v, low, high)) <= high,
        round_of(clamp_of(v, low, high)) % POINT as int == 0,
{
}

proof fn lemma_read_dock(
    st: Reading,
    side: Seq<char>,
    kind: Seq<char>,
    weight: Seq<char>,
)
    requires
        reading_sound(st),
    ensures
        reading_sound(read_dock(st, side, kind, weight)),
{
    let next = read_dock(st, side, kind, weight);
    if Side::named(side) is Some && PanelKind::named(kind) is Some && !st.seen(
        PanelKind::named(kind)->0,
    ) {
        let side = Side::named(side)->0;
        let kind = PanelKind::named(kind)->0;
        let blank = ColumnView { panels: Seq::empty(), width: st.implied(side) };
        let columns = if st.layout.columns(side).len() == 0 {
            seq![blank]
        } else {
            st.layout.columns(side)
        };
        let c = columns.len() - 1;
        let docked = Docked { kind, weight: weight_word(weight) as i64 };
        let p = columns[c].panels;
        let d = ColumnView { panels: p.push(docked), width: columns[c].width };
        assert(draft_columns(columns));
        assert(draft_column(columns[c]));
        assert(draft_column(d));
        assert(next.layout.columns(side) =~= columns.update(c, d));
        assert(draft_columns(columns.update(c, d)));
        assert forall|k: PanelKind| #[trigger] next.layout.placed(k) <= 1 by {
            crate::dock::count::lemma_column_tally_update(columns, c, d, k);
            crate::dock::count::lemma_panel_tally_push(p, docked, k);
            assert(column_tally(columns, k) == column_tally(st.layout.columns(side), k)) by {
                if st.layout.columns(side).len() == 0 {
                    crate::dock::count::lemma_column_tally_push(Seq::empty(), blank, k);
                    assert(Seq::<ColumnView>::empty().push(blank) =~= seq![blank]);
                    assert(panel_tally(Seq::<Docked>::empty(), k) == 0);
                }
            }
            assert(st.layout.placed(k) <= 1);
        }
    }
}

proof fn lemma_read_line(st: Reading, w: Seq<Seq<char>>)
    requires
        reading_sound(st),
    ensures
        reading_sound(read_line(st, w)),
{
    let next = read_line(st, w);
    if w.len() == 2 && w[0] == "rail"@ {
        assert(next.layout == st.layout);
    } else if w.len() == 3 && w[0] == "width"@ {
        assert(next.layout == st.layout);
    } else if w.len() == 3 && w[0] == "column"@ {
        if Side::named(w[1]) is Some && finite_word(w[2], 0) is Some {
            let side = Side::named(w[1])->0;
            let columns = st.layout.columns(side);
            let fresh = next.layout.columns(side).last();
            assert(draft_column(fresh));
            assert forall|k: PanelKind| #[trigger] next.layout.placed(k) <= 1 by {
                crate::dock::count::lemma_column_tally_push(columns, fresh, k);
                assert(panel_tally(Seq::<Docked>::empty(), k) == 0);
                assert(st.layout.placed(k) <= 1);
            }
        }
    } else if w.len() == 4 && w[0] == "dock"@ {
        lemma_read_dock(st, w[1], w[2], w[3]);
    } else if w.len() == 6 && w[0] == "float"@ {
        if next != st {
            lemma_number_in_reach(w[2], 4);
            lemma_number_in_reach(w[3], 4);
            lemma_number_in_reach(w[4], 4);
            lemma_number_in_reach(w[5], 4);
            let f = next.layout.floating.last();
            assert forall|k: PanelKind| #[trigger] next.layout.placed(k) <= 1 by {
                crate::dock::count::lemma_float_tally_push(st.layout.floating, f, k);
                assert(st.layout.placed(k) <= 1);
            }
        }
    }
}

pub proof fn lemma_read_lines(st: Reading, lines: Seq<Seq<char>>, n: int)
    requires
        reading_sound(st),
    ensures
        reading_sound(read_lines(st, lines, n)),
    decreases n,
{
    if n > 0 {
        lemma_read_lines(st, lines, n - 1);
        lemma_read_line(read_lines(st, lines, n - 1), words_of(lines[n - 1]));
    }
}

proof fn lemma_fitted(columns: Seq<ColumnView>)
    requires
        draft_columns(columns),
        no_blank(columns),
    ensures
        columns_sound(fitted_columns(columns)),
        no_blank(fitted_columns(columns)),
        forall|k: PanelKind| #[trigger]
            column_tally(fitted_columns(columns), k) == column_tally(columns, k),
    decreases columns.len(),
{
    let next = fitted_columns(columns);
    assert forall|i: int| 0 <= i < next.len() implies (#[trigger] next[i]).sound()
        && next[i].panels.len() > 0 by {
        let c = columns[i];
        assert(draft_column(c));
        assert(c.panels.len() > 0);
        lemma_widest_minimum(c.panels, c.panels.len() as int);
        lemma_round_whole(c.width as int, c.least_width(), limits::SIDEBAR_MAX_WIDTH as int);
        assert forall|j: int| 0 <= j < next[i].panels.len() implies 0 <= (
        #[trigger] next[i].panels[j]).weight <= limits::WEIGHT_LIMIT by {
            assert(c.panels[j].weight <= limits::WEIGHT_MAX);
        }
    }
    assert forall|k: PanelKind| #[trigger] column_tally(next, k) == column_tally(columns, k) by {
        lemma_fitted_tally(columns, k);
    }
}

proof fn lemma_fitted_tally(columns: Seq<ColumnView>, k: PanelKind)
    ensures
        column_tally(fitted_columns(columns), k) == column_tally(columns, k),
    decreases columns.len(),
{
    if columns.len() > 0 {
        assert(fitted_columns(columns).drop_last() =~= fitted_columns(columns.drop_last()));
        lemma_fitted_tally(columns.drop_last(), k);
    }
}

proof fn lemma_draft_pruned(columns: Seq<ColumnView>)
    requires
        draft_columns(columns),
    ensures
        draft_columns(pruned_columns(columns)),
    decreases columns.len(),
{
    if columns.len() > 0 {
        assert(draft_column(columns[columns.len() - 1]));
        assert forall|i: int| 0 <= i < columns.drop_last().len() implies draft_column(
            #[trigger] columns.drop_last()[i],
        ) by {
            assert(draft_column(columns[i]));
        }
        lemma_draft_pruned(columns.drop_last());
    }
}

/// A file gives a layout with one of each module at most, every size in its
/// range and no blank column.
pub proof fn lemma_finished(st: Reading)
    requires
        reading_sound(st),
    ensures
        finished(st).kept(),
        finished(st).one_of_each(),
        finished(st).drag is None,
        !finished(st).edit_mode,
        !finished(st).dirty,
{
    let tools = ColumnView::of(PanelKind::Tools);
    let railed = match st.rail {
        Some(side) => if st.seen(PanelKind::Tools) {
            st.layout
        } else {
            st.layout.with_columns(side, st.layout.columns(side).insert(0, tools))
        },
        None => st.layout,
    };
    assert(draft_columns(railed.left) && draft_columns(railed.right) && (forall|k: PanelKind|
        #[trigger] railed.placed(k) <= 1)) by {
        if st.rail is Some && !st.seen(PanelKind::Tools) {
            let side = st.rail->0;
            let columns = st.layout.columns(side);
            let next = columns.insert(0, tools);
            assert(draft_column(tools));
            assert forall|i: int| 0 <= i < next.len() implies draft_column(
                #[trigger] next[i],
            ) by {
                if i > 0 {
                    assert(next[i] == columns[i - 1]);
                }
            }
            assert forall|k: PanelKind| #[trigger] railed.placed(k) <= 1 by {
                crate::dock::count::lemma_column_tally_insert(columns, 0, tools, k);
                crate::dock::count::lemma_panel_tally_push(Seq::empty(), tools.panels[0], k);
                assert(Seq::<Docked>::empty().push(tools.panels[0]) =~= tools.panels);
                assert(panel_tally(Seq::<Docked>::empty(), k) == 0);
                assert(st.layout.placed(k) <= 1);
            }
        } else {
            assert forall|k: PanelKind| #[trigger] railed.placed(k) <= 1 by {
                assert(st.layout.placed(k) <= 1);
            }
        }
    }
    let pruned = railed.pruned();
    crate::dock::count::lemma_pruned(railed.left);
    crate::dock::count::lemma_pruned(railed.right);
    lemma_draft_pruned(railed.left);
    lemma_draft_pruned(railed.right);
    lemma_fitted(pruned.left);
    lemma_fitted(pruned.right);
    let f = finished(st);
    assert forall|k: PanelKind| #[trigger] f.tally(k) <= 1 by {
        assert(column_tally(f.left, k) == column_tally(pruned.left, k));
        assert(column_tally(f.right, k) == column_tally(pruned.right, k));
        assert(column_tally(pruned.left, k) == column_tally(railed.left, k));
        assert(column_tally(pruned.right, k) == column_tally(railed.right, k));
        assert(railed.placed(k) <= 1);
    }
}

pub proof fn lemma_reading_starts()
    ensures
        reading_sound(Reading::start()),
{
    let st = Reading::start();
    assert forall|k: PanelKind| #[trigger] st.layout.placed(k) <= 1 by {
        assert(column_tally(st.layout.left, k) == 0);
        assert(float_tally(st.layout.floating, k) == 0);
    }
}

// --- what is written --------------------------------------------------------

/// Words in a row, a space between each two.
pub open spec fn line_text(words: Seq<Seq<char>>) -> Seq<char>
    decreases words.len(),
{
    if words.len() == 0 {
        Seq::empty()
    } else if words.len() == 1 {
        words[0]
    } else {
        line_text(words.drop_last()).push(' ') + words.last()
    }
}

/// Lines one below the other, each ended.
pub open spec fn lines_text(lines: Seq<Seq<Seq<char>>>) -> Seq<char>
    decreases lines.len(),
{
    if lines.len() == 0 {
        Seq::empty()
    } else {
        (lines_text(lines.drop_last()) + line_text(lines.last())).push('\n')
    }
}

pub open spec fn column_words(side: Side, width: i64) -> Seq<Seq<char>> {
    seq!["column"@, side.key_text(), number_text(width as int, Decimals::Whole)]
}

/// A weight in the ten-thousandths it is written in.
pub open spec fn weight_steps(weight: int) -> int {
    nearest(weight, 100)
}

pub open spec fn dock_words(side: Side, d: Docked) -> Seq<Seq<char>> {
    seq![
        "dock"@,
        side.key_text(),
        d.kind.key_text(),
        number_text(weight_steps(d.weight as int), Decimals::TenThousandths),
    ]
}

pub open spec fn float_words(f: Floating) -> Seq<Seq<char>> {
    seq![
        "float"@,
        f.kind.key_text(),
        number_text(f.rect.min.x as int, Decimals::Tenths),
        number_text(f.rect.min.y as int, Decimals::Tenths),
        number_text(f.rect.wide(), Decimals::Tenths),
        number_text(f.rect.tall(), Decimals::Tenths),
    ]
}

/// The lines of one stack.
pub open spec fn stack_lines(side: Side, panels: Seq<Docked>) -> Seq<Seq<Seq<char>>> {
    panels.map_values(|d: Docked| dock_words(side, d))
}

/// The lines of one side: each column, and under it its panels. A column with
/// nothing in it is never written.
pub open spec fn side_lines(side: Side, columns: Seq<ColumnView>) -> Seq<Seq<Seq<char>>>
    decreases columns.len(),
{
    if columns.len() == 0 {
        Seq::empty()
    } else {
        let rest = side_lines(side, columns.drop_last());
        let c = columns.last();
        if c.panels.len() == 0 {
            rest
        } else {
            rest.push(column_words(side, c.width)) + stack_lines(side, c.panels)
        }
    }
}

pub open spec fn float_lines(floating: Seq<Floating>) -> Seq<Seq<Seq<char>>> {
    floating.map_values(|f: Floating| float_words(f))
}

/// Everything that is written of a layout.
pub open spec fn config_lines(v: LayoutView) -> Seq<Seq<Seq<char>>> {
    seq![seq!["umber-layout"@, "1"@]] + side_lines(Side::Left, v.left) + side_lines(
        Side::Right,
        v.right,
    ) + float_lines(v.floating)
}

pub open spec fn config_text(v: LayoutView) -> Seq<char> {
    lines_text(config_lines(v))
}

pub proof fn lemma_lines_text_join(a: Seq<Seq<Seq<char>>>, b: Seq<Seq<Seq<char>>>)
    ensures
        lines_text(a + b) == lines_text(a) + lines_text(b),
    decreases b.len(),
{
    if b.len() == 0 {
        assert(a + b =~= a);
        assert(lines_text(a) + lines_text(b) =~= lines_text(a));
    } else {
        assert((a + b).drop_last() =~= a + b.drop_last());
        lemma_lines_text_join(a, b.drop_last());
        assert(lines_text(a + b) =~= lines_text(a) + lines_text(b));
    }
}

pub proof fn lemma_lines_text_push(a: Seq<Seq<Seq<char>>>, w: Seq<Seq<char>>)
    ensures
        lines_text(a.push(w)) == lines_text(a) + line_text(w).push('\n'),
{
    assert(a.push(w).drop_last() =~= a);
    assert(lines_text(a.push(w)) =~= lines_text(a) + line_text(w).push('\n'));
}

/// One more word on a line.
proof fn lemma_line_text_push(words: Seq<Seq<char>>, w: Seq<char>)
    requires
        words.len() > 0,
    ensures
        line_text(words.push(w)) == line_text(words).push(' ') + w,
{
    assert(words.push(w).drop_last() =~= words);
}

// --- writing ----------------------------------------------------------------

fn write_word(out: &mut Vec<char>, word: &str)
    ensures
        final(out)@ == old(out)@.push(' ') + word@,
{
    out.push(' ');
    push_text(out, word);
}

fn write_length(out: &mut Vec<char>, v: i64, decimals: Decimals)
    requires
        -32 * REACH <= v <= 32 * REACH,
    ensures
        final(out)@ == old(out)@.push(' ') + number_text(v as int, decimals),
{
    out.push(' ');
    write_number(v, decimals, out);
}

fn write_column_line(out: &mut Vec<char>, side: Side, width: i64)
    requires
        -32 * REACH <= width <= 32 * REACH,
    ensures
        final(out)@ == old(out)@ + line_text(column_words(side, width)).push('\n'),
{
    let ghost before = out@;
    push_text(out, "column");
    write_word(out, side.key());
    write_length(out, width, Decimals::Whole);
    out.push('\n');
    proof {
        let w = column_words(side, width);
        lemma_line_text_push(seq![w[0]], w[1]);
        assert(seq![w[0]].push(w[1]) =~= seq![w[0], w[1]]);
        lemma_line_text_push(seq![w[0], w[1]], w[2]);
        assert(seq![w[0], w[1]].push(w[2]) =~= w);
        assert(out@ =~= before + line_text(w).push('\n'));
    }
}

fn written_steps(weight: i64) -> (r: i64)
    requires
        0 <= weight <= limits::WEIGHT_LIMIT,
    ensures
        r == weight_steps(weight as int),
        0 <= r <= 32 * REACH,
{
    let down: i64 = weight / 100;
    let rest: i64 = weight % 100;
    if 2 * rest < 100 || (2 * rest == 100 && down % 2 == 0) {
        down
    } else {
        down + 1
    }
}

fn write_dock_line(out: &mut Vec<char>, side: Side, d: Docked)
    requires
        0 <= d.weight <= limits::WEIGHT_LIMIT,
    ensures
        final(out)@ == old(out)@ + line_text(dock_words(side, d)).push('\n'),
{
    let ghost before = out@;
    push_text(out, "dock");
    write_word(out, side.key());
    write_word(out, d.kind.key());
    write_length(out, written_steps(d.weight), Decimals::TenThousandths);
    out.push('\n');
    proof {
        let w = dock_words(side, d);
        lemma_line_text_push(seq![w[0]], w[1]);
        assert(seq![w[0]].push(w[1]) =~= seq![w[0], w[1]]);
        lemma_line_text_push(seq![w[0], w[1]], w[2]);
        assert(seq![w[0], w[1]].push(w[2]) =~= seq![w[0], w[1], w[2]]);
        lemma_line_text_push(seq![w[0], w[1], w[2]], w[3]);
        assert(seq![w[0], w[1], w[2]].push(w[3]) =~= w);
        assert(out@ =~= before + line_text(w).push('\n'));
    }
}

fn write_float_line(out: &mut Vec<char>, f: Floating)
    requires
        f.rect.bounded(),
    ensures
        final(out)@ == old(out)@ + line_text(float_words(f)).push('\n'),
{
    let ghost before = out@;
    push_text(out, "float");
    write_word(out, f.kind.key());
    write_length(out, f.rect.min.x, Decimals::Tenths);
    write_length(out, f.rect.min.y, Decimals::Tenths);
    write_length(out, f.rect.width(), Decimals::Tenths);
    write_length(out, f.rect.height(), Decimals::Tenths);
    out.push('\n');
    proof {
        let w = float_words(f);
        let a = seq![w[0]];
        let b = a.push(w[1]);
        let c = b.push(w[2]);
        let d = c.push(w[3]);
        let e = d.push(w[4]);
        lemma_line_text_push(a, w[1]);
        lemma_line_text_push(b, w[2]);
        lemma_line_text_push(c, w[3]);
        lemma_line_text_push(d, w[4]);
        lemma_line_text_push(e, w[5]);
        assert(e.push(w[5]) =~= w);
        assert(out@ =~= before + line_text(w).push('\n'));
    }
}

fn write_side(out: &mut Vec<char>, side: Side, columns: &Vec<Column>)
    requires
        columns_sound(column_views(columns@)),
    ensures
        final(out)@ == old(out)@ + lines_text(side_lines(side, column_views(columns@))),
{
    let ghost before = out@;
    let ghost views = column_views(columns@);
    let mut c: usize = 0;
    assert(views.take(0) =~= Seq::<ColumnView>::empty());
    assert(out@ =~= before + lines_text(side_lines(side, views.take(0))));
    while c < columns.len()
        invariant
            0 <= c <= columns@.len(),
            views == column_views(columns@),
            columns_sound(views),
            out@ == before + lines_text(side_lines(side, views.take(c as int))),
        decreases columns@.len() - c,
    {
        let ghost done = side_lines(side, views.take(c as int));
        assert(views[c as int] == columns@[c as int]@);
        assert(views[c as int].sound());
        assert(views.take(c + 1).drop_last() =~= views.take(c as int));
        let panels = &columns[c].panels;
        if panels.len() > 0 {
            write_column_line(out, side, columns[c].width);
            let ghost head = done.push(column_words(side, columns@[c as int].width));
            proof {
                lemma_lines_text_push(done, column_words(side, columns@[c as int].width));
                assert(stack_lines(side, panels@.take(0)) =~= Seq::<Seq<Seq<char>>>::empty());
                assert(head + stack_lines(side, panels@.take(0)) =~= head);
                assert(out@ =~= before + lines_text(head));
            }
            let mut i: usize = 0;
            while i < panels.len()
                invariant
                    0 <= i <= panels@.len(),
                    forall|j: int|
                        0 <= j < panels@.len() ==> 0 <= (#[trigger] panels@[j]).weight <= limits::WEIGHT_LIMIT,
                    out@ == before + lines_text(
                        head + stack_lines(side, panels@.take(i as int)),
                    ),
                decreases panels@.len() - i,
            {
                assert(panels@[i as int].weight <= limits::WEIGHT_LIMIT);
                let ghost so_far = head + stack_lines(side, panels@.take(i as int));
                write_dock_line(out, side, panels[i]);
                proof {
                    lemma_lines_text_push(so_far, dock_words(side, panels@[i as int]));
                    assert(so_far.push(dock_words(side, panels@[i as int])) =~= head + stack_lines(
                        side,
                        panels@.take(i + 1),
                    ));
                    assert(out@ =~= before + lines_text(
                        head + stack_lines(side, panels@.take(i + 1)),
                    ));
                }
                i += 1;
            }
            assert(panels@.take(panels@.len() as int) =~= panels@);
        }
        c += 1;
    }
    assert(views.take(views.len() as int) =~= views);
}

impl Layout {
    /// Write the config file's text form.
    pub fn to_config(&self) -> (r: String)
        requires
            self@.sound(),
        ensures
            r@ == config_text(self@),
    {
        let mut out: Vec<char> = Vec::new();
        let ghost head = seq![seq!["umber-layout"@, "1"@]];
        let ghost left = side_lines(Side::Left, self@.left);
        let ghost right = side_lines(Side::Right, self@.right);
        push_text(&mut out, "umber-layout");
        write_word(&mut out, "1");
        out.push('\n');
        proof {
            let w = head[0];
            lemma_line_text_push(seq![w[0]], w[1]);
            assert(seq![w[0]].push(w[1]) =~= w);
            lemma_lines_text_push(Seq::empty(), w);
            assert(Seq::<Seq<Seq<char>>>::empty().push(w) =~= head);
            assert(out@ =~= lines_text(head));
        }
        write_side(&mut out, Side::Left, &self.left);
        write_side(&mut out, Side::Right, &self.right);
        let ghost columns = head + left + right;
        proof {
            lemma_lines_text_join(head, left);
            lemma_lines_text_join(head + left, right);
            assert(columns + float_lines(self.floating@.take(0)) =~= columns);
        }
        let mut i: usize = 0;
        while i < self.floating.len()
            invariant
                0 <= i <= self.floating@.len(),
                floats_sound(self.floating@),
                out@ == lines_text(columns + float_lines(self.floating@.take(i as int))),
            decreases self.floating@.len() - i,
        {
            assert(self.floating@[i as int].rect.bounded());
            let ghost so_far = columns + float_lines(self.floating@.take(i as int));
            write_float_line(&mut out, self.floating[i]);
            proof {
                lemma_lines_text_push(so_far, float_words(self.floating@[i as int]));
                assert(so_far.push(float_words(self.floating@[i as int])) =~= columns
                    + float_lines(self.floating@.take(i + 1)));
            }
            i += 1;
        }
        assert(self.floating@.take(self.floating@.len() as int) =~= self.floating@);
        string_of(&out)
    }
}

// --- reading ----------------------------------------------------------------

struct Reader {
    layout: Layout,
    implied_left: i64,
    implied_right: i64,
    rail: Option<Side>,
}

impl View for Reader {
    type V = Reading;

    closed spec fn view(&self) -> Reading {
        Reading {
            layout: self.layout@,
            implied_left: self.implied_left,
            implied_right: self.implied_right,
            rail: self.rail,
        }
    }
}

fn hold(n: Number, low: i64, high: i64) -> (r: Option<i64>)
    requires
        low <= high,
    ensures
        match r {
            Some(v) => bounded_number(n, low as int, high as int) == Some(v as int),
            None => bounded_number(n, low as int, high as int) is None,
        },
{
    match n {
        Number::Finite(v) => Some(clamp(v, low, high)),
        Number::Infinite { negative } => Some(
            if negative {
                low
            } else {
                high
            },
        ),
        Number::NotANumber => None,
    }
}

fn parse_finite(word: &Vec<char>, decimals: usize) -> (r: Option<i64>)
    requires
        decimals <= MOST_DECIMALS,
    ensures
        match r {
            Some(v) => finite_word(word@, decimals as int) == Some(v as int) && -REACH <= v <= REACH,
            None => finite_word(word@, decimals as int) is None,
        },
{
    match parse_number(word, decimals) {
        Some(Number::Finite(v)) => {
            proof {
                lemma_number_in_reach(word@, decimals as int);
            }
            Some(v)
        },
        _ => None,
    }
}

proof fn lemma_number_in_reach(s: Seq<char>, decimals: int)
    ensures
        number_of(s, decimals) matches Some(Number::Finite(v)) ==> -REACH <= v <= REACH,
{
    reveal(number_of);
}

fn parse_weight(word: &Vec<char>) -> (r: i64)
    ensures
        r == weight_word(word@),
{
    match parse_number(word, 6) {
        None => limits::WEIGHT_ONE,
        Some(n) => match hold(n, 0, limits::WEIGHT_MAX) {
            Some(w) => w,
            None => 0,
        },
    }
}

fn parse_side_width(word: &Vec<char>) -> (r: Option<i64>)
    ensures
        match r {
            Some(v) => side_width_word(word@) == Some(v as int),
            None => side_width_word(word@) is None,
        },
{
    match parse_number(word, 0) {
        None => None,
        Some(n) => match hold(
            n,
            limits::SIDEBAR_MIN_WIDTH / POINT,
            limits::SIDEBAR_MAX_WIDTH / POINT,
        ) {
            Some(w) => Some(w * POINT),
            None => None,
        },
    }
}

impl Reader {
    fn read_width(&mut self, side: &Vec<char>, value: &Vec<char>)
        ensures
            final(self)@ == read_width(old(self)@, side@, value@),
    {
        if let (Some(side), Some(w)) = (Side::from_word(side), parse_side_width(value)) {
            match side {
                Side::Left => {
                    self.implied_left = w;
                },
                Side::Right => {
                    self.implied_right = w;
                },
            }
        }
    }

    fn read_column(&mut self, side: &Vec<char>, width: &Vec<char>)
        ensures
            final(self)@ == read_column(old(self)@, side@, width@),
    {
        if let (Some(side), Some(w)) = (Side::from_word(side), parse_finite(width, 0)) {
            let column = Column {
                panels: Vec::new(),
                width: clamp(w, 0, limits::SIDEBAR_MAX_WIDTH / POINT) * POINT,
            };
            let count: usize = self.layout.columns(side).len();
            let ghost columns = self.layout@.columns(side);
            let ghost fresh = column@;
            self.layout.add_column(side, count, column);
            proof {
                assert(fresh.panels =~= Seq::<Docked>::empty());
                assert(columns.insert(columns.len() as int, fresh) =~= columns.push(fresh));
            }
        }
    }

    fn read_dock(&mut self, side: &Vec<char>, kind: &Vec<char>, weight: &Vec<char>)
        requires
            reading_sound(old(self)@),
        ensures
            final(self)@ == read_dock(old(self)@, side@, kind@, weight@),
    {
        let ghost before = self@;
        if let (Some(side), Some(kind)) = (Side::from_word(side), PanelKind::from_word(kind)) {
            proof {
                crate::dock::count::lemma_place_found(self.layout@, kind);
            }
            if self.layout.is_open(kind) {
                return ;
            }
            let docked = Docked { kind, weight: parse_weight(weight) };
            let mut count: usize = self.layout.columns(side).len();
            if count == 0 {
                let width: i64 = match side {
                    Side::Left => self.implied_left,
                    Side::Right => self.implied_right,
                };
                let blank = Column { panels: Vec::new(), width };
                let ghost fresh = blank@;
                self.layout.add_column(side, 0, blank);
                count = 1;
                proof {
                    let columns = before.layout.columns(side);
                    assert(fresh.panels =~= Seq::<Docked>::empty());
                    assert(columns.insert(0, fresh) =~= seq![fresh]);
                }
            }
            let ghost columns = self.layout@.columns(side);
            assert(columns == if before.layout.columns(side).len() == 0 {
                seq![ColumnView { panels: Seq::empty(), width: before.implied(side) }]
            } else {
                before.layout.columns(side)
            });
            self.layout.append(side, count - 1, docked);
        }
    }

    fn read_float(
        &mut self,
        kind: &Vec<char>,
        x: &Vec<char>,
        y: &Vec<char>,
        w: &Vec<char>,
        h: &Vec<char>,
    )
        ensures
            final(self)@ == read_float(old(self)@, kind@, x@, y@, w@, h@),
    {
        let ghost before = self@;
        if let Some(kind) = PanelKind::from_word(kind) {
            if let (Some(x), Some(y), Some(w), Some(h)) = (
                parse_finite(x, 4),
                parse_finite(y, 4),
                parse_finite(w, 4),
                parse_finite(h, 4),
            ) {
                proof {
                    crate::dock::count::lemma_place_found(self.layout@, kind);
                }
                if self.layout.is_open(kind) {
                    return ;
                }
                let rect = Rect::from_min_size(
                    Pos2 { x, y },
                    Vec2 {
                        x: clamp(w, limits::FLOAT_MIN_WIDTH, limits::FLOAT_MAX_WIDTH),
                        y: clamp(h, limits::FLOAT_MIN_HEIGHT, limits::FLOAT_MAX_HEIGHT),
                    },
                );
                self.layout.floating.push(Floating { kind, rect });
                assert(self@ =~= Reading {
                    layout: LayoutView {
                        floating: before.layout.floating.push(Floating { kind, rect }),
                        ..before.layout
                    },
                    ..before
                });
            }
        }
    }

    fn read_line(&mut self, w: &Vec<Vec<char>>)
        requires
            reading_sound(old(self)@),
        ensures
            final(self)@ == read_line(old(self)@, texts(w@)),
    {
        assert(forall|i: int| 0 <= i < w@.len() ==> #[trigger] texts(w@)[i] == w@[i]@);
        if w.len() == 2 && spells(&w[0], "rail") {
            self.rail = Side::from_word(&w[1]);
        } else if w.len() == 3 && spells(&w[0], "width") {
            self.read_width(&w[1], &w[2]);
        } else if w.len() == 3 && spells(&w[0], "column") {
            self.read_column(&w[1], &w[2]);
        } else if w.len() == 4 && spells(&w[0], "dock") {
            self.read_dock(&w[1], &w[2], &w[3]);
        } else if w.len() == 6 && spells(&w[0], "float") {
            self.read_float(&w[1], &w[2], &w[3], &w[4], &w[5]);
        }
    }
}

/// Hold every column's width to its limits.
fn fit_columns(columns: &mut Vec<Column>)
    requires
        draft_columns(column_views(old(columns)@)),
    ensures
        column_views(final(columns)@) == fitted_columns(column_views(old(columns)@)),
{
    let ghost before = columns@;
    let mut i: usize = 0;
    while i < columns.len()
        invariant
            0 <= i <= columns@.len(),
            columns@.len() == before.len(),
            draft_columns(column_views(before)),
            forall|j: int| 0 <= j < i ==> (#[trigger] columns@[j])@ == fitted(before[j]@),
            forall|j: int| i <= j < columns@.len() ==> #[trigger] columns@[j] == before[j],
        decreases columns@.len() - i,
    {
        assert(draft_column(column_views(before)[i as int]));
        let floor: i64 = columns[i].min_width();
        let width: i64 = round(clamp(columns[i].width, floor, limits::SIDEBAR_MAX_WIDTH));
        columns[i].width = width;
        i += 1;
    }
    assert(column_views(columns@) =~= fitted_columns(column_views(before)));
}

impl Layout {
    /// Read the config file's text form.
    ///
    /// Deliberately forgiving: unknown lines are skipped and a panel named
    /// twice keeps its first placement. A wrong version line is fatal, because
    /// silently reinterpreting another format is how a layout ends up subtly
    /// wrong instead of obviously reset.
    pub fn from_config(text: &str) -> (r: Option<Layout>)
        ensures
            match r {
                Some(layout) => config_of(text@) == Some(layout@),
                None => config_of(text@) is None,
            },
            r is Some ==> r->0@.sound() && r->0@.one_of_each(),
    {
        let chars = chars_of(text);
        let lines = split_lines(&chars);
        let ghost views = texts(lines@);
        let mut h: usize = 0;
        while h < lines.len()
            invariant
                0 <= h <= lines@.len(),
                views == texts(lines@),
                views == lines_of(text@),
                header_at(views, 0) == header_at(views, h as int),
            decreases lines@.len() - h,
        {
            assert(views[h as int] == lines@[h as int]@);
            let trimmed = trim(&lines[h]);
            if trimmed.len() > 0 {
                if !spells(&trimmed, "umber-layout 1") {
                    return None;
                }
                return Some(Layout::from_lines(&lines, h + 1));
            }
            h += 1;
        }
        None
    }

    /// Read the lines behind the version.
    fn from_lines(lines: &Vec<Vec<char>>, from: usize) -> (r: Layout)
        requires
            from <= lines@.len(),
        ensures
            ({
                let rest = texts(lines@).skip(from as int);
                r@ == finished(read_lines(Reading::start(), rest, rest.len() as int))
            }),
            r@.sound(),
            r@.one_of_each(),
    {
        let ghost rest = texts(lines@).skip(from as int);
        let mut reader = Reader {
            layout: Layout {
                left: Vec::new(),
                right: Vec::new(),
                floating: Vec::new(),
                drag: None,
                edit_mode: false,
                dirty: false,
            },
            implied_left: metrics::PANEL,
            implied_right: metrics::PANEL,
            rail: None,
        };
        proof {
            assert(reader@.layout =~= Reading::start().layout);
            assert(reader@ =~= Reading::start());
            lemma_reading_starts();
        }
        let mut i: usize = from;
        while i < lines.len()
            invariant
                from <= i <= lines@.len(),
                rest == texts(lines@).skip(from as int),
                reader@ == read_lines(Reading::start(), rest, i - from),
                reading_sound(Reading::start()),
            decreases lines@.len() - i,
        {
            proof {
                lemma_read_lines(Reading::start(), rest, i - from);
                assert(rest[i - from] == lines@[i as int]@);
            }
            let words = split_words(&lines[i]);
            reader.read_line(&words);
            i += 1;
        }
        let ghost st = reader@;
        proof {
            lemma_read_lines(Reading::start(), rest, rest.len() as int);
            lemma_finished(st);
        }
        let Reader { mut layout, rail, .. } = reader;
        if let Some(side) = rail {
            proof {
                crate::dock::count::lemma_place_found(layout@, PanelKind::Tools);
            }
            if !layout.is_open(PanelKind::Tools) {
                layout.add_column(side, 0, Column::of(PanelKind::Tools));
            }
        }
        let ghost railed = layout@;
        proof {
            lemma_railed_draft(st);
        }
        layout.prune();
        proof {
            lemma_draft_pruned(railed.left);
            lemma_draft_pruned(railed.right);
        }
        fit_columns(&mut layout.left);
        fit_columns(&mut layout.right);
        assert(layout@ =~= finished(st));
        let left: usize = layout.left.len();
        let right: usize = layout.right.len();
        assert(layout@.left.len() == left && layout@.right.len() == right);
        layout
    }
}

proof fn lemma_railed_draft(st: Reading)
    requires
        reading_sound(st),
    ensures
        forall|side: Side|
            draft_columns(
                (#[trigger] st.layout.columns(side)).insert(0, ColumnView::of(PanelKind::Tools)),
            ),
{
    let tools = ColumnView::of(PanelKind::Tools);
    assert forall|side: Side|
        draft_columns((#[trigger] st.layout.columns(side)).insert(0, tools)) by {
        let columns = st.layout.columns(side);
        let next = columns.insert(0, tools);
        assert(draft_column(tools));
        assert forall|i: int| 0 <= i < next.len() implies draft_column(#[trigger] next[i]) by {
            if i > 0 {
                assert(next[i] == columns[i - 1]);
            }
        }
    }
}

} // verus!

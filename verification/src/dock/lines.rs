//! What each line of a saved layout says, and what saving leaves as it was.

use crate::dock::config::{
    finished, fitted, fitted_columns, header, header_at, read_line, Reading,
};
use crate::dock::kind::{kind_keys_round_trip, side_keys_round_trip, PanelKind, Side};
use crate::dock::model::{
    lemma_widest_found, lemma_widest_minimum, pruned_columns, ColumnView, Floating, LayoutView,
};
use crate::dock::saved::{saved_column, saved_float, saved_panel};
use crate::number::{number_of, writing_keeps_a_length_to_its_decimals, Number};
use crate::text::trim_of;
use vstd::prelude::*;

verus! {

proof fn lemma_keywords()
    ensures
        "rail"@ != "width"@,
        "rail"@ != "column"@,
        "width"@ != "column"@,
{
    reveal_strlit("rail");
    reveal_strlit("width");
    reveal_strlit("column");
    assert("rail"@[0] == 'r');
    assert("width"@[0] == 'w');
    assert("column"@[0] == 'c');
}

/// A file that says nothing lays out nothing: no column, no float; and a column that it
/// does not size is as wide as a panel.
pub proof fn nothing_read_is_an_empty_layout()
    ensures
        Reading::start().layout.left.len() == 0,
        Reading::start().layout.right.len() == 0,
        Reading::start().layout.floating.len() == 0,
        Reading::start().layout.drag is None,
        !Reading::start().layout.edit_mode,
        !Reading::start().layout.dirty,
        Reading::start().implied_left == 2_640_000,
        Reading::start().implied_right == 2_640_000,
        Reading::start().rail is None,
{
}

/// A line of another length, or that begins with another word, says nothing.
pub proof fn other_lines_say_nothing(st: Reading, w: Seq<Seq<char>>)
    ensures
        w.len() < 2 || w.len() == 5 || w.len() > 6 ==> read_line(st, w) == st,
        w.len() > 0 && w[0] != "rail"@ && w[0] != "width"@ && w[0] != "column"@ && w[0] != "dock"@
            && w[0] != "float"@ ==> read_line(st, w) == st,
{
}

/// `rail` and a side put a rail at that edge; a side that is none takes it away.
pub proof fn a_rail_line_names_its_edge(st: Reading, side: Side, other: Seq<char>)
    ensures
        read_line(st, seq!["rail"@, side.key_text()]) == (Reading { rail: Some(side), ..st }),
        Side::named(other) is None ==> read_line(st, seq!["rail"@, other]) == (Reading {
            rail: None,
            ..st
        }),
{
    side_keys_round_trip(side);
}

/// `width`, a side and a number of points size the column that side has without a line
/// of its own, between 190 and 460, and nothing else.
pub proof fn a_width_line_sizes_its_side(st: Reading, side: Side, word: Seq<char>, points: i64)
    requires
        number_of(word, 0) == Some(Number::Finite(points)),
    ensures
        ({
            let after = read_line(st, seq!["width"@, side.key_text(), word]);
            let wide = if side is Left {
                after.implied_left
            } else {
                after.implied_right
            };
            &&& 190 <= points <= 460 ==> wide == points * 10_000
            &&& points < 190 ==> wide == 1_900_000
            &&& points > 460 ==> wide == 4_600_000
            &&& side is Left ==> after.implied_right == st.implied_right
            &&& side is Right ==> after.implied_left == st.implied_left
            &&& after.layout == st.layout
            &&& after.rail == st.rail
        }),
{
    side_keys_round_trip(side);
    lemma_keywords();
}

/// `column`, a side and a number of points open an empty column as wide as that, inside
/// those the side has; never below nothing nor above 460 points.
pub proof fn a_column_line_opens_a_column(st: Reading, side: Side, word: Seq<char>, points: i64)
    requires
        number_of(word, 0) == Some(Number::Finite(points)),
    ensures
        ({
            let after = read_line(st, seq!["column"@, side.key_text(), word]);
            let columns = after.layout.columns(side);
            &&& columns.len() == st.layout.columns(side).len() + 1
            &&& columns.drop_last() == st.layout.columns(side)
            &&& columns.last().panels.len() == 0
            &&& 0 <= points <= 460 ==> columns.last().width == points * 10_000
            &&& points < 0 ==> columns.last().width == 0
            &&& points > 460 ==> columns.last().width == 4_600_000
            &&& after.layout.columns(side.opposite()) == st.layout.columns(side.opposite())
            &&& after.layout.floating == st.layout.floating
            &&& after.rail == st.rail
            &&& after.implied_left == st.implied_left
            &&& after.implied_right == st.implied_right
        }),
{
    side_keys_round_trip(side);
    lemma_keywords();
    let after = read_line(st, seq!["column"@, side.key_text(), word]);
    assert(after.layout.columns(side).drop_last() =~= st.layout.columns(side));
}

/// `dock`, a side, a module and a weight put the module at the bottom of the side's
/// innermost column with that weight, between none and a thousand; a word that is no
/// number gives it a weight of one. A side without a column gets one for it. Nothing else
/// changes.
pub proof fn a_dock_line_puts_a_module_at_the_bottom(
    st: Reading,
    side: Side,
    k: PanelKind,
    word: Seq<char>,
)
    requires
        !st.seen(k),
    ensures
        ({
            let after = read_line(st, seq!["dock"@, side.key_text(), k.key_text(), word]);
            let (was, columns) = (st.layout.columns(side), after.layout.columns(side));
            let docked = columns.last().panels.last();
            &&& was.len() > 0 ==> {
                &&& columns.len() == was.len()
                &&& columns.drop_last() == was.drop_last()
                &&& columns.last().panels.drop_last() == was.last().panels
                &&& columns.last().width == was.last().width
            }
            &&& was.len() == 0 ==> {
                &&& columns.len() == 1
                &&& columns.last().panels.len() == 1
                &&& columns.last().width == if side is Left {
                    st.implied_left
                } else {
                    st.implied_right
                }
            }
            &&& docked.kind == k
            &&& number_of(word, 6) is None ==> docked.weight == 1_000_000
            &&& number_of(word, 6) matches Some(Number::Finite(v)) ==> {
                &&& 0 <= v <= 1_000_000_000 ==> docked.weight == v
                &&& v < 0 ==> docked.weight == 0
                &&& v > 1_000_000_000 ==> docked.weight == 1_000_000_000
            }
            &&& number_of(word, 6) matches Some(Number::Infinite { negative }) ==> docked.weight
                == if negative {
                0int
            } else {
                1_000_000_000
            }
            &&& number_of(word, 6) == Some(Number::NotANumber) ==> docked.weight == 0
            &&& after.layout.columns(side.opposite()) == st.layout.columns(side.opposite())
            &&& after.layout.floating == st.layout.floating
            &&& after.rail == st.rail
        }),
{
    side_keys_round_trip(side);
    kind_keys_round_trip(k);
    let after = read_line(st, seq!["dock"@, side.key_text(), k.key_text(), word]);
    let (was, columns) = (st.layout.columns(side), after.layout.columns(side));
    if was.len() > 0 {
        assert(columns.drop_last() =~= was.drop_last());
        assert(columns.last().panels.drop_last() =~= was.last().panels);
    }
}

/// A module's first line counts, and a line for one that has been placed says nothing.
pub proof fn a_modules_first_line_counts(st: Reading, k: PanelKind, a: Seq<char>, rest: Seq<Seq<char>>)
    requires
        st.seen(k),
        rest.len() == 4,
    ensures
        read_line(st, seq!["dock"@, a, k.key_text(), rest[0]]) == st,
        read_line(st, seq!["float"@, k.key_text(), rest[0], rest[1], rest[2], rest[3]]) == st,
{
    kind_keys_round_trip(k);
}

/// `float`, a module, a place and a size put the module there, in front of the other
/// floats, at that size within what a float may be.
pub proof fn a_float_line_puts_a_module_in_front(
    st: Reading,
    k: PanelKind,
    x: Seq<char>,
    y: Seq<char>,
    w: Seq<char>,
    h: Seq<char>,
    at: (i64, i64),
    size: (i64, i64),
)
    requires
        !st.seen(k),
        number_of(x, 4) == Some(Number::Finite(at.0)),
        number_of(y, 4) == Some(Number::Finite(at.1)),
        number_of(w, 4) == Some(Number::Finite(size.0)),
        number_of(h, 4) == Some(Number::Finite(size.1)),
        -1_000_000_000_000_000 <= at.0 <= 1_000_000_000_000_000,
        -1_000_000_000_000_000 <= at.1 <= 1_000_000_000_000_000,
    ensures
        ({
            let after = read_line(st, seq!["float"@, k.key_text(), x, y, w, h]);
            let f = after.layout.floating.last();
            &&& after.layout.floating.drop_last() == st.layout.floating
            &&& f.kind == k
            &&& f.rect.min.x == at.0
            &&& f.rect.min.y == at.1
            &&& 1_900_000 <= size.0 <= 7_200_000 ==> f.rect.wide() == size.0
            &&& size.0 < 1_900_000 ==> f.rect.wide() == 1_900_000
            &&& size.0 > 7_200_000 ==> f.rect.wide() == 7_200_000
            &&& 1_300_000 <= size.1 <= 9_000_000 ==> f.rect.tall() == size.1
            &&& size.1 < 1_300_000 ==> f.rect.tall() == 1_300_000
            &&& size.1 > 9_000_000 ==> f.rect.tall() == 9_000_000
            &&& after.layout.left == st.layout.left
            &&& after.layout.right == st.layout.right
            &&& after.rail == st.rail
        }),
{
    kind_keys_round_trip(k);
    let after = read_line(st, seq!["float"@, k.key_text(), x, y, w, h]);
    assert(after.layout.floating.drop_last() =~= st.layout.floating);
}

/// A float whose place or size is not a finite number is left out.
pub proof fn a_float_needs_finite_numbers(st: Reading, w: Seq<Seq<char>>, i: int)
    requires
        w.len() == 6,
        w[0] == "float"@,
        2 <= i < 6,
        !(number_of(w[i], 4) matches Some(Number::Finite(_))),
    ensures
        read_line(st, w) == st,
{
    reveal_strlit("float");
}

/// A line that names no side or no module that there is says nothing.
pub proof fn unknown_names_say_nothing(st: Reading, a: Seq<char>, b: Seq<char>, c: Seq<char>)
    ensures
        Side::named(a) is None ==> read_line(st, seq!["width"@, a, b]) == st,
        Side::named(a) is None ==> read_line(st, seq!["column"@, a, b]) == st,
        Side::named(a) is None || PanelKind::named(b) is None ==> read_line(
            st,
            seq!["dock"@, a, b, c],
        ) == st,
{
    lemma_keywords();
}

/// A column that was read is as wide as its file says, but at least what its modules need
/// and at most 460 points; it keeps its panels.
pub proof fn a_read_column_is_held_to_its_limits(c: ColumnView)
    requires
        c.panels.len() > 0,
    ensures
        fitted(c).panels == c.panels,
        c.least_width() <= c.width <= 4_600_000 && c.width as int % 10_000 == 0 ==> fitted(c).width
            == c.width,
        c.width < c.least_width() ==> fitted(c).width == c.least_width(),
        c.width > 4_600_000 ==> fitted(c).width == 4_600_000,
{
    lemma_widest_minimum(c.panels, c.panels.len() as int);
}

/// A column needs what the most demanding of its modules does.
pub proof fn a_column_needs_what_its_modules_do(c: ColumnView)
    requires
        c.panels.len() > 0,
    ensures
        forall|i: int|
            0 <= i < c.panels.len() ==> (#[trigger] c.panels[i]).kind.least_width()
                <= c.least_width(),
        exists|i: int|
            0 <= i < c.panels.len() && (#[trigger] c.panels[i]).kind.least_width()
                == c.least_width(),
{
    let j = lemma_widest_found(c.panels, c.panels.len() as int);
    assert(c.panels[j].kind.least_width() == c.least_width());
}

/// Columns with nothing in them go, the others stay, in their order.
pub proof fn only_blank_columns_go(columns: Seq<ColumnView>, c: ColumnView)
    ensures
        pruned_columns(Seq::<ColumnView>::empty()).len() == 0,
        c.panels.len() == 0 ==> pruned_columns(columns.push(c)) == pruned_columns(columns),
        c.panels.len() > 0 ==> pruned_columns(columns.push(c)) == pruned_columns(columns).push(c),
{
    assert(columns.push(c).drop_last() =~= columns);
}

/// Where no rail was named, or the tools have their own place, a file comes to the columns
/// its lines name, and to its floats.
pub proof fn a_file_comes_to_what_its_lines_name(st: Reading, side: Side)
    requires
        st.rail is None || st.seen(PanelKind::Tools),
    ensures
        finished(st).columns(side) == fitted_columns(pruned_columns(st.layout.columns(side))),
        finished(st).floating == st.layout.floating,
        finished(st).drag == st.layout.drag,
        finished(st).edit_mode == st.layout.edit_mode,
{
}

/// The first line that is not blank is the one that has to name the version.
pub proof fn the_version_is_on_the_first_line(lines: Seq<Seq<char>>, from: int)
    requires
        0 <= from <= lines.len(),
    ensures
        ({
            let at = header_at(lines, from);
            &&& from <= at <= lines.len()
            &&& at < lines.len() ==> trim_of(lines[at]).len() > 0
            &&& forall|i: int| from <= i < at ==> trim_of(#[trigger] lines[i]).len() == 0
        }),
        header() == "umber-layout 1"@,
    decreases lines.len() - from,
{
    if from < lines.len() && trim_of(lines[from]).len() == 0 {
        the_version_is_on_the_first_line(lines, from + 1);
    }
}

/// Saving keeps a column's width, its modules and their order, and each weight to the
/// nearest ten-thousandth.
pub proof fn saving_keeps_a_column(c: ColumnView, i: int)
    requires
        0 <= i < c.panels.len(),
        c.panels[i].weight >= 0,
        c.panels[i].weight <= 1_000_000_000,
    ensures
        saved_column(c).width == c.width,
        saved_column(c).panels.len() == c.panels.len(),
        saved_column(c).panels[i].kind == c.panels[i].kind,
        -50 <= saved_column(c).panels[i].weight - c.panels[i].weight <= 50,
        saved_column(c).panels[i].weight as int % 100 == 0,
{
    assert(saved_column(c).panels[i] == saved_panel(c.panels[i]));
}

/// Saving keeps a float's place, and its size where a float may have it, to the nearest
/// tenth of a point.
pub proof fn saving_keeps_a_float(f: Floating)
    requires
        -1_000_000_000_000_000 <= f.rect.min.x <= 1_000_000_000_000_000,
        -1_000_000_000_000_000 <= f.rect.min.y <= 1_000_000_000_000_000,
    ensures
        ({
            let s = saved_float(f);
            &&& s.kind == f.kind
            &&& -500 <= s.rect.min.x - f.rect.min.x <= 500
            &&& -500 <= s.rect.min.y - f.rect.min.y <= 500
            &&& 1_900_000 <= f.rect.wide() <= 7_200_000 ==> -500 <= s.rect.wide() - f.rect.wide()
                <= 500
            &&& 1_300_000 <= f.rect.tall() <= 9_000_000 ==> -500 <= s.rect.tall() - f.rect.tall()
                <= 500
        }),
{
    writing_keeps_a_length_to_its_decimals(f.rect.min.x as int);
    writing_keeps_a_length_to_its_decimals(f.rect.min.y as int);
    writing_keeps_a_length_to_its_decimals(f.rect.wide());
    writing_keeps_a_length_to_its_decimals(f.rect.tall());
}

/// What is saved is a layout at rest: its columns without the blank ones, its floats in
/// their order, nothing in hand and no mode.
pub proof fn what_is_saved_is_at_rest(v: LayoutView, i: int)
    requires
        0 <= i < v.floating.len(),
    ensures
        ({
            let s = crate::dock::saved::saved(v);
            &&& s.floating.len() == v.floating.len()
            &&& s.floating[i].kind == v.floating[i].kind
            &&& s.left == pruned_columns(v.left.map_values(|c: ColumnView| saved_column(c)))
            &&& s.right == pruned_columns(v.right.map_values(|c: ColumnView| saved_column(c)))
            &&& s.drag is None
            &&& !s.edit_mode
            &&& !s.dirty
        }),
{
}

} // verus!

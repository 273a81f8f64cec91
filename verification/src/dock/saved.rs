//! What is read back of a layout that was written.

use crate::dock::config::{
    column_words, config_lines, config_of, config_text, dock_words, finished, fitted,
    fitted_columns, float_at, float_lines, float_words, header, header_at, line_text, lines_text,
    read_column, read_dock, read_float, read_line, read_lines, side_lines, stack_lines,
    weight_steps, weight_word, Reading,
};
use crate::dock::count::{
    lemma_column_tally_bounds, lemma_column_tally_push, lemma_column_tally_update,
    lemma_float_tally_bounds, lemma_panel_tally_bounds, lemma_place_found, lemma_pruned,
    lemma_pruned_around,
};
use crate::dock::kind::{kind_keys_round_trip, side_keys_round_trip, PanelKind, Side};
use crate::dock::limits;
use crate::dock::model::{
    column_tally, float_tally, panel_tally, pruned_columns, widest_minimum, with_panels,
    ColumnView, Docked, Floating, LayoutView,
};
use crate::geom::{POINT, REACH};
use crate::number::{
    as_written, digits_of, last_digits, lemma_digits_of, lemma_last_digits, nearest,
    finer, number_reads_back, number_round_trip, number_text, Decimals,
};
use crate::text::{
    is_white, lemma_line_end_is, lemma_word_end, line_end, lines_from, lines_of, trim_of, word_end,
    word_start, words_from, words_of,
};
use vstd::prelude::*;

verus! {

// --- words and lines --------------------------------------------------------

/// A word: something, and no white space in it.
pub open spec fn plain(word: Seq<char>) -> bool {
    word.len() > 0 && forall|i: int| 0 <= i < word.len() ==> !is_white(#[trigger] word[i])
}

pub open spec fn all_plain(words: Seq<Seq<char>>) -> bool {
    words.len() > 0 && forall|i: int| 0 <= i < words.len() ==> plain(#[trigger] words[i])
}

/// A line of words ends in a character that is not white space, begins with
/// one, and holds no newline.
proof fn lemma_line_text_plain(words: Seq<Seq<char>>)
    requires
        all_plain(words),
    ensures
        line_text(words).len() > 0,
        !is_white(line_text(words)[0]),
        !is_white(line_text(words).last()),
        forall|i: int| 0 <= i < line_text(words).len() ==> #[trigger] line_text(words)[i] != '\n',
    decreases words.len(),
{
    let s = line_text(words);
    assert(plain(words[words.len() - 1]));
    assert(is_white('\n')) by {
        reveal(is_white);
    }
    if words.len() == 1 {
        assert(s == words[0]);
        assert forall|i: int| 0 <= i < s.len() implies #[trigger] s[i] != '\n' by {
            assert(!is_white(words[0][i]));
        }
        assert(!is_white(words[0][0]) && !is_white(words[0][words[0].len() - 1]));
    } else {
        let front = words.drop_last();
        assert forall|i: int| 0 <= i < front.len() implies plain(#[trigger] front[i]) by {
            assert(plain(words[i]));
        }
        lemma_line_text_plain(front);
        let t = line_text(front);
        let w = words.last();
        assert(s == t.push(' ') + w);
        assert(s[0] == t[0]);
        assert(!is_white(w[w.len() - 1]));
        assert(s[s.len() - 1] == w[w.len() - 1]);
        assert forall|i: int| 0 <= i < s.len() implies #[trigger] s[i] != '\n' by {
            if i < t.len() {
                assert(s[i] == t[i]);
            } else if i > t.len() {
                assert(s[i] == w[i - t.len() - 1]);
                assert(!is_white(w[i - t.len() - 1]));
            }
        }
    }
}

/// Where a word ends does not depend on what stands in front of it.
proof fn lemma_word_end_is(s: Seq<char>, from: int, end: int)
    requires
        0 <= from <= end <= s.len(),
        forall|j: int| from <= j < end ==> !is_white(#[trigger] s[j]),
        end < s.len() ==> is_white(s[end]),
    ensures
        word_end(s, from) == end,
    decreases end - from,
{
    if from < end {
        assert(!is_white(s[from]));
        lemma_word_end_is(s, from + 1, end);
    }
}

/// Looking for words in the front of a text gives the same words as long as
/// what follows begins with white space.
proof fn lemma_words_front(a: Seq<char>, b: Seq<char>, from: int)
    requires
        0 <= from <= a.len(),
        b.len() > 0 ==> is_white(b[0]),
    ensures
        words_from(a + b, from) == words_from(a, from) + words_from(a + b, a.len() as int),
    decreases a.len() - from,
{
    let s = a + b;
    crate::text::lemma_word_start(a, from);
    let x = word_start(a, from);
    lemma_word_start_same(a, b, from);
    if x < a.len() {
        lemma_word_end(a, x);
        let y = word_end(a, x);
        assert forall|j: int| x <= j < y implies !is_white(#[trigger] s[j]) by {
            assert(s[j] == a[j]);
        }
        if y < s.len() {
            if y < a.len() {
                assert(s[y] == a[y]);
            } else {
                assert(s[y] == b[0]);
            }
        }
        lemma_word_end_is(s, x, y);
        lemma_words_front(a, b, y);
        assert(s.subrange(x, y) =~= a.subrange(x, y));
        assert(words_from(s, from) =~= words_from(a, from) + words_from(s, a.len() as int));
    } else {
        crate::text::lemma_word_start(s, a.len() as int);
        assert(word_start(s, from) == word_start(s, a.len() as int));
        assert(words_from(a, from) =~= Seq::<Seq<char>>::empty());
        assert(words_from(s, from) == words_from(s, a.len() as int)) by {
            crate::text::lemma_word_start(s, from);
        }
        assert(words_from(s, from) =~= words_from(a, from) + words_from(s, a.len() as int));
    }
}

proof fn lemma_word_start_same(a: Seq<char>, b: Seq<char>, from: int)
    requires
        0 <= from <= a.len(),
    ensures
        word_start(a, from) < a.len() ==> word_start(a + b, from) == word_start(a, from),
        word_start(a, from) >= a.len() ==> word_start(a + b, from) == word_start(
            a + b,
            a.len() as int,
        ),
    decreases a.len() - from,
{
    if from < a.len() {
        assert((a + b)[from] == a[from]);
        if is_white(a[from]) {
            lemma_word_start_same(a, b, from + 1);
        }
    }
}

/// The words from a position in front of the last one are that one.
proof fn lemma_last_word(s: Seq<char>, from: int, w: Seq<char>)
    requires
        plain(w),
        0 <= from <= s.len(),
        s.len() == from + w.len(),
        s.subrange(from, s.len() as int) == w,
    ensures
        words_from(s, from) == seq![w],
        word_start(s, from) == from,
{
    let end = s.len() as int;
    assert forall|j: int| from <= j < end implies !is_white(#[trigger] s[j]) by {
        assert(s[j] == w[j - from]);
    }
    assert(!is_white(s[from]));
    lemma_word_end_is(s, from, end);
    assert(word_start(s, end) == end);
    assert(words_from(s, end) =~= Seq::<Seq<char>>::empty());
    assert(words_from(s, from) =~= seq![w]);
}

/// A line written as words reads as those words.
pub proof fn lemma_words_of_line(words: Seq<Seq<char>>)
    requires
        all_plain(words),
    ensures
        words_of(line_text(words)) == words,
    decreases words.len(),
{
    let s = line_text(words);
    let w = words.last();
    assert(plain(words[words.len() - 1]));
    if words.len() == 1 {
        assert(s.subrange(0, s.len() as int) =~= w);
        lemma_last_word(s, 0, w);
        assert(words =~= seq![w]);
    } else {
        let front = words.drop_last();
        assert forall|i: int| 0 <= i < front.len() implies plain(#[trigger] front[i]) by {
            assert(plain(words[i]));
        }
        lemma_words_of_line(front);
        let t = line_text(front);
        let b = seq![' '] + w;
        assert(is_white(' ')) by {
            reveal(is_white);
        }
        assert(s =~= t + b);
        lemma_words_front(t, b, 0);
        let n = t.len() as int;
        assert(s[n] == ' ');
        assert(s.subrange(n + 1, s.len() as int) =~= w);
        lemma_last_word(s, n + 1, w);
        assert(word_start(s, n) == n + 1);
        assert(words_from(s, n) == words_from(s, n + 1));
        assert(words =~= front + seq![w]);
    }
}

pub open spec fn line_texts(lines: Seq<Seq<Seq<char>>>) -> Seq<Seq<char>> {
    lines.map_values(|w: Seq<Seq<char>>| line_text(w))
}

pub open spec fn all_lines_plain(lines: Seq<Seq<Seq<char>>>) -> bool {
    forall|i: int| 0 <= i < lines.len() ==> all_plain(#[trigger] lines[i])
}

/// Lines in the front of a text, ended, are the lines of the text.
proof fn lemma_lines_front(a: Seq<char>, b: Seq<char>, from: int)
    requires
        0 <= from <= a.len(),
        a.len() > 0 && from < a.len() ==> a.last() == '\n',
    ensures
        lines_from(a + b, from) == lines_from(a, from).drop_last() + lines_from(
            a + b,
            a.len() as int,
        ),
        lines_from(a, from).len() > 0,
        lines_from(a, from).last() == Seq::<char>::empty(),
    decreases a.len() - from,
{
    let s = a + b;
    if from == a.len() {
        assert(line_end(a, from) == from);
        assert(lines_from(a, from) =~= seq![Seq::<char>::empty()]) by {
            assert(a.subrange(from, a.len() as int) =~= Seq::<char>::empty());
        }
        assert(lines_from(s, from) =~= lines_from(a, from).drop_last() + lines_from(
            s,
            a.len() as int,
        ));
    } else {
        crate::text::lemma_line_end(a, from);
        let e = line_end(a, from);
        assert(e < a.len()) by {
            if e >= a.len() {
                assert(a[a.len() - 1] != '\n');
            }
        }
        assert(s[e] == a[e]);
        assert forall|j: int| from <= j < e implies s[j] != '\n' by {
            assert(s[j] == a[j]);
        }
        lemma_line_end_is(s, from, e);
        lemma_lines_front(a, b, e + 1);
        assert(s.subrange(from, e) =~= a.subrange(from, e));
        let rest = lines_from(a, e + 1);
        assert(lines_from(a, from) =~= seq![a.subrange(from, e)] + rest);
        assert(lines_from(a, from).drop_last() =~= seq![a.subrange(from, e)] + rest.drop_last());
        assert(lines_from(s, from) =~= lines_from(a, from).drop_last() + lines_from(
            s,
            a.len() as int,
        ));
    }
}

/// A text written line by line reads as those lines, and an empty one.
pub proof fn lemma_lines_of_text(lines: Seq<Seq<Seq<char>>>)
    requires
        all_lines_plain(lines),
    ensures
        lines_of(lines_text(lines)) == line_texts(lines).push(Seq::empty()),
        lines.len() > 0 ==> lines_text(lines).last() == '\n' && lines_text(lines).len() > 0,
    decreases lines.len(),
{
    let s = lines_text(lines);
    if lines.len() == 0 {
        assert(s =~= Seq::<char>::empty());
        assert(line_end(s, 0) == 0);
        assert(s.subrange(0, 0) =~= Seq::<char>::empty());
        assert(lines_of(s) =~= seq![Seq::<char>::empty()]);
        assert(line_texts(lines).push(Seq::empty()) =~= seq![Seq::<char>::empty()]);
    } else {
        let front = lines.drop_last();
        let last = lines.last();
        assert(all_plain(lines[lines.len() - 1]));
        assert forall|i: int| 0 <= i < front.len() implies all_plain(#[trigger] front[i]) by {
            assert(all_plain(lines[i]));
        }
        lemma_lines_of_text(front);
        lemma_line_text_plain(last);
        let a = lines_text(front);
        let t = line_text(last);
        let b = t.push('\n');
        assert(s =~= a + b);
        lemma_lines_front(a, b, 0);
        let n = a.len() as int;
        let e = n + t.len();
        assert(s[e] == '\n');
        assert forall|j: int| n <= j < e implies s[j] != '\n' by {
            assert(s[j] == t[j - n]);
        }
        lemma_line_end_is(s, n, e);
        assert(s.subrange(n, e) =~= t);
        assert(line_end(s, e + 1) == e + 1);
        assert(s.subrange(e + 1, s.len() as int) =~= Seq::<char>::empty());
        assert(lines_from(s, e + 1) =~= seq![Seq::<char>::empty()]);
        assert(lines_from(s, n) =~= seq![t, Seq::<char>::empty()]);
        assert(lines_of(a).drop_last() =~= line_texts(front));
        assert(lines_of(s) =~= line_texts(front) + seq![t, Seq::<char>::empty()]);
        assert(line_texts(lines).push(Seq::empty()) =~= line_texts(front) + seq![
            t,
            Seq::<char>::empty(),
        ]);
    }
}

// --- reading words ----------------------------------------------------------

/// Lines, given as words, read one after the other.
pub open spec fn read_words(st: Reading, lines: Seq<Seq<Seq<char>>>) -> Reading
    decreases lines.len(),
{
    if lines.len() == 0 {
        st
    } else {
        read_line(read_words(st, lines.drop_last()), lines.last())
    }
}

proof fn lemma_read_words_push(st: Reading, lines: Seq<Seq<Seq<char>>>, w: Seq<Seq<char>>)
    ensures
        read_words(st, lines.push(w)) == read_line(read_words(st, lines), w),
{
    assert(lines.push(w).drop_last() =~= lines);
}

proof fn lemma_read_words_join(st: Reading, a: Seq<Seq<Seq<char>>>, b: Seq<Seq<Seq<char>>>)
    ensures
        read_words(st, a + b) == read_words(read_words(st, a), b),
    decreases b.len(),
{
    if b.len() == 0 {
        assert(a + b =~= a);
    } else {
        assert((a + b).drop_last() =~= a + b.drop_last());
        lemma_read_words_join(st, a, b.drop_last());
    }
}

/// Reading written lines is reading their words; the empty line at the end says
/// nothing.
proof fn lemma_read_lines_words(st: Reading, lines: Seq<Seq<Seq<char>>>, n: int)
    requires
        all_lines_plain(lines),
        0 <= n <= lines.len(),
    ensures
        read_lines(st, line_texts(lines).push(Seq::empty()), n) == read_words(st, lines.take(n)),
    decreases n,
{
    let texts = line_texts(lines).push(Seq::empty());
    if n == 0 {
        assert(lines.take(0) =~= Seq::<Seq<Seq<char>>>::empty());
    } else {
        lemma_read_lines_words(st, lines, n - 1);
        assert(all_plain(lines[n - 1]));
        lemma_words_of_line(lines[n - 1]);
        assert(texts[n - 1] == line_text(lines[n - 1]));
        assert(lines.take(n) =~= lines.take(n - 1).push(lines[n - 1]));
        lemma_read_words_push(st, lines.take(n - 1), lines[n - 1]);
    }
}

// --- what is written is plain -----------------------------------------------

proof fn lemma_digits_plain(ds: Seq<char>)
    requires
        crate::number::all_digits(ds),
    ensures
        forall|i: int| 0 <= i < ds.len() ==> !is_white(#[trigger] ds[i]),
{
    reveal(is_white);
    assert forall|i: int| 0 <= i < ds.len() implies !is_white(#[trigger] ds[i]) by {
        assert(crate::number::is_digit(ds[i]));
    }
}

proof fn lemma_number_plain(v: int, decimals: Decimals)
    ensures
        plain(number_text(v, decimals)),
{
    reveal(number_text);
    assert(!is_white('-') && !is_white('.')) by {
        reveal(is_white);
    }
    let n = nearest(crate::geom::abs_of(v), decimals.unit());
    let front = digits_of((n / decimals.steps()) as nat);
    let tail = last_digits((n % decimals.steps()) as nat, decimals.count());
    lemma_digits_of((n / decimals.steps()) as nat);
    lemma_last_digits((n % decimals.steps()) as nat, decimals.count());
    lemma_digits_plain(front);
    lemma_digits_plain(tail);
    let s = number_text(v, decimals);
    let a = if v < 0 && n > 0 {
        1int
    } else {
        0int
    };
    let p = if decimals is Whole {
        0int
    } else {
        1int
    };
    assert(s.len() == a + front.len() + p + tail.len());
    assert forall|i: int| 0 <= i < s.len() implies !is_white(#[trigger] s[i]) by {
        if i < a {
            assert(s[i] == '-');
        } else if i < a + front.len() {
            assert(s[i] == front[i - a]);
        } else if i < a + front.len() + p {
            assert(s[i] == '.');
        } else {
            assert(s[i] == tail[i - a - front.len() - p]);
        }
    }
}

proof fn lemma_kind_key_plain(k: PanelKind)
    ensures
        plain(k.key_text()),
{
    reveal(is_white);
    reveal_strlit("tools");
    reveal_strlit("colour");
    reveal_strlit("palette");
    reveal_strlit("brushes");
    reveal_strlit("layers");
    reveal_strlit("history");
    reveal_strlit("text");
}

proof fn lemma_side_key_plain(s: Side)
    ensures
        plain(s.key_text()),
{
    reveal(is_white);
    reveal_strlit("left");
    reveal_strlit("right");
}

proof fn lemma_heads_plain()
    ensures
        plain("column"@),
        plain("dock"@),
        plain("float"@),
        plain("umber-layout"@),
        plain("1"@),
        "column"@ != "width"@,
        "column"@ != "rail"@,
{
    reveal(is_white);
    reveal_strlit("column");
    reveal_strlit("dock");
    reveal_strlit("float");
    reveal_strlit("umber-layout");
    reveal_strlit("1");
    reveal_strlit("width");
    reveal_strlit("rail");
    assert("column"@[0] == 'c' && "width"@[0] == 'w' && "rail"@[0] == 'r');
}

proof fn lemma_side_lines_plain(side: Side, columns: Seq<ColumnView>)
    ensures
        all_lines_plain(side_lines(side, columns)),
    decreases columns.len(),
{
    if columns.len() > 0 {
        lemma_side_lines_plain(side, columns.drop_last());
        lemma_heads_plain();
        lemma_side_key_plain(side);
        let c = columns.last();
        lemma_number_plain(c.width as int, Decimals::Whole);
        let lines = side_lines(side, columns);
        let rest = side_lines(side, columns.drop_last());
        if c.panels.len() > 0 {
            assert forall|i: int| 0 <= i < lines.len() implies all_plain(#[trigger] lines[i]) by {
                if i < rest.len() {
                    assert(lines[i] == rest[i]);
                } else if i == rest.len() {
                    assert(lines[i] == column_words(side, c.width));
                } else {
                    let d = c.panels[i - rest.len() - 1];
                    assert(lines[i] == dock_words(side, d));
                    lemma_kind_key_plain(d.kind);
                    lemma_number_plain(
                        weight_steps(d.weight as int),
                        Decimals::TenThousandths,
                    );
                }
            }
        }
    }
}

proof fn lemma_config_lines_plain(v: LayoutView)
    ensures
        all_lines_plain(config_lines(v)),
{
    let lines = config_lines(v);
    let left = side_lines(Side::Left, v.left);
    let right = side_lines(Side::Right, v.right);
    lemma_side_lines_plain(Side::Left, v.left);
    lemma_side_lines_plain(Side::Right, v.right);
    lemma_heads_plain();
    assert forall|i: int| 0 <= i < lines.len() implies all_plain(#[trigger] lines[i]) by {
        if i == 0 {
        } else if i < 1 + left.len() {
            assert(lines[i] == left[i - 1]);
        } else if i < 1 + left.len() + right.len() {
            assert(lines[i] == right[i - 1 - left.len()]);
        } else {
            let f = v.floating[i - 1 - left.len() - right.len()];
            assert(lines[i] == float_words(f));
            lemma_kind_key_plain(f.kind);
            lemma_number_plain(f.rect.min.x as int, Decimals::Tenths);
            lemma_number_plain(f.rect.min.y as int, Decimals::Tenths);
            lemma_number_plain(f.rect.wide(), Decimals::Tenths);
            lemma_number_plain(f.rect.tall(), Decimals::Tenths);
        }
    }
}

// --- what is read back ------------------------------------------------------

/// A column that a file can hold: a sound one, with no weight beyond what is
/// read.
pub open spec fn savable_column(c: ColumnView) -> bool {
    &&& c.sound()
    &&& forall|i: int|
        0 <= i < c.panels.len() ==> 0 <= (#[trigger] c.panels[i]).weight <= limits::WEIGHT_MAX
}

pub open spec fn savable_columns(columns: Seq<ColumnView>) -> bool {
    forall|i: int| 0 <= i < columns.len() ==> savable_column(#[trigger] columns[i])
}

/// A float that a file can hold: its coordinates, as written, are within reach.
pub open spec fn savable_float(f: Floating) -> bool {
    &&& f.rect.bounded()
    &&& -REACH <= as_written(f.rect.min.x as int, Decimals::Tenths) <= REACH
    &&& -REACH <= as_written(f.rect.min.y as int, Decimals::Tenths) <= REACH
    &&& -REACH <= as_written(f.rect.wide(), Decimals::Tenths) <= REACH
    &&& -REACH <= as_written(f.rect.tall(), Decimals::Tenths) <= REACH
}

pub open spec fn savable_floats(floating: Seq<Floating>) -> bool {
    forall|i: int| 0 <= i < floating.len() ==> savable_float(#[trigger] floating[i])
}

/// What comes back of a float: its place and size to a tenth of a point, the
/// size within its limits.
pub open spec fn saved_float(f: Floating) -> Floating {
    float_at(
        f.kind,
        as_written(f.rect.min.x as int, Decimals::Tenths),
        as_written(f.rect.min.y as int, Decimals::Tenths),
        as_written(f.rect.wide(), Decimals::Tenths),
        as_written(f.rect.tall(), Decimals::Tenths),
    )
}

pub open spec fn saved_floats(floating: Seq<Floating>) -> Seq<Floating> {
    floating.map_values(|f: Floating| saved_float(f))
}

/// What comes back of a panel: its weight to four decimals.
pub open spec fn saved_panel(d: Docked) -> Docked {
    Docked { kind: d.kind, weight: (100 * weight_steps(d.weight as int)) as i64 }
}

pub open spec fn saved_column(c: ColumnView) -> ColumnView {
    ColumnView { panels: c.panels.map_values(|d: Docked| saved_panel(d)), width: c.width }
}

pub open spec fn saved_columns(columns: Seq<ColumnView>) -> Seq<ColumnView> {
    columns.map_values(|c: ColumnView| saved_column(c))
}

/// What comes back of a layout: its columns, but for one a drag has emptied,
/// and its floats. No drag and no mode is saved.
pub open spec fn saved(v: LayoutView) -> LayoutView {
    LayoutView {
        left: pruned_columns(saved_columns(v.left)),
        right: pruned_columns(saved_columns(v.right)),
        floating: saved_floats(v.floating),
        drag: None,
        edit_mode: false,
        dirty: false,
    }
}

/// A layout that a file can hold.
pub open spec fn savable(v: LayoutView) -> bool {
    &&& v.sound()
    &&& v.one_of_each()
    &&& savable_columns(v.left)
    &&& savable_columns(v.right)
    &&& savable_floats(v.floating)
}

/// A savable column whose weights are all on four decimals.
spec fn exact_column(c: ColumnView) -> bool {
    savable_column(c) && saved_column(c) == c
}

spec fn exact_columns(columns: Seq<ColumnView>) -> bool {
    forall|i: int| 0 <= i < columns.len() ==> exact_column(#[trigger] columns[i])
}

proof fn lemma_saved_tally(columns: Seq<ColumnView>, k: PanelKind)
    ensures
        column_tally(saved_columns(columns), k) == column_tally(columns, k),
    decreases columns.len(),
{
    if columns.len() > 0 {
        assert(saved_columns(columns).drop_last() =~= saved_columns(columns.drop_last()));
        lemma_saved_tally(columns.drop_last(), k);
        lemma_saved_panel_tally(columns.last().panels, k);
    }
}

proof fn lemma_saved_panel_tally(p: Seq<Docked>, k: PanelKind)
    ensures
        panel_tally(p.map_values(|d: Docked| saved_panel(d)), k) == panel_tally(p, k),
    decreases p.len(),
{
    if p.len() > 0 {
        let q = p.map_values(|d: Docked| saved_panel(d));
        assert(q.drop_last() =~= p.drop_last().map_values(|d: Docked| saved_panel(d)));
        lemma_saved_panel_tally(p.drop_last(), k);
    }
}

proof fn lemma_saved_minimum(c: ColumnView, n: int)
    requires
        n <= c.panels.len(),
        c.panels.len() > 0,
    ensures
        widest_minimum(saved_column(c).panels, n) == widest_minimum(c.panels, n),
    decreases n,
{
    assert(saved_column(c).panels[0].kind == c.panels[0].kind);
    if n > 1 {
        lemma_saved_minimum(c, n - 1);
        assert(saved_column(c).panels[n - 1].kind == c.panels[n - 1].kind);
    }
}

/// A weight on four decimals is written as it is.
proof fn lemma_steps_settle(w: int)
    requires
        0 <= w <= limits::WEIGHT_LIMIT,
    ensures
        weight_steps(100 * weight_steps(w)) == weight_steps(w),
        0 <= 100 * weight_steps(w) <= limits::WEIGHT_LIMIT,
        w <= limits::WEIGHT_MAX ==> 100 * weight_steps(w) <= limits::WEIGHT_MAX,
{
}

proof fn lemma_saved_exact(columns: Seq<ColumnView>)
    requires
        savable_columns(columns),
    ensures
        exact_columns(saved_columns(columns)),
        saved_columns(saved_columns(columns)) == saved_columns(columns),
{
    let next = saved_columns(columns);
    assert forall|i: int| 0 <= i < next.len() implies exact_column(#[trigger] next[i]) by {
        let c = columns[i];
        let d = next[i];
        assert(savable_column(c));
        assert forall|j: int| 0 <= j < d.panels.len() implies 0 <= (#[trigger] d.panels[j]).weight
            <= limits::WEIGHT_MAX && saved_panel(d.panels[j]) == d.panels[j] by {
            assert(c.panels[j].weight <= limits::WEIGHT_MAX);
            lemma_steps_settle(c.panels[j].weight as int);
        }
        if c.panels.len() > 0 {
            lemma_saved_minimum(c, c.panels.len() as int);
        }
        assert(saved_column(d).panels =~= d.panels);
    }
    assert(saved_columns(next) =~= next) by {
        assert forall|i: int| 0 <= i < next.len() implies saved_column(#[trigger] next[i])
            == next[i] by {
            assert(exact_column(next[i]));
        }
    }
}

/// What is written of a side is what is written of it with its weights on four
/// decimals.
proof fn lemma_side_lines_saved(side: Side, columns: Seq<ColumnView>)
    requires
        forall|i: int| 0 <= i < columns.len() ==> (#[trigger] columns[i]).sound(),
    ensures
        side_lines(side, saved_columns(columns)) == side_lines(side, columns),
    decreases columns.len(),
{
    if columns.len() > 0 {
        let front = columns.drop_last();
        let c = columns.last();
        assert forall|i: int| 0 <= i < front.len() implies (#[trigger] front[i]).sound() by {
            assert(columns[i].sound());
        }
        assert(columns[columns.len() - 1].sound());
        lemma_side_lines_saved(side, front);
        assert(saved_columns(columns).drop_last() =~= saved_columns(front));
        let p = c.panels;
        let q = saved_column(c).panels;
        assert forall|i: int| 0 <= i < p.len() implies #[trigger] dock_words(side, q[i])
            == dock_words(side, p[i]) by {
            assert(0 <= p[i].weight <= limits::WEIGHT_LIMIT);
            lemma_steps_settle(p[i].weight as int);
            assert(dock_words(side, q[i]) =~= dock_words(side, p[i]));
        }
        assert(stack_lines(side, q) =~= stack_lines(side, p));
    }
}

proof fn lemma_read_dock_line(st: Reading, side: Side, d: Docked)
    requires
        !st.seen(d.kind),
        st.layout.columns(side).len() > 0,
        0 <= d.weight <= limits::WEIGHT_MAX,
        saved_panel(d) == d,
    ensures
        ({
            let columns = st.layout.columns(side);
            read_line(st, dock_words(side, d)) == st.with_columns(
                side,
                with_panels(columns, columns.len() - 1, columns.last().panels.push(d)),
            )
        }),
{
    kind_keys_round_trip(d.kind);
    side_keys_round_trip(side);
    let steps = weight_steps(d.weight as int);
    assert(nearest(steps, Decimals::TenThousandths.unit()) == steps) by {
        assert(steps / 1 == steps && steps % 1 == 0) by (nonlinear_arith);
    }
    assert(finer(Decimals::TenThousandths, 6) == 100) by {
        reveal_with_fuel(vstd::arithmetic::power::pow, 3);
    }
    number_reads_back(steps, Decimals::TenThousandths, 6);
    let w = dock_words(side, d);
    assert(weight_word(w[3]) == d.weight);
    assert(read_line(st, w) == read_dock(st, w[1], w[2], w[3]));
}

proof fn lemma_read_column_line(st: Reading, side: Side, width: i64)
    requires
        0 <= width <= limits::SIDEBAR_MAX_WIDTH,
        width as int % POINT as int == 0,
    ensures
        read_line(st, column_words(side, width)) == st.with_columns(
            side,
            st.layout.columns(side).push(ColumnView { panels: Seq::empty(), width }),
        ),
{
    side_keys_round_trip(side);
    let points = width as int / POINT as int;
    assert(nearest(width as int, Decimals::Whole.unit()) == points);
    assert(finer(Decimals::Whole, 0) == 1) by {
        vstd::arithmetic::power::lemma_pow0(10);
    }
    number_reads_back(width as int, Decimals::Whole, 0);
    lemma_heads_plain();
    let w = column_words(side, width);
    assert(read_line(st, w) == read_column(st, w[1], w[2]));
}

proof fn lemma_read_float_line(st: Reading, f: Floating)
    requires
        !st.seen(f.kind),
        savable_float(f),
    ensures
        read_line(st, float_words(f)) == (Reading {
            layout: LayoutView {
                floating: st.layout.floating.push(saved_float(f)),
                ..st.layout
            },
            ..st
        }),
{
    kind_keys_round_trip(f.kind);
    number_round_trip(f.rect.min.x as int, Decimals::Tenths);
    number_round_trip(f.rect.min.y as int, Decimals::Tenths);
    number_round_trip(f.rect.wide(), Decimals::Tenths);
    number_round_trip(f.rect.tall(), Decimals::Tenths);
    let w = float_words(f);
    assert(read_line(st, w) == read_float(st, w[1], w[2], w[3], w[4], w[5]));
}

proof fn lemma_panel_tally_join(a: Seq<Docked>, b: Seq<Docked>, k: PanelKind)
    ensures
        panel_tally(a + b, k) == panel_tally(a, k) + panel_tally(b, k),
    decreases b.len(),
{
    if b.len() == 0 {
        assert(a + b =~= a);
    } else {
        assert((a + b).drop_last() =~= a + b.drop_last());
        lemma_panel_tally_join(a, b.drop_last(), k);
    }
}

proof fn lemma_column_tally_join(a: Seq<ColumnView>, b: Seq<ColumnView>, k: PanelKind)
    ensures
        column_tally(a + b, k) == column_tally(a, k) + column_tally(b, k),
    decreases b.len(),
{
    if b.len() == 0 {
        assert(a + b =~= a);
    } else {
        assert((a + b).drop_last() =~= a + b.drop_last());
        lemma_column_tally_join(a, b.drop_last(), k);
    }
}

/// The state with these panels at the bottom of the innermost column.
spec fn stacked(st: Reading, side: Side, p: Seq<Docked>) -> Reading {
    let columns = st.layout.columns(side);
    st.with_columns(
        side,
        with_panels(columns, columns.len() - 1, columns.last().panels + p),
    )
}

proof fn lemma_stacked_placed(st: Reading, side: Side, p: Seq<Docked>, k: PanelKind)
    requires
        st.layout.columns(side).len() > 0,
    ensures
        stacked(st, side, p).layout.placed(k) == st.layout.placed(k) + panel_tally(p, k),
{
    let columns = st.layout.columns(side);
    let q = columns.last().panels;
    lemma_column_tally_update(
        columns,
        columns.len() - 1,
        ColumnView { panels: q + p, width: columns.last().width },
        k,
    );
    lemma_panel_tally_join(q, p, k);
}

proof fn lemma_read_stack(st: Reading, side: Side, p: Seq<Docked>)
    requires
        st.layout.columns(side).len() > 0,
        forall|i: int|
            0 <= i < p.len() ==> 0 <= (#[trigger] p[i]).weight <= limits::WEIGHT_MAX
                && saved_panel(p[i]) == p[i],
        forall|k: PanelKind| #[trigger] st.layout.placed(k) + panel_tally(p, k) <= 1,
        forall|k: PanelKind| #[trigger] st.layout.placed(k) >= 0,
    ensures
        read_words(st, stack_lines(side, p)) == stacked(st, side, p),
    decreases p.len(),
{
    let columns = st.layout.columns(side);
    if p.len() == 0 {
        assert(stack_lines(side, p) =~= Seq::<Seq<Seq<char>>>::empty());
        assert(columns.last().panels + p =~= columns.last().panels);
        assert(with_panels(columns, columns.len() - 1, columns.last().panels) =~= columns);
        assert(stacked(st, side, p) =~= st);
    } else {
        let front = p.drop_last();
        let d = p.last();
        assert(saved_panel(p[p.len() - 1]) == d);
        assert forall|i: int| 0 <= i < front.len() implies 0 <= (#[trigger] front[i]).weight
            <= limits::WEIGHT_MAX && saved_panel(front[i]) == front[i] by {
            assert(p[i].weight <= limits::WEIGHT_MAX);
        }
        assert forall|k: PanelKind| #[trigger] st.layout.placed(k) + panel_tally(front, k) <= 1 by {
            assert(st.layout.placed(k) + panel_tally(p, k) <= 1);
        }
        lemma_read_stack(st, side, front);
        let mid = stacked(st, side, front);
        lemma_stacked_placed(st, side, front, d.kind);
        lemma_panel_tally_bounds(front, d.kind);
        assert(st.layout.placed(d.kind) + panel_tally(p, d.kind) <= 1);
        assert(!mid.seen(d.kind));
        lemma_read_dock_line(mid, side, d);
        assert(stack_lines(side, p) =~= stack_lines(side, front).push(dock_words(side, d)));
        lemma_read_words_push(st, stack_lines(side, front), dock_words(side, d));
        let next = mid.layout.columns(side);
        assert(next.last().panels.push(d) =~= columns.last().panels + p);
        assert(with_panels(next, next.len() - 1, next.last().panels.push(d)) =~= with_panels(
            columns,
            columns.len() - 1,
            columns.last().panels + p,
        ));
        assert(read_words(st, stack_lines(side, p)) =~= stacked(st, side, p));
    }
}

proof fn lemma_read_side(st: Reading, side: Side, columns: Seq<ColumnView>)
    requires
        exact_columns(columns),
        forall|k: PanelKind| #[trigger] st.layout.placed(k) + column_tally(columns, k) <= 1,
        forall|k: PanelKind| #[trigger] st.layout.placed(k) >= 0,
    ensures
        read_words(st, side_lines(side, columns)) == st.with_columns(
            side,
            st.layout.columns(side) + pruned_columns(columns),
        ),
    decreases columns.len(),
{
    let start = st.layout.columns(side);
    if columns.len() == 0 {
        assert(start + pruned_columns(columns) =~= start);
        assert(st.with_columns(side, start) =~= st);
    } else {
        let front = columns.drop_last();
        let c = columns.last();
        assert(exact_column(columns[columns.len() - 1]));
        assert forall|i: int| 0 <= i < front.len() implies exact_column(
            #[trigger] front[i],
        ) by {
            assert(exact_column(columns[i]));
        }
        assert forall|k: PanelKind| #[trigger] st.layout.placed(k) + column_tally(front, k)
            <= 1 by {
            lemma_panel_tally_bounds(c.panels, k);
            assert(st.layout.placed(k) + column_tally(columns, k) <= 1);
        }
        lemma_read_side(st, side, front);
        let mid = st.with_columns(side, start + pruned_columns(front));
        if c.panels.len() > 0 {
            let rest = side_lines(side, front);
            let head = column_words(side, c.width);
            lemma_read_words_push(st, rest, head);
            lemma_read_column_line(mid, side, c.width);
            let blank = ColumnView { panels: Seq::empty(), width: c.width };
            let opened = mid.with_columns(side, mid.layout.columns(side).push(blank));
            assert forall|k: PanelKind|
                #![trigger opened.layout.placed(k)]
                opened.layout.placed(k) + panel_tally(c.panels, k) <= 1 && opened.layout.placed(k)
                    >= 0 by {
                lemma_column_tally_push(mid.layout.columns(side), blank, k);
                assert(panel_tally(Seq::<Docked>::empty(), k) == 0);
                lemma_column_tally_join(start, pruned_columns(front), k);
                lemma_pruned(front);
                assert(column_tally(pruned_columns(front), k) == column_tally(front, k));
                lemma_column_tally_bounds(front, k);
                assert(st.layout.placed(k) + column_tally(columns, k) <= 1);
                assert(st.layout.placed(k) >= 0);
            }
            assert forall|i: int| 0 <= i < c.panels.len() implies saved_panel(
                #[trigger] c.panels[i],
            ) == c.panels[i] by {
                assert(saved_column(c).panels[i] == saved_panel(c.panels[i]));
            }
            lemma_read_stack(opened, side, c.panels);
            lemma_read_words_join(st, rest.push(head), stack_lines(side, c.panels));
            let last = opened.layout.columns(side);
            assert(blank.panels + c.panels =~= c.panels);
            assert(with_panels(last, last.len() - 1, last.last().panels + c.panels) =~= start
                + pruned_columns(columns));
            assert(read_words(st, side_lines(side, columns)) =~= st.with_columns(
                side,
                start + pruned_columns(columns),
            ));
        }
    }
}

proof fn lemma_read_floats(st: Reading, floating: Seq<Floating>)
    requires
        savable_floats(floating),
        forall|k: PanelKind| #[trigger] st.layout.placed(k) + float_tally(floating, k) <= 1,
        forall|k: PanelKind| #[trigger] st.layout.placed(k) >= 0,
    ensures
        read_words(st, float_lines(floating)) == (Reading {
            layout: LayoutView {
                floating: st.layout.floating + saved_floats(floating),
                ..st.layout
            },
            ..st
        }),
    decreases floating.len(),
{
    if floating.len() == 0 {
        assert(float_lines(floating) =~= Seq::<Seq<Seq<char>>>::empty());
        assert(st.layout.floating + saved_floats(floating) =~= st.layout.floating);
    } else {
        let front = floating.drop_last();
        let f = floating.last();
        assert(savable_float(floating[floating.len() - 1]));
        assert forall|i: int| 0 <= i < front.len() implies savable_float(#[trigger] front[i]) by {
            assert(savable_float(floating[i]));
        }
        assert forall|k: PanelKind| #[trigger] st.layout.placed(k) + float_tally(front, k) <= 1 by {
            assert(st.layout.placed(k) + float_tally(floating, k) <= 1);
        }
        lemma_read_floats(st, front);
        let mid = read_words(st, float_lines(front));
        assert(!mid.seen(f.kind)) by {
            lemma_float_tally_join(st.layout.floating, saved_floats(front), f.kind);
            lemma_saved_float_tally(front, f.kind);
            assert(st.layout.placed(f.kind) + float_tally(floating, f.kind) <= 1);
            lemma_float_tally_bounds(front, f.kind);
            assert(st.layout.placed(f.kind) >= 0);
        }
        lemma_read_float_line(mid, f);
        assert(float_lines(floating) =~= float_lines(front).push(float_words(f)));
        lemma_read_words_push(st, float_lines(front), float_words(f));
        assert((st.layout.floating + saved_floats(front)).push(saved_float(f)) =~= st.layout.floating
            + saved_floats(floating));
    }
}

proof fn lemma_float_tally_join(a: Seq<Floating>, b: Seq<Floating>, k: PanelKind)
    ensures
        float_tally(a + b, k) == float_tally(a, k) + float_tally(b, k),
    decreases b.len(),
{
    if b.len() == 0 {
        assert(a + b =~= a);
    } else {
        assert((a + b).drop_last() =~= a + b.drop_last());
        lemma_float_tally_join(a, b.drop_last(), k);
    }
}

proof fn lemma_saved_float_tally(f: Seq<Floating>, k: PanelKind)
    ensures
        float_tally(saved_floats(f), k) == float_tally(f, k),
    decreases f.len(),
{
    if f.len() > 0 {
        assert(saved_floats(f).drop_last() =~= saved_floats(f.drop_last()));
        lemma_saved_float_tally(f.drop_last(), k);
    }
}

proof fn lemma_fitted_already(columns: Seq<ColumnView>)
    requires
        exact_columns(columns),
    ensures
        fitted_columns(pruned_columns(columns)) == pruned_columns(columns),
    decreases columns.len(),
{
    if columns.len() > 0 {
        let front = columns.drop_last();
        let c = columns.last();
        assert(exact_column(columns[columns.len() - 1]));
        assert forall|i: int| 0 <= i < front.len() implies exact_column(
            #[trigger] front[i],
        ) by {
            assert(exact_column(columns[i]));
        }
        lemma_fitted_already(front);
        if c.panels.len() > 0 {
            assert(fitted(c) =~= c);
            assert(fitted_columns(pruned_columns(columns)) =~= fitted_columns(
                pruned_columns(front),
            ).push(fitted(c)));
        }
    }
    assert(fitted_columns(pruned_columns(columns)) =~= pruned_columns(columns));
}

proof fn lemma_header(w: Seq<Seq<char>>)
    requires
        w == seq!["umber-layout"@, "1"@],
    ensures
        trim_of(line_text(w)) == header(),
        header().len() > 0,
{
    reveal(is_white);
    reveal_strlit("umber-layout");
    reveal_strlit("1");
    reveal_strlit("umber-layout 1");
    reveal_with_fuel(line_text, 3);
    assert(w.drop_last() =~= seq!["umber-layout"@]);
    let s = line_text(w);
    assert(s =~= header());
    assert(!is_white(s[0]));
    assert(!is_white(s[s.len() - 1]));
}

/// A layout that is written and read again is the layout that was written.
///
/// Every column comes back where it was, with its width, its panels in order
/// and their weights, to four decimals; every float comes back in its place among
/// the others, to a tenth of a point. A column that a drag has emptied is not
/// written.
pub proof fn config_round_trips(v: LayoutView)
    requires
        savable(v),
    ensures
        config_of(config_text(v)) == Some(saved(v)),
{
    let w = LayoutView { left: saved_columns(v.left), right: saved_columns(v.right), ..v };
    lemma_saved_exact(v.left);
    lemma_saved_exact(v.right);
    assert forall|k: PanelKind| #[trigger] w.tally(k) <= 1 by {
        lemma_saved_tally(v.left, k);
        lemma_saved_tally(v.right, k);
        assert(v.tally(k) <= 1);
    }
    lemma_side_lines_saved(Side::Left, v.left);
    lemma_side_lines_saved(Side::Right, v.right);
    assert(config_text(w) == config_text(v));
    lemma_exact_round_trip(w);
    assert(saved(w) == saved(v));
}

/// A layout that a file holds exactly, but for its floats.
spec fn exact(v: LayoutView) -> bool {
    &&& v.one_of_each()
    &&& exact_columns(v.left)
    &&& exact_columns(v.right)
    &&& saved_columns(v.left) == v.left
    &&& saved_columns(v.right) == v.right
    &&& savable_floats(v.floating)
}

proof fn lemma_exact_round_trip(v: LayoutView)
    requires
        exact(v),
    ensures
        config_of(config_text(v)) == Some(saved(v)),
{
    let lines = config_lines(v);
    let text = config_text(v);
    let head = seq!["umber-layout"@, "1"@];
    lemma_config_lines_plain(v);
    lemma_lines_of_text(lines);
    let all = line_texts(lines).push(Seq::empty());
    assert(lines_of(text) == all);
    assert(lines[0] == head);
    assert(all[0] == line_text(head));
    lemma_header(head);
    assert(header_at(all, 0) == 0);
    let body = lines.skip(1);
    assert(all.skip(1) =~= line_texts(body).push(Seq::empty()));
    assert forall|i: int| 0 <= i < body.len() implies all_plain(#[trigger] body[i]) by {
        assert(all_plain(lines[i + 1]));
    }
    let start = Reading::start();
    let n = body.len() as int;
    lemma_read_lines_words(start, body, n);
    assert(body.take(n) =~= body);
    assert(words_of(Seq::<char>::empty()) =~= Seq::<Seq<char>>::empty()) by {
        assert(word_start(Seq::<char>::empty(), 0) == 0);
    }
    let rest = all.skip(1);
    assert(rest[n] == Seq::<char>::empty());
    let read = read_words(start, body);
    assert(read_lines(start, rest, rest.len() as int) == read) by {
        assert(read_lines(start, rest, n) == read);
        assert(read_lines(start, rest, n + 1) == read_line(read, words_of(rest[n])));
    }
    lemma_read_body(v, body);
    assert(read.rail is None);
    lemma_pruned(v.left);
    lemma_pruned(v.right);
    lemma_pruned(pruned_columns(v.left));
    lemma_pruned(pruned_columns(v.right));
    lemma_fitted_already(v.left);
    lemma_fitted_already(v.right);
    assert(finished(read) =~= saved(v));
}

/// Reading a side adds to what has been read what the side holds.
proof fn lemma_side_placed(st: Reading, side: Side, columns: Seq<ColumnView>, k: PanelKind)
    ensures
        st.with_columns(side, st.layout.columns(side) + pruned_columns(columns)).layout.placed(k)
            == st.layout.placed(k) + column_tally(columns, k),
{
    lemma_column_tally_join(st.layout.columns(side), pruned_columns(columns), k);
    lemma_pruned(columns);
    assert(column_tally(pruned_columns(columns), k) == column_tally(columns, k));
}

proof fn lemma_start_empty(k: PanelKind)
    ensures
        Reading::start().layout.placed(k) == 0,
{
    let start = Reading::start();
    assert(column_tally(start.layout.left, k) == 0);
    assert(column_tally(start.layout.right, k) == 0);
    assert(float_tally(start.layout.floating, k) == 0);
}

proof fn lemma_read_sides(v: LayoutView)
    requires
        exact(v),
    ensures
        read_words(
            Reading::start(),
            side_lines(Side::Left, v.left) + side_lines(Side::Right, v.right),
        ) == Reading::start().with_columns(Side::Left, pruned_columns(v.left)).with_columns(
            Side::Right,
            pruned_columns(v.right),
        ),
{
    let start = Reading::start();
    let left = side_lines(Side::Left, v.left);
    let right = side_lines(Side::Right, v.right);
    lemma_read_words_join(start, left, right);
    let one = start.with_columns(Side::Left, start.layout.left + pruned_columns(v.left));
    assert forall|k: PanelKind|
        #![trigger start.layout.placed(k)]
        #![trigger one.layout.placed(k)]
        {
            &&& start.layout.placed(k) == 0
            &&& start.layout.placed(k) + column_tally(v.left, k) <= 1
            &&& one.layout.placed(k) >= 0
            &&& one.layout.placed(k) + column_tally(v.right, k) <= 1
        } by {
        lemma_start_empty(k);
        lemma_side_placed(start, Side::Left, v.left, k);
        lemma_column_tally_bounds(v.left, k);
        lemma_column_tally_bounds(v.right, k);
        lemma_float_tally_bounds(v.floating, k);
        assert(v.tally(k) <= 1);
    }
    lemma_read_side(start, Side::Left, v.left);
    lemma_read_side(one, Side::Right, v.right);
    assert(start.layout.left + pruned_columns(v.left) =~= pruned_columns(v.left));
    assert(one.layout.right + pruned_columns(v.right) =~= pruned_columns(v.right));
}

proof fn lemma_read_body(v: LayoutView, body: Seq<Seq<Seq<char>>>)
    requires
        exact(v),
        body == config_lines(v).skip(1),
    ensures
        read_words(Reading::start(), body) == (Reading {
            layout: saved(v),
            ..Reading::start()
        }),
{
    let start = Reading::start();
    let left = side_lines(Side::Left, v.left);
    let right = side_lines(Side::Right, v.right);
    let floats = float_lines(v.floating);
    assert(body =~= left + right + floats);
    lemma_read_words_join(start, left + right, floats);
    lemma_read_sides(v);
    let one = start.with_columns(Side::Left, pruned_columns(v.left));
    let two = one.with_columns(Side::Right, pruned_columns(v.right));
    assert forall|k: PanelKind|
        #![trigger two.layout.placed(k)]
        two.layout.placed(k) + float_tally(v.floating, k) <= 1 && two.layout.placed(k) >= 0 by {
        lemma_start_empty(k);
        lemma_side_placed(start, Side::Left, v.left, k);
        assert(start.layout.left + pruned_columns(v.left) =~= pruned_columns(v.left));
        lemma_side_placed(one, Side::Right, v.right, k);
        assert(one.layout.right + pruned_columns(v.right) =~= pruned_columns(v.right));
        lemma_column_tally_bounds(v.left, k);
        lemma_column_tally_bounds(v.right, k);
        assert(v.tally(k) <= 1);
    }
    lemma_read_floats(two, v.floating);
    assert(two.layout.floating + saved_floats(v.floating) =~= saved_floats(v.floating));
}

// --- more that holds of saved layouts ---------------------------------------

/// A float on the tenths of a point, within its limits, comes back exactly.
pub proof fn a_float_on_tenths_is_kept(f: Floating)
    requires
        f.rect.in_reach(),
        f.rect.min.x as int % 1_000 == 0,
        f.rect.min.y as int % 1_000 == 0,
        f.rect.wide() % 1_000 == 0,
        f.rect.tall() % 1_000 == 0,
        limits::FLOAT_MIN_WIDTH <= f.rect.wide() <= limits::FLOAT_MAX_WIDTH,
        limits::FLOAT_MIN_HEIGHT <= f.rect.tall() <= limits::FLOAT_MAX_HEIGHT,
    ensures
        saved_float(f) == f,
{
    lemma_tenths(f.rect.min.x as int);
    lemma_tenths(f.rect.min.y as int);
    lemma_tenths(f.rect.wide());
    lemma_tenths(f.rect.tall());
}

proof fn lemma_tenths(v: int)
    requires
        v % 1_000 == 0,
    ensures
        as_written(v, Decimals::Tenths) == v,
{
    reveal(as_written);
}

/// Writing what was read gives the text that was read.
pub proof fn a_saved_layout_is_written_the_same(v: LayoutView)
    requires
        savable(v),
        forall|i: int|
            0 <= i < v.floating.len() ==> {
                &&& limits::FLOAT_MIN_WIDTH <= (#[trigger] v.floating[i]).rect.wide()
                    <= limits::FLOAT_MAX_WIDTH
                &&& limits::FLOAT_MIN_HEIGHT <= v.floating[i].rect.tall()
                    <= limits::FLOAT_MAX_HEIGHT
            },
    ensures
        config_text(saved(v)) == config_text(v),
{
    lemma_side_lines_pruned(Side::Left, saved_columns(v.left));
    lemma_side_lines_pruned(Side::Right, saved_columns(v.right));
    lemma_side_lines_saved(Side::Left, v.left);
    lemma_side_lines_saved(Side::Right, v.right);
    let w = saved(v);
    assert forall|i: int| 0 <= i < v.floating.len() implies float_words(
        #[trigger] w.floating[i],
    ) == float_words(v.floating[i]) by {
        let f = v.floating[i];
        assert(savable_float(f));
        lemma_text_settles(f.rect.min.x as int);
        lemma_text_settles(f.rect.min.y as int);
        lemma_text_settles(f.rect.wide());
        lemma_text_settles(f.rect.tall());
        let g = saved_float(f);
        assert(w.floating[i] == g);
        lemma_size_as_written(
            f.rect.wide(),
            limits::FLOAT_MIN_WIDTH as int,
            limits::FLOAT_MAX_WIDTH as int,
        );
        lemma_size_as_written(
            f.rect.tall(),
            limits::FLOAT_MIN_HEIGHT as int,
            limits::FLOAT_MAX_HEIGHT as int,
        );
        assert(g.rect.wide() == as_written(f.rect.wide(), Decimals::Tenths));
        assert(g.rect.tall() == as_written(f.rect.tall(), Decimals::Tenths));
        assert(float_words(g) =~= float_words(f));
    }
    assert(float_lines(w.floating) =~= float_lines(v.floating));
}

/// What was written once is written the same again.
proof fn lemma_text_settles(v: int)
    ensures
        number_text(as_written(v, Decimals::Tenths), Decimals::Tenths) == number_text(
            v,
            Decimals::Tenths,
        ),
{
    reveal(as_written);
    reveal(number_text);
    let w = as_written(v, Decimals::Tenths);
    assert(nearest(crate::geom::abs_of(w), 1_000) == nearest(crate::geom::abs_of(v), 1_000));
}

/// A size within limits on the tenths of a point is still within them once
/// written.
proof fn lemma_size_as_written(v: int, low: int, high: int)
    requires
        0 <= low <= v <= high,
        low % 1_000 == 0,
        high % 1_000 == 0,
    ensures
        low <= as_written(v, Decimals::Tenths) <= high,
{
    reveal(as_written);
    let n = nearest(v, 1_000);
    assert(as_written(v, Decimals::Tenths) == n * 1_000);
    assert(low == 1_000 * (low / 1_000) && high == 1_000 * (high / 1_000));
    assert(low / 1_000 <= v / 1_000 <= n <= v / 1_000 + 1);
    assert(n <= high / 1_000) by {
        if v / 1_000 == high / 1_000 {
            assert(v % 1_000 == 0);
        }
    }
}

proof fn lemma_side_lines_pruned(side: Side, columns: Seq<ColumnView>)
    ensures
        side_lines(side, pruned_columns(columns)) == side_lines(side, columns),
    decreases columns.len(),
{
    if columns.len() > 0 {
        lemma_side_lines_pruned(side, columns.drop_last());
        if columns.last().panels.len() > 0 {
            assert(pruned_columns(columns).drop_last() =~= pruned_columns(columns.drop_last()));
        }
    }
}

/// A module that is not in the layout when it is written is not there when it is
/// read: a tool rail that was removed stays removed.
pub proof fn a_removed_module_stays_removed(v: LayoutView, k: PanelKind)
    requires
        savable(v),
        v.place_of(k) is None,
    ensures
        config_of(config_text(v))->0.place_of(k) is None,
{
    config_round_trips(v);
    lemma_place_found(v, k);
    lemma_place_found(saved(v), k);
    lemma_pruned(saved_columns(v.left));
    lemma_pruned(saved_columns(v.right));
    lemma_saved_tally(v.left, k);
    lemma_saved_tally(v.right, k);
    lemma_saved_float_tally(v.floating, k);
    assert(column_tally(saved(v).left, k) == column_tally(v.left, k));
    assert(column_tally(saved(v).right, k) == column_tally(v.right, k));
}

/// The tool rail an old file names is a Tools column at that edge, outermost,
/// with everything else as the file has it.
pub proof fn an_old_files_rail_is_the_outermost_column(st: Reading, side: Side)
    requires
        st.rail == Some(side),
        !st.seen(PanelKind::Tools),
    ensures
        finished(st).columns(side) == seq![fitted(ColumnView::of(PanelKind::Tools))]
            + fitted_columns(pruned_columns(st.layout.columns(side))),
        finished(st).columns(side.opposite()) == fitted_columns(
            pruned_columns(st.layout.columns(side.opposite())),
        ),
        finished(st).floating == st.layout.floating,
{
    let columns = st.layout.columns(side);
    let rail = ColumnView::of(PanelKind::Tools);
    let railed = columns.insert(0, rail);
    assert(rail.panels.len() > 0);
    lemma_pruned_around(railed, 0);
    assert(railed.take(0) =~= Seq::empty());
    assert(railed.skip(1) =~= columns);
    let rest = pruned_columns(columns);
    assert(pruned_columns(railed) =~= seq![rail] + rest);
    assert(fitted_columns(seq![rail] + rest) =~= seq![fitted(rail)] + fitted_columns(rest));
}

/// A file that names no column has at most one a side: each `dock` line falls
/// into the one the side implicitly has.
pub proof fn a_file_without_columns_has_one_a_side(lines: Seq<Seq<char>>, n: int, side: Side)
    requires
        0 <= n <= lines.len(),
        forall|i: int|
            0 <= i < n ==> (#[trigger] words_of(lines[i])).len() != 3 || words_of(lines[i])[0]
                != "column"@,
    ensures
        read_lines(Reading::start(), lines, n).layout.columns(side).len() <= 1,
    decreases n,
{
    if n > 0 {
        a_file_without_columns_has_one_a_side(lines, n - 1, side);
        let st = read_lines(Reading::start(), lines, n - 1);
        let w = words_of(lines[n - 1]);
        assert(read_lines(Reading::start(), lines, n) == read_line(st, w));
    }
}

/// A file of any other version is refused, and so is an empty one.
pub proof fn another_version_is_refused(text: Seq<char>)
    requires
        header_at(lines_of(text), 0) < lines_of(text).len() ==> trim_of(
            lines_of(text)[header_at(lines_of(text), 0)],
        ) != header(),
    ensures
        config_of(text) is None,
{
}

/// A line of no known shape changes nothing: leaving it out of the file gives
/// the same layout.
pub proof fn a_damaged_line_is_the_only_loss(lines: Seq<Seq<char>>, i: int)
    requires
        0 <= i < lines.len(),
        forall|st: Reading| #[trigger] read_line(st, words_of(lines[i])) == st,
    ensures
        finished(read_lines(Reading::start(), lines, lines.len() as int)) == finished(
            read_lines(Reading::start(), lines.remove(i), lines.len() - 1),
        ),
{
    lemma_line_left_out(Reading::start(), lines, i, lines.len() as int);
}

proof fn lemma_line_left_out(st: Reading, lines: Seq<Seq<char>>, i: int, n: int)
    requires
        0 <= i < n <= lines.len(),
        forall|st: Reading| #[trigger] read_line(st, words_of(lines[i])) == st,
    ensures
        read_lines(st, lines, n) == read_lines(st, lines.remove(i), n - 1),
    decreases n,
{
    if n == i + 1 {
        lemma_lines_before(st, lines, i, i);
    } else {
        lemma_line_left_out(st, lines, i, n - 1);
        assert(lines.remove(i)[n - 2] == lines[n - 1]);
    }
}

proof fn lemma_lines_before(st: Reading, lines: Seq<Seq<char>>, i: int, n: int)
    requires
        0 <= n <= i < lines.len(),
    ensures
        read_lines(st, lines, n) == read_lines(st, lines.remove(i), n),
    decreases n,
{
    if n > 0 {
        lemma_lines_before(st, lines, i, n - 1);
        assert(lines.remove(i)[n - 1] == lines[n - 1]);
    }
}

} // verus!

//! Lines, words and trimming, over sequences of characters.

use vstd::prelude::*;

verus! {

/// The characters Unicode calls white space.
#[verifier::opaque]
pub open spec fn is_white(c: char) -> bool {
    ||| '\u{9}' <= c <= '\u{d}'
    ||| c == '\u{20}'
    ||| c == '\u{85}'
    ||| c == '\u{a0}'
    ||| c == '\u{1680}'
    ||| '\u{2000}' <= c <= '\u{200a}'
    ||| c == '\u{2028}'
    ||| c == '\u{2029}'
    ||| c == '\u{202f}'
    ||| c == '\u{205f}'
    ||| c == '\u{3000}'
}

pub fn is_whitespace(c: char) -> (r: bool)
    ensures
        r == is_white(c),
{
    reveal(is_white);
    ('\u{9}' <= c && c <= '\u{d}') || c == '\u{20}' || c == '\u{85}' || c == '\u{a0}' || c
        == '\u{1680}' || ('\u{2000}' <= c && c <= '\u{200a}') || c == '\u{2028}' || c == '\u{2029}'
        || c == '\u{202f}' || c == '\u{205f}' || c == '\u{3000}'
}

/// The contents of a list of owned character runs.
pub open spec fn texts(v: Seq<Vec<char>>) -> Seq<Seq<char>> {
    v.map_values(|t: Vec<char>| t@)
}

/// The characters of a string, one by one.
pub fn chars_of(s: &str) -> (r: Vec<char>)
    ensures
        r@ == s@,
{
    let mut out: Vec<char> = Vec::new();
    for c in it: s.chars()
        invariant
            out@ == s@.take(it.index()),
            it.seq() == s@,
    {
        out.push(c);
        assert(s@.take(it.index() + 1) =~= s@.take(it.index()).push(s@[it.index()]));
    }
    assert(s@.take(s@.len() as int) =~= s@);
    out
}

/// `String::push` puts one character behind the others.
pub assume_specification[ String::push ](s: &mut String, c: char)
    ensures
        final(s)@ == old(s)@.push(c),
;

/// A string of these characters.
pub fn string_of(chars: &Vec<char>) -> (r: String)
    ensures
        r@ == chars@,
{
    let mut out = String::new();
    let mut i: usize = 0;
    while i < chars.len()
        invariant
            0 <= i <= chars@.len(),
            out@ == chars@.take(i as int),
        decreases chars@.len() - i,
    {
        out.push(chars[i]);
        i += 1;
        assert(chars@.take(i as int) =~= chars@.take(i - 1).push(chars@[i - 1]));
    }
    assert(chars@.take(chars@.len() as int) =~= chars@);
    out
}

/// Put the characters of a string behind others.
pub fn push_text(out: &mut Vec<char>, text: &str)
    ensures
        final(out)@ == old(out)@ + text@,
{
    let mut chars = chars_of(text);
    out.append(&mut chars);
}

/// Whether two runs of characters are the same.
pub fn same_chars(a: &Vec<char>, b: &Vec<char>) -> (r: bool)
    ensures
        r == (a@ == b@),
{
    if a.len() != b.len() {
        return false;
    }
    let mut i: usize = 0;
    while i < a.len()
        invariant
            i <= a.len(),
            a.len() == b.len(),
            forall|j: int| 0 <= j < i ==> a@[j] == b@[j],
        decreases a.len() - i,
    {
        if a[i] != b[i] {
            return false;
        }
        i += 1;
    }
    assert(a@ =~= b@);
    true
}

/// Whether a run of characters spells `text`.
pub fn spells(word: &Vec<char>, text: &str) -> (r: bool)
    ensures
        r == (word@ == text@),
{
    let other = chars_of(text);
    same_chars(word, &other)
}

/// Whether two strings hold the same characters.
pub fn same_text(a: &str, b: &str) -> (r: bool)
    ensures
        r == (a@ == b@),
{
    let left = chars_of(a);
    spells(&left, b)
}

/// The characters from `from` up to `to`.
pub fn part_of(s: &Vec<char>, from: usize, to: usize) -> (r: Vec<char>)
    requires
        from <= to <= s.len(),
    ensures
        r@ == s@.subrange(from as int, to as int),
{
    let mut out: Vec<char> = Vec::new();
    let mut i: usize = from;
    while i < to
        invariant
            from <= i <= to <= s.len(),
            out@ == s@.subrange(from as int, i as int),
        decreases to - i,
    {
        out.push(s[i]);
        i += 1;
        assert(s@.subrange(from as int, i as int) =~= s@.subrange(from as int, i - 1).push(
            s@[i - 1],
        ));
    }
    out
}

// --- lines ------------------------------------------------------------------

/// Where the line that holds position `from` ends: at its newline, or at the
/// end of the text.
pub open spec fn line_end(s: Seq<char>, from: int) -> int
    decreases s.len() - from,
{
    if 0 <= from < s.len() && s[from] != '\n' {
        line_end(s, from + 1)
    } else {
        from
    }
}

/// The lines from position `from` on, without their newlines. What follows the
/// last newline is a line too, though it may be empty.
pub open spec fn lines_from(s: Seq<char>, from: int) -> Seq<Seq<char>>
    decreases s.len() - from,
    when 0 <= from <= s.len()
    via lines_from_ends
{
    let end = line_end(s, from);
    if end >= s.len() {
        seq![s.subrange(from, s.len() as int)]
    } else {
        seq![s.subrange(from, end)] + lines_from(s, end + 1)
    }
}

#[via_fn]
proof fn lines_from_ends(s: Seq<char>, from: int) {
    lemma_line_end(s, from);
}

pub open spec fn lines_of(s: Seq<char>) -> Seq<Seq<char>> {
    lines_from(s, 0)
}

pub proof fn lemma_line_end(s: Seq<char>, from: int)
    requires
        0 <= from <= s.len(),
    ensures
        from <= line_end(s, from) <= s.len(),
        line_end(s, from) < s.len() ==> s[line_end(s, from)] == '\n',
        forall|j: int| from <= j < line_end(s, from) ==> s[j] != '\n',
    decreases s.len() - from,
{
    if from < s.len() && s[from] != '\n' {
        lemma_line_end(s, from + 1);
    }
}

/// A line ends where the first newline at or after its start is.
pub proof fn lemma_line_end_is(s: Seq<char>, from: int, end: int)
    requires
        0 <= from <= end <= s.len(),
        end < s.len() ==> s[end] == '\n',
        forall|j: int| from <= j < end ==> s[j] != '\n',
    ensures
        line_end(s, from) == end,
    decreases end - from,
{
    if from < end {
        lemma_line_end_is(s, from + 1, end);
    }
}

pub fn split_lines(s: &Vec<char>) -> (r: Vec<Vec<char>>)
    ensures
        texts(r@) == lines_of(s@),
{
    let mut out: Vec<Vec<char>> = Vec::new();
    let mut from: usize = 0;
    let mut i: usize = 0;
    assert(texts(out@) + lines_from(s@, 0) =~= lines_of(s@));
    while i < s.len()
        invariant
            from <= i <= s.len(),
            forall|j: int| from <= j < i ==> s@[j] != '\n',
            texts(out@) + lines_from(s@, from as int) == lines_of(s@),
        decreases s.len() - i,
    {
        if s[i] == '\n' {
            proof {
                lemma_line_end_is(s@, from as int, i as int);
            }
            let ghost before = texts(out@);
            out.push(part_of(s, from, i));
            assert(texts(out@) =~= before.push(s@.subrange(from as int, i as int)));
            assert(before + lines_from(s@, from as int) =~= texts(out@) + lines_from(
                s@,
                i as int + 1,
            ));
            from = i + 1;
        }
        i += 1;
    }
    proof {
        lemma_line_end_is(s@, from as int, i as int);
    }
    let ghost before = texts(out@);
    out.push(part_of(s, from, i));
    assert(texts(out@) =~= before.push(s@.subrange(from as int, i as int)));
    assert(texts(out@) =~= before + lines_from(s@, from as int));
    out
}

// --- words ------------------------------------------------------------------

/// The first position at or after `from` that is not white space.
pub open spec fn word_start(s: Seq<char>, from: int) -> int
    decreases s.len() - from,
{
    if 0 <= from < s.len() && is_white(s[from]) {
        word_start(s, from + 1)
    } else {
        from
    }
}

/// The first position at or after `from` that is white space, or the end.
pub open spec fn word_end(s: Seq<char>, from: int) -> int
    decreases s.len() - from,
{
    if 0 <= from < s.len() && !is_white(s[from]) {
        word_end(s, from + 1)
    } else {
        from
    }
}

/// The runs of characters that are not white space, from position `from` on.
pub open spec fn words_from(s: Seq<char>, from: int) -> Seq<Seq<char>>
    decreases s.len() - from,
    when 0 <= from <= s.len()
    via words_from_ends
{
    let a = word_start(s, from);
    if a >= s.len() {
        Seq::empty()
    } else {
        seq![s.subrange(a, word_end(s, a))] + words_from(s, word_end(s, a))
    }
}

#[via_fn]
proof fn words_from_ends(s: Seq<char>, from: int) {
    lemma_word_start(s, from);
    let a = word_start(s, from);
    if a < s.len() {
        lemma_word_end(s, a);
    }
}

pub open spec fn words_of(s: Seq<char>) -> Seq<Seq<char>> {
    words_from(s, 0)
}

pub proof fn lemma_word_start(s: Seq<char>, from: int)
    requires
        0 <= from <= s.len(),
    ensures
        from <= word_start(s, from) <= s.len(),
        word_start(s, from) < s.len() ==> !is_white(s[word_start(s, from)]),
        forall|j: int| from <= j < word_start(s, from) ==> is_white(s[j]),
    decreases s.len() - from,
{
    if from < s.len() && is_white(s[from]) {
        lemma_word_start(s, from + 1);
    }
}

pub proof fn lemma_word_end(s: Seq<char>, from: int)
    requires
        0 <= from <= s.len(),
    ensures
        from <= word_end(s, from) <= s.len(),
        from < s.len() && !is_white(s[from]) ==> from < word_end(s, from),
        word_end(s, from) < s.len() ==> is_white(s[word_end(s, from)]),
        forall|j: int| from <= j < word_end(s, from) ==> !is_white(s[j]),
    decreases s.len() - from,
{
    if from < s.len() && !is_white(s[from]) {
        lemma_word_end(s, from + 1);
    }
}

fn find_word_start(s: &Vec<char>, from: usize) -> (r: usize)
    requires
        from <= s.len(),
    ensures
        r == word_start(s@, from as int),
        from <= r <= s.len(),
{
    let mut i: usize = from;
    while i < s.len() && is_whitespace(s[i])
        invariant
            from <= i <= s.len(),
            word_start(s@, from as int) == word_start(s@, i as int),
        decreases s.len() - i,
    {
        i += 1;
    }
    i
}

fn find_word_end(s: &Vec<char>, from: usize) -> (r: usize)
    requires
        from <= s.len(),
    ensures
        r == word_end(s@, from as int),
        from <= r <= s.len(),
{
    let mut i: usize = from;
    while i < s.len() && !is_whitespace(s[i])
        invariant
            from <= i <= s.len(),
            word_end(s@, from as int) == word_end(s@, i as int),
        decreases s.len() - i,
    {
        i += 1;
    }
    i
}

pub fn split_words(s: &Vec<char>) -> (r: Vec<Vec<char>>)
    ensures
        texts(r@) == words_of(s@),
{
    let mut out: Vec<Vec<char>> = Vec::new();
    let mut from: usize = find_word_start(s, 0);
    proof {
        lemma_word_start(s@, 0);
        lemma_start_settles(s@, from as int);
    }
    assert(texts(out@) + words_from(s@, from as int) =~= words_of(s@));
    while from < s.len()
        invariant
            from <= s.len(),
            from < s.len() ==> !is_white(s@[from as int]),
            texts(out@) + words_from(s@, from as int) == words_of(s@),
        decreases s.len() - from,
    {
        let end: usize = find_word_end(s, from);
        let next: usize = find_word_start(s, end);
        proof {
            lemma_word_end(s@, from as int);
            lemma_word_start(s@, end as int);
            lemma_start_settles(s@, end as int);
            lemma_start_settles(s@, from as int);
        }
        let ghost before = texts(out@);
        out.push(part_of(s, from, end));
        assert(texts(out@) =~= before.push(s@.subrange(from as int, end as int)));
        assert(before + words_from(s@, from as int) =~= texts(out@) + words_from(s@, next as int));
        from = next;
    }
    assert(texts(out@) =~= words_of(s@));
    out
}

/// White space in front of a word changes none of the words.
proof fn lemma_start_settles(s: Seq<char>, from: int)
    requires
        0 <= from <= s.len(),
    ensures
        words_from(s, from) == words_from(s, word_start(s, from)),
        from < s.len() && !is_white(s[from]) ==> word_start(s, from) == from,
{
    lemma_word_start(s, from);
    let a = word_start(s, from);
    assert(word_start(s, a) == a);
}

// --- trimming ---------------------------------------------------------------

/// `s` without the white space in front of it.
pub open spec fn trim_start(s: Seq<char>) -> Seq<char>
    decreases s.len(),
{
    if s.len() > 0 && is_white(s.first()) {
        trim_start(s.drop_first())
    } else {
        s
    }
}

/// `s` without the white space behind it.
pub open spec fn trim_end(s: Seq<char>) -> Seq<char>
    decreases s.len(),
{
    if s.len() > 0 && is_white(s.last()) {
        trim_end(s.drop_last())
    } else {
        s
    }
}

pub open spec fn trim_of(s: Seq<char>) -> Seq<char> {
    trim_end(trim_start(s))
}

pub fn trim(s: &Vec<char>) -> (r: Vec<char>)
    ensures
        r@ == trim_of(s@),
{
    let mut from: usize = 0;
    assert(s@.subrange(0, s@.len() as int) =~= s@);
    while from < s.len() && is_whitespace(s[from])
        invariant
            from <= s.len(),
            trim_start(s@.subrange(from as int, s@.len() as int)) == trim_start(s@),
        decreases s.len() - from,
    {
        assert(s@.subrange(from as int, s@.len() as int).drop_first() =~= s@.subrange(
            from + 1,
            s@.len() as int,
        ));
        from += 1;
    }
    assert(trim_start(s@) == s@.subrange(from as int, s@.len() as int));
    let mut to: usize = s.len();
    while to > from && is_whitespace(s[to - 1])
        invariant
            from <= to <= s.len(),
            trim_end(s@.subrange(from as int, to as int)) == trim_of(s@),
        decreases to,
    {
        assert(s@.subrange(from as int, to as int).drop_last() =~= s@.subrange(
            from as int,
            to - 1,
        ));
        to -= 1;
    }
    part_of(s, from, to)
}

// --- what splitting and trimming do -------------------------------------------

proof fn lemma_word_ends_skip(s: Seq<char>, k: int, from: int)
    requires
        0 <= k <= s.len(),
        0 <= from <= s.len() - k,
    ensures
        word_start(s, k + from) == k + word_start(s.skip(k), from),
        word_end(s, k + from) == k + word_end(s.skip(k), from),
    decreases s.len() - k - from,
{
    if from < s.len() - k {
        assert(s.skip(k)[from] == s[k + from]);
        lemma_word_ends_skip(s, k, from + 1);
    }
}

proof fn lemma_words_skip(s: Seq<char>, k: int, from: int)
    requires
        0 <= k <= s.len(),
        0 <= from <= s.len() - k,
    ensures
        words_from(s, k + from) == words_from(s.skip(k), from),
    decreases s.len() - k - from,
{
    let t = s.skip(k);
    lemma_word_ends_skip(s, k, from);
    lemma_word_start(t, from);
    let a = word_start(t, from);
    if a < t.len() {
        lemma_word_ends_skip(s, k, a);
        lemma_word_end(t, a);
        let b = word_end(t, a);
        lemma_words_skip(s, k, b);
        assert(s.subrange(k + a, k + b) =~= t.subrange(a, b));
    }
}

proof fn lemma_word_end_is(s: Seq<char>, from: int, end: int)
    requires
        0 <= from <= end <= s.len(),
        end < s.len() ==> is_white(s[end]),
        forall|j: int| from <= j < end ==> !is_white(s[j]),
    ensures
        word_end(s, from) == end,
    decreases end - from,
{
    if from < end {
        lemma_word_end_is(s, from + 1, end);
    }
}

/// Words are split at white space, of which any amount counts once: a word and what
/// follows it are the word and the words of the rest, white space before anything is
/// nothing, and a text without any is its one word.
pub proof fn words_are_split_at_white_space(word: Seq<char>, white: char, rest: Seq<char>)
    requires
        word.len() > 0,
        forall|i: int| 0 <= i < word.len() ==> !is_white(#[trigger] word[i]),
        is_white(white),
    ensures
        words_of(word + seq![white] + rest) == seq![word] + words_of(rest),
        words_of(seq![white] + rest) == words_of(rest),
        words_of(word) == seq![word],
        words_of(Seq::<char>::empty()).len() == 0,
{
    let n = word.len() as int;
    let s = word + seq![white] + rest;
    assert forall|j: int| 0 <= j < n implies !is_white(s[j]) by {
        assert(s[j] == word[j]);
    }
    assert(s[n] == white);
    lemma_word_end_is(s, 0, n);
    lemma_start_settles(s, 0);
    assert(s.subrange(0, n) =~= word);
    let t = seq![white] + rest;
    assert(s.skip(n) =~= t);
    lemma_words_skip(s, n, 0);
    assert(t.skip(1) =~= rest);
    lemma_words_skip(t, 1, 0);
    assert(t[0] == white);
    assert(word_start(t, 0) == word_start(t, 1));
    assert(words_from(t, 0) =~= words_from(t, 1));
    lemma_word_end_is(word, 0, n);
    lemma_start_settles(word, 0);
    assert(word.subrange(0, n) =~= word);
    assert(word_start(word, n) == n);
    assert(words_from(word, n) =~= Seq::<Seq<char>>::empty());
    assert(words_from(word, 0) =~= seq![word]);
}

proof fn lemma_line_end_skip(s: Seq<char>, k: int, from: int)
    requires
        0 <= k <= s.len(),
        0 <= from <= s.len() - k,
    ensures
        line_end(s, k + from) == k + line_end(s.skip(k), from),
    decreases s.len() - k - from,
{
    if from < s.len() - k {
        assert(s.skip(k)[from] == s[k + from]);
        lemma_line_end_skip(s, k, from + 1);
    }
}

proof fn lemma_lines_skip(s: Seq<char>, k: int, from: int)
    requires
        0 <= k <= s.len(),
        0 <= from <= s.len() - k,
    ensures
        lines_from(s, k + from) == lines_from(s.skip(k), from),
    decreases s.len() - k - from,
{
    let t = s.skip(k);
    lemma_line_end_skip(s, k, from);
    lemma_line_end(t, from);
    let end = line_end(t, from);
    if end < t.len() {
        lemma_lines_skip(s, k, end + 1);
        assert(s.subrange(k + from, k + end) =~= t.subrange(from, end));
    } else {
        assert(s.subrange(k + from, s.len() as int) =~= t.subrange(from, t.len() as int));
    }
}

/// Lines are split at each newline and at nothing else: a line and what follows its
/// newline are the line and the lines of the rest, and a text without one is its one
/// line.
pub proof fn lines_are_split_at_newlines(line: Seq<char>, rest: Seq<char>)
    requires
        forall|i: int| 0 <= i < line.len() ==> #[trigger] line[i] != '\n',
    ensures
        lines_of(line + seq!['\n'] + rest) == seq![line] + lines_of(rest),
        lines_of(line) == seq![line],
{
    let n = line.len() as int;
    let s = line + seq!['\n'] + rest;
    assert forall|j: int| 0 <= j < n implies s[j] != '\n' by {
        assert(s[j] == line[j]);
    }
    assert(s[n] == '\n');
    lemma_line_end_is(s, 0, n);
    assert(s.subrange(0, n) =~= line);
    assert(s.skip(n + 1) =~= rest);
    lemma_lines_skip(s, n + 1, 0);
    lemma_line_end_is(line, 0, n);
    assert(line.subrange(0, n) =~= line);
}

/// Trimming takes white space off both ends and touches nothing between.
pub proof fn trimming_takes_only_the_ends(s: Seq<char>, white: char)
    requires
        is_white(white),
    ensures
        trim_of(seq![white] + s) == trim_of(s),
        trim_end(s.push(white)) == trim_end(s),
        s.len() > 0 && !is_white(s.first()) && !is_white(s.last()) ==> trim_of(s) == s,
        trim_of(Seq::<char>::empty()).len() == 0,
{
    let t = seq![white] + s;
    assert(t.first() == white);
    assert(t.drop_first() =~= s);
    let u = s.push(white);
    assert(u.drop_last() =~= s);
}

/// The characters that are white space, by their code points.
pub proof fn white_space_by_code_point(c: char)
    ensures
        9 <= c as int <= 13 || 0x2000 <= c as int <= 0x200a ==> is_white(c),
        is_white(' ') && is_white('\u{85}') && is_white('\u{a0}') && is_white('\u{1680}'),
        is_white('\u{2028}') && is_white('\u{2029}') && is_white('\u{202f}'),
        is_white('\u{205f}') && is_white('\u{3000}'),
        is_white(c) ==> {
            let n = c as int;
            ||| 9 <= n <= 13
            ||| n == 32
            ||| n == 0x85
            ||| n == 0xa0
            ||| n == 0x1680
            ||| 0x2000 <= n <= 0x200a
            ||| n == 0x2028
            ||| n == 0x2029
            ||| n == 0x202f
            ||| n == 0x205f
            ||| n == 0x3000
        },
{
    reveal(is_white);
}

} // verus!

//! Decimal numbers as they stand in a configuration file.
//!
//! A number is read to as many decimals as its reader asks for, a half going away
//! from zero: none for a width in whole points, four for a place on the grid of
//! [`crate::geom`], six for a share in millionths. What lies beyond [`REACH`] of
//! those steps is held there. Whether a number is finite at all is decided as a 32-bit float would: from
//! [`FIRST_INFINITE`] on it is not.

use crate::geom::{abs_of, clamp_of, REACH};
use crate::text::part_of;
use vstd::arithmetic::power::pow;
use vstd::prelude::*;

verus! {

/// What a word that is a number stands for.
#[derive(Clone, Copy, Debug, PartialEq, Eq, Structural)]
pub enum Number {
    /// A finite number, in the steps it was read in.
    Finite(i64),
    /// Larger than any finite number, or smaller.
    Infinite { negative: bool },
    NotANumber,
}

/// The smallest whole number a 32-bit float rounds to infinity: half a step
/// above the largest finite one.
pub const FIRST_INFINITE: u128 = 340282356779733661637539395458142568448;

// --- digits -----------------------------------------------------------------

pub open spec fn is_digit(c: char) -> bool {
    '0' <= c <= '9'
}

pub open spec fn digit_value(c: char) -> int {
    c as int - '0' as int
}

/// The whole number a run of digits spells.
pub open spec fn decimal(ds: Seq<char>) -> int
    decreases ds.len(),
{
    if ds.len() == 0 {
        0
    } else {
        decimal(ds.drop_last()) * 10 + digit_value(ds.last())
    }
}

pub open spec fn all_digits(ds: Seq<char>) -> bool {
    forall|i: int| 0 <= i < ds.len() ==> is_digit(#[trigger] ds[i])
}

/// The whole number in front of the point when the point stands behind the
/// first `places` digits of `ds`, zeros following on without end.
pub open spec fn whole_part(ds: Seq<char>, places: int) -> int {
    if places <= 0 {
        0
    } else if places <= ds.len() {
        decimal(ds.take(places))
    } else {
        decimal(ds) * pow(10, (places - ds.len()) as nat)
    }
}

/// Where the run of digits that starts at `from` ends.
pub open spec fn digits_end(s: Seq<char>, from: int) -> int
    decreases s.len() - from,
{
    if 0 <= from < s.len() && is_digit(s[from]) {
        digits_end(s, from + 1)
    } else {
        from
    }
}

pub proof fn lemma_digits_end_is(s: Seq<char>, from: int, end: int)
    requires
        0 <= from <= end <= s.len(),
        forall|j: int| from <= j < end ==> is_digit(s[j]),
        end < s.len() ==> !is_digit(s[end]),
    ensures
        digits_end(s, from) == end,
    decreases end - from,
{
    if from < end {
        lemma_digits_end_is(s, from + 1, end);
    }
}

// --- the grammar ------------------------------------------------------------

pub open spec fn is_sign(c: char) -> bool {
    c == '+' || c == '-'
}

/// Position behind an optional sign at `from`.
pub open spec fn past_sign(s: Seq<char>, from: int) -> int {
    if 0 <= from < s.len() && is_sign(s[from]) {
        from + 1
    } else {
        from
    }
}

pub open spec fn negative_at(s: Seq<char>, from: int) -> bool {
    0 <= from < s.len() && s[from] == '-'
}

/// The exponent written from position `at` to the end of the word: none at
/// all, which is zero, or an `e`, an optional sign and at least one digit.
pub open spec fn exponent_of(s: Seq<char>, at: int) -> Option<int> {
    if at == s.len() {
        Some(0)
    } else if s[at] == 'e' || s[at] == 'E' {
        let from = past_sign(s, at + 1);
        if from < s.len() && digits_end(s, from) == s.len() {
            let size = decimal(s.subrange(from, s.len() as int));
            Some(
                if negative_at(s, at + 1) {
                    -size
                } else {
                    size
                },
            )
        } else {
            None
        }
    } else {
        None
    }
}

/// A number taken apart: its digits, before and behind the point, and how many
/// of them the point, moved by the exponent, stands behind.
pub struct Decimal {
    pub digits: Seq<char>,
    pub places: int,
}

/// Digits, optionally with a point among, before or behind them, and an
/// optional exponent, from position `from` to the end of the word.
pub open spec fn decimal_of(s: Seq<char>, from: int) -> Option<Decimal> {
    let a = digits_end(s, from);
    let point = a < s.len() && s[a] == '.';
    let b0 = if point {
        a + 1
    } else {
        a
    };
    let b = if point {
        digits_end(s, b0)
    } else {
        a
    };
    let digits = s.subrange(from, a) + s.subrange(b0, b);
    if digits.len() == 0 {
        None
    } else {
        match exponent_of(s, b) {
            Some(e) => Some(Decimal { digits, places: a - from + e }),
            None => None,
        }
    }
}

/// A letter without its case.
pub open spec fn lower(c: char) -> char {
    if 'A' <= c <= 'Z' {
        (c as u32 + 32) as char
    } else {
        c
    }
}

/// Whether the word from `from` on is `name`, whatever the case of its letters.
pub open spec fn named(s: Seq<char>, from: int, name: Seq<char>) -> bool {
    &&& s.len() - from == name.len()
    &&& forall|i: int| 0 <= i < name.len() ==> lower(#[trigger] s[from + i]) == name[i]
}

/// The number with these digits and this sign, to `decimals` of them.
pub open spec fn number_with(d: Decimal, negative: bool, decimals: int) -> Number {
    if whole_part(d.digits, d.places) >= FIRST_INFINITE {
        Number::Infinite { negative }
    } else {
        let size = (whole_part(d.digits, d.places + decimals + 1) + 5) / 10;
        Number::Finite(
            clamp_of(
                if negative {
                    -size
                } else {
                    size
                },
                -REACH as int,
                REACH as int,
            ) as i64,
        )
    }
}

/// What a word stands for as a number, to `decimals` of them; nothing, when it is
/// not one.
#[verifier::opaque]
pub open spec fn number_of(s: Seq<char>, decimals: int) -> Option<Number> {
    let from = past_sign(s, 0);
    let negative = negative_at(s, 0);
    if named(s, from, "inf"@) || named(s, from, "infinity"@) {
        Some(Number::Infinite { negative })
    } else if named(s, from, "nan"@) {
        Some(Number::NotANumber)
    } else {
        match decimal_of(s, from) {
            None => None,
            Some(d) => Some(number_with(d, negative, decimals)),
        }
    }
}

// --- reading ----------------------------------------------------------------

proof fn lemma_decimal_nonnegative(ds: Seq<char>)
    requires
        all_digits(ds),
    ensures
        decimal(ds) >= 0,
    decreases ds.len(),
{
    if ds.len() > 0 {
        assert(all_digits(ds.drop_last()));
        lemma_decimal_nonnegative(ds.drop_last());
        assert(is_digit(ds[ds.len() - 1]));
    }
}

proof fn lemma_pow10(k: nat)
    ensures
        pow(10, k) >= 1,
        pow(10, k + 1) == 10 * pow(10, k),
    decreases k,
{
    vstd::arithmetic::power::lemma_pow_positive(10, k);
    vstd::arithmetic::power::lemma_pow_adds(10, 1, k);
    vstd::arithmetic::power::lemma_pow1(10);
    assert(pow(10, 1) * pow(10, k) == 10 * pow(10, k));
}

/// One more place is ten times as much and perhaps one more digit.
proof fn lemma_whole_part_step(ds: Seq<char>, places: int)
    requires
        all_digits(ds),
        places >= 0,
    ensures
        0 <= whole_part(ds, places),
        places < ds.len() ==> whole_part(ds, places + 1) == whole_part(ds, places) * 10
            + digit_value(ds[places]),
        places >= ds.len() ==> whole_part(ds, places + 1) == whole_part(ds, places) * 10,
{
    lemma_decimal_nonnegative(ds);
    if places < ds.len() {
        assert forall|i: int| 0 <= i < ds.take(places).len() implies is_digit(
            #[trigger] ds.take(places)[i],
        ) by {
            assert(is_digit(ds[i]));
        }
        lemma_decimal_nonnegative(ds.take(places));
        assert(ds.take(places + 1).drop_last() =~= ds.take(places));
        assert(is_digit(ds[places]));
        if places == 0 {
            assert(ds.take(0) =~= Seq::<char>::empty());
        }
    } else {
        let k = (places - ds.len()) as nat;
        lemma_pow10(k);
        assert(pow(10, 0) == 1) by {
            vstd::arithmetic::power::lemma_pow0(10);
        }
        assert(ds.take(ds.len() as int) =~= ds);
        assert(decimal(ds) * pow(10, k) >= 0) by (nonlinear_arith)
            requires
                decimal(ds) >= 0,
                pow(10, k) >= 1,
        ;
        assert(decimal(ds) * (10 * pow(10, k)) == decimal(ds) * pow(10, k) * 10)
            by (nonlinear_arith);
    }
}

/// More places never make the number smaller.
proof fn lemma_whole_part_grows(ds: Seq<char>, a: int, b: int)
    requires
        all_digits(ds),
        0 <= a <= b,
    ensures
        0 <= whole_part(ds, a) <= whole_part(ds, b),
    decreases b - a,
{
    lemma_whole_part_step(ds, a);
    if a < b {
        if a < ds.len() {
            assert(is_digit(ds[a]));
        }
        lemma_whole_part_grows(ds, a + 1, b);
    }
}

/// Behind the digits, a number that is not zero is ten times larger at every
/// place.
proof fn lemma_whole_part_soars(ds: Seq<char>, k: nat)
    requires
        all_digits(ds),
    ensures
        decimal(ds) == 0 ==> whole_part(ds, ds.len() as int + k) == 0,
        decimal(ds) > 0 ==> whole_part(ds, ds.len() as int + k) >= pow(10, k),
{
    lemma_pow10(k);
    vstd::arithmetic::power::lemma_pow0(10);
    lemma_decimal_nonnegative(ds);
    assert(ds.take(ds.len() as int) =~= ds);
    let d = decimal(ds);
    let p = pow(10, k);
    if ds.len() + k > 0 {
        if k > 0 {
            assert(whole_part(ds, ds.len() as int + k) == d * p);
        } else {
            assert(whole_part(ds, ds.len() as int + k) == d);
        }
        assert(d == 0 ==> d * p == 0) by (nonlinear_arith);
        assert(d > 0 && p >= 1 ==> d * p >= p) by (nonlinear_arith);
    }
}

/// [`whole_part`], held at `cap`.
fn whole_part_capped(ds: &Vec<char>, places: i128, cap: u128) -> (r: u128)
    requires
        all_digits(ds@),
        0 < cap <= FIRST_INFINITE,
    ensures
        r == if whole_part(ds@, places as int) < cap {
            whole_part(ds@, places as int)
        } else {
            cap as int
        },
{
    let mut acc: u128 = 0;
    let mut i: usize = 0;
    if places <= 0 {
        return 0;
    }
    while i < ds.len() && (i as i128) < places
        invariant
            all_digits(ds@),
            0 < cap <= FIRST_INFINITE,
            0 <= i <= ds.len(),
            i <= places,
            places > 0,
            acc == whole_part(ds@, i as int),
            acc < cap,
        decreases ds.len() - i,
    {
        let c: char = ds[i];
        assert(is_digit(ds@[i as int]));
        let d: u128 = (c as u32 - '0' as u32) as u128;
        proof {
            lemma_whole_part_step(ds@, i as int);
            lemma_whole_part_grows(ds@, i + 1, places as int);
        }
        if acc >= 34028236692093846346337460743176821145 || acc * 10 + d >= cap {
            return cap;
        }
        acc = acc * 10 + d;
        i += 1;
    }
    let mut at: i128 = i as i128;
    while at < places && acc > 0
        invariant
            all_digits(ds@),
            0 < cap <= FIRST_INFINITE,
            0 <= at <= places,
            at == places || at >= ds.len(),
            acc == whole_part(ds@, at as int),
            acc < cap,
        decreases places - at,
    {
        proof {
            lemma_whole_part_step(ds@, at as int);
            lemma_whole_part_grows(ds@, at + 1, places as int);
        }
        if acc >= 34028236692093846346337460743176821145 || acc * 10 >= cap {
            return cap;
        }
        acc = acc * 10;
        at += 1;
    }
    proof {
        if at < places {
            assert(acc == 0);
            lemma_stays_zero(ds@, at as int, places as int);
        }
    }
    acc
}

/// Zeros behind a zero stay zero.
proof fn lemma_stays_zero(ds: Seq<char>, a: int, b: int)
    requires
        all_digits(ds),
        ds.len() <= a <= b,
        0 <= a,
        whole_part(ds, a) == 0,
    ensures
        whole_part(ds, b) == 0,
    decreases b - a,
{
    if a < b {
        lemma_whole_part_step(ds, a);
        lemma_stays_zero(ds, a + 1, b);
    }
}

/// The most decimals a number is read to.
pub const MOST_DECIMALS: usize = 6;

/// As far as an exponent is read. A number with more zeros than this has no
/// other value on the grid than one with exactly this many.
const EXPONENT_CAP: i128 = 1_000_000_000_000_000_000_000_000_000_000;

/// The size of an exponent, held at [`EXPONENT_CAP`].
fn exponent_size(s: &Vec<char>, from: usize) -> (r: i128)
    requires
        from <= s.len(),
        forall|j: int| from <= j < s.len() ==> is_digit(s@[j]),
    ensures
        0 <= r <= EXPONENT_CAP,
        r == EXPONENT_CAP ==> decimal(s@.subrange(from as int, s@.len() as int)) >= EXPONENT_CAP,
        r < EXPONENT_CAP ==> decimal(s@.subrange(from as int, s@.len() as int)) == r,
{
    let digits = part_of(s, from, s.len());
    assert(all_digits(digits@));
    let size: u128 = whole_part_capped(&digits, digits.len() as i128, EXPONENT_CAP as u128);
    proof {
        assert(digits@.take(digits@.len() as int) =~= digits@);
    }
    size as i128
}

fn find_digits_end(s: &Vec<char>, from: usize) -> (r: usize)
    requires
        from <= s.len(),
    ensures
        r == digits_end(s@, from as int),
        from <= r <= s.len(),
        forall|j: int| from <= j < r ==> is_digit(s@[j]),
{
    let mut i: usize = from;
    while i < s.len() && '0' <= s[i] && s[i] <= '9'
        invariant
            from <= i <= s.len(),
            digits_end(s@, from as int) == digits_end(s@, i as int),
            forall|j: int| from <= j < i ==> is_digit(s@[j]),
        decreases s.len() - i,
    {
        i += 1;
    }
    i
}

/// Whether the word from `from` on is `name` in any case.
fn is_named(s: &Vec<char>, from: usize, name: &str) -> (r: bool)
    requires
        from <= s.len(),
    ensures
        r == named(s@, from as int, name@),
{
    let wanted = crate::text::chars_of(name);
    if s.len() - from != wanted.len() {
        return false;
    }
    let mut i: usize = 0;
    while i < wanted.len()
        invariant
            0 <= i <= wanted.len(),
            from <= s.len(),
            s.len() - from == wanted.len(),
            wanted@ == name@,
            forall|j: int| 0 <= j < i ==> lower(#[trigger] s@[from + j]) == name@[j],
        decreases wanted.len() - i,
    {
        let c: char = s[from + i];
        let l: char = lowered(c);
        assert(s@[from + i] == c);
        if l != wanted[i] {
            return false;
        }
        i += 1;
    }
    true
}

fn lowered(c: char) -> (r: char)
    ensures
        r == lower(c),
{
    if 'A' <= c && c <= 'Z' {
        let code: u8 = c as u8;
        (code + 32) as char
    } else {
        c
    }
}

/// Whether `e` is `exact`, or stands at the cap for an exponent beyond it.
spec fn exponent_held(e: int, exact: int) -> bool {
    ||| e == exact
    ||| e == EXPONENT_CAP && exact >= EXPONENT_CAP
    ||| e == -EXPONENT_CAP && exact <= -EXPONENT_CAP
}

/// Read the exponent from position `at` on, held at the cap.
fn parse_exponent(s: &Vec<char>, at: usize) -> (r: Option<i128>)
    requires
        at <= s.len(),
    ensures
        r is Some <==> exponent_of(s@, at as int) is Some,
        r is Some ==> -EXPONENT_CAP <= r->0 <= EXPONENT_CAP && exponent_held(
            r->0 as int,
            exponent_of(s@, at as int)->0,
        ),
{
    if at == s.len() {
        return Some(0);
    }
    if s[at] != 'e' && s[at] != 'E' {
        return None;
    }
    let signed = at + 1 < s.len() && (s[at + 1] == '+' || s[at + 1] == '-');
    let down = at + 1 < s.len() && s[at + 1] == '-';
    let first: usize = if signed {
        at + 2
    } else {
        at + 1
    };
    if first >= s.len() {
        return None;
    }
    let end: usize = find_digits_end(s, first);
    if end != s.len() {
        return None;
    }
    let size: i128 = exponent_size(s, first);
    Some(
        if down {
            -size
        } else {
            size
        },
    )
}

/// The number that `digits` are once the point stands behind the first `lead`
/// of them and is moved by the exponent.
fn settle(
    digits: &Vec<char>,
    lead: usize,
    e: i128,
    negative: bool,
    decimals: usize,
    exact: Ghost<int>,
) -> (r: Number)
    requires
        all_digits(digits@),
        decimals <= MOST_DECIMALS,
        -EXPONENT_CAP <= e <= EXPONENT_CAP,
        exponent_held(e as int, exact@),
    ensures
        r == number_with(
            Decimal { digits: digits@, places: lead + exact@ },
            negative,
            decimals as int,
        ),
{
    let places: i128 = lead as i128 + e;
    let count: usize = digits.len();
    proof {
        assert(count == digits@.len());
        lemma_far_exponent(digits@, lead as int, e as int, exact@, FIRST_INFINITE as int);
        let more = lead + decimals + 1;
        lemma_far_exponent(digits@, more, e as int, exact@, 10 * REACH);
        assert(places + decimals + 1 == more + e);
        assert(lead + exact@ + decimals + 1 == more + exact@);
    }
    let whole: u128 = whole_part_capped(digits, places, FIRST_INFINITE);
    if whole >= FIRST_INFINITE {
        return Number::Infinite { negative };
    }
    let tenths: u128 = whole_part_capped(
        digits,
        places + decimals as i128 + 1,
        10 * REACH as u128,
    );
    let size: i64 = ((tenths + 5) / 10) as i64;
    Number::Finite(
        if negative {
            -size
        } else {
            size
        },
    )
}

/// Read a word as a number, to `decimals` of them.
pub fn parse_number(s: &Vec<char>, decimals: usize) -> (r: Option<Number>)
    requires
        decimals <= MOST_DECIMALS,
    ensures
        r == number_of(s@, decimals as int),
{
    reveal(number_of);
    let negative = s.len() > 0 && s[0] == '-';
    let from: usize = if s.len() > 0 && (s[0] == '+' || s[0] == '-') {
        1
    } else {
        0
    };
    if is_named(s, from, "inf") || is_named(s, from, "infinity") {
        return Some(Number::Infinite { negative });
    }
    if is_named(s, from, "nan") {
        return Some(Number::NotANumber);
    }
    let a: usize = find_digits_end(s, from);
    let point = a < s.len() && s[a] == '.';
    let b0: usize = if point {
        a + 1
    } else {
        a
    };
    let b: usize = if point {
        find_digits_end(s, b0)
    } else {
        a
    };
    let mut digits = part_of(s, from, a);
    let mut behind = part_of(s, b0, b);
    digits.append(&mut behind);
    if digits.len() == 0 {
        return None;
    }
    assert(digits@ == s@.subrange(from as int, a as int) + s@.subrange(b0 as int, b as int));
    assert(all_digits(digits@)) by {
        assert forall|i: int| 0 <= i < digits@.len() implies is_digit(#[trigger] digits@[i]) by {
            if i < a - from {
                assert(digits@[i] == s@[from + i]);
            } else {
                assert(digits@[i] == s@[b0 + (i - (a - from))]);
            }
        }
    }
    match parse_exponent(s, b) {
        None => None,
        Some(e) => {
            let ghost exact = exponent_of(s@, b as int)->0;
            Some(settle(&digits, a - from, e, negative, decimals, Ghost(exact)))
        },
    }
}

/// Once an exponent is past the cap, how far past makes no difference to a
/// number that is held at a bound.
proof fn lemma_far_exponent(ds: Seq<char>, lead: int, e: int, exact: int, cap: int)
    requires
        all_digits(ds),
        0 < cap <= FIRST_INFINITE,
        ds.len() <= u64::MAX,
        0 <= lead <= u64::MAX + 7,
        exponent_held(e, exact),
    ensures
        clamp_of(whole_part(ds, lead + e), 0, cap) == clamp_of(
            whole_part(ds, lead + exact),
            0,
            cap,
        ),
        whole_part(ds, lead + e) >= 0,
        whole_part(ds, lead + exact) >= 0,
{
    if lead + e >= 0 {
        lemma_whole_part_step(ds, lead + e);
    }
    if lead + exact >= 0 {
        lemma_whole_part_step(ds, lead + exact);
    }
    if e != exact && e > 0 {
        let j = (lead + e - ds.len()) as nat;
        let k = (lead + exact - ds.len()) as nat;
        lemma_whole_part_soars(ds, j);
        lemma_whole_part_soars(ds, k);
        lemma_decimal_nonnegative(ds);
        vstd::arithmetic::power::lemma_pow_increases(10, 39, j);
        vstd::arithmetic::power::lemma_pow_increases(10, 39, k);
        assert(pow(10, 39) >= FIRST_INFINITE) by {
            lemma_pow_39();
        }
    }
}

proof fn lemma_pow_39()
    ensures
        pow(10, 39) == 1_000_000_000_000_000_000_000_000_000_000_000_000_000int,
{
    reveal_with_fuel(pow, 40);
}

// --- writing ----------------------------------------------------------------

pub open spec fn digit_char(d: int) -> char {
    (d + '0' as int) as char
}

/// A whole number in decimal, without leading zeros.
pub open spec fn digits_of(n: nat) -> Seq<char>
    decreases n,
{
    if n < 10 {
        seq![digit_char(n as int)]
    } else {
        digits_of(n / 10).push(digit_char((n % 10) as int))
    }
}

/// The last `k` digits of a whole number, zeros included.
pub open spec fn last_digits(n: nat, k: nat) -> Seq<char>
    decreases k,
{
    if k == 0 {
        Seq::empty()
    } else {
        last_digits(n / 10, (k - 1) as nat).push(digit_char((n % 10) as int))
    }
}

/// How many `unit`s are nearest to `v`; of two equally near, the even one.
pub open spec fn nearest(v: int, unit: int) -> int {
    let down = v / unit;
    let rest = v % unit;
    if 2 * rest < unit || (2 * rest == unit && down % 2 == 0) {
        down
    } else {
        down + 1
    }
}

/// How many decimals a number is written with.
#[derive(Clone, Copy, Debug, PartialEq, Eq, Structural)]
pub enum Decimals {
    Whole,
    Tenths,
    TenThousandths,
}

impl Decimals {
    /// The smallest step that can be written, in grid units.
    pub open spec fn unit(self) -> int {
        match self {
            Decimals::Whole => 10_000,
            Decimals::Tenths => 1_000,
            Decimals::TenThousandths => 1,
        }
    }

    pub open spec fn count(self) -> nat {
        match self {
            Decimals::Whole => 0,
            Decimals::Tenths => 1,
            Decimals::TenThousandths => 4,
        }
    }

    /// How many steps make one point.
    pub open spec fn steps(self) -> int {
        match self {
            Decimals::Whole => 1,
            Decimals::Tenths => 10,
            Decimals::TenThousandths => 10_000,
        }
    }
}

/// A length in points, rounded to the decimals it is written with. What rounds to
/// nothing has no sign.
#[verifier::opaque]
pub open spec fn number_text(v: int, decimals: Decimals) -> Seq<char> {
    let n = nearest(abs_of(v), decimals.unit());
    let sign = if v < 0 && n > 0 {
        seq!['-']
    } else {
        Seq::empty()
    };
    let point = if decimals is Whole {
        Seq::empty()
    } else {
        seq!['.']
    };
    sign + digits_of((n / decimals.steps()) as nat) + point + last_digits(
        (n % decimals.steps()) as nat,
        decimals.count(),
    )
}

/// What is left of a length once it has been written and read again.
#[verifier::opaque]
pub open spec fn as_written(v: int, decimals: Decimals) -> int {
    let n = nearest(abs_of(v), decimals.unit()) * decimals.unit();
    if v < 0 {
        -n
    } else {
        n
    }
}

fn digit(d: u64) -> (r: char)
    requires
        d < 10,
    ensures
        r == digit_char(d as int),
{
    let code: u8 = d as u8 + 48;
    code as char
}

pub(crate) fn write_digits(n: u64, out: &mut Vec<char>)
    ensures
        final(out)@ == old(out)@ + digits_of(n as nat),
    decreases n,
{
    if n < 10 {
        out.push(digit(n));
        assert(out@ =~= old(out)@ + digits_of(n as nat));
    } else {
        write_digits(n / 10, out);
        out.push(digit(n % 10));
        assert(out@ =~= old(out)@ + digits_of(n as nat));
    }
}

fn write_last_digits(n: u64, k: usize, out: &mut Vec<char>)
    ensures
        final(out)@ == old(out)@ + last_digits(n as nat, k as nat),
    decreases k,
{
    if k > 0 {
        write_last_digits(n / 10, k - 1, out);
        out.push(digit(n % 10));
    }
    assert(out@ =~= old(out)@ + last_digits(n as nat, k as nat));
}

/// Write a length in points.
pub fn write_number(v: i64, decimals: Decimals, out: &mut Vec<char>)
    requires
        -32 * REACH <= v <= 32 * REACH,
    ensures
        final(out)@ == old(out)@ + number_text(v as int, decimals),
{
    reveal(number_text);
    let (unit, steps, count): (u64, u64, usize) = match decimals {
        Decimals::Whole => (10_000, 1, 0),
        Decimals::Tenths => (1_000, 10, 1),
        Decimals::TenThousandths => (1, 10_000, 4),
    };
    let size: u64 = if v < 0 {
        (-v) as u64
    } else {
        v as u64
    };
    let down: u64 = size / unit;
    let rest: u64 = size % unit;
    let n: u64 = if 2 * rest < unit || (2 * rest == unit && down % 2 == 0) {
        down
    } else {
        down + 1
    };
    assert(n == nearest(abs_of(v as int), decimals.unit()));
    if v < 0 && n > 0 {
        out.push('-');
    }
    write_digits(n / steps, out);
    if count > 0 {
        out.push('.');
    }
    write_last_digits(n % steps, count, out);
    assert(out@ =~= old(out)@ + number_text(v as int, decimals));
}

// --- what is written is what is read ----------------------------------------

proof fn lemma_digit_char(d: int)
    requires
        0 <= d < 10,
    ensures
        is_digit(digit_char(d)),
        digit_value(digit_char(d)) == d,
{
}

pub proof fn lemma_digits_of(n: nat)
    ensures
        all_digits(digits_of(n)),
        digits_of(n).len() > 0,
        decimal(digits_of(n)) == n,
    decreases n,
{
    lemma_digit_char((n % 10) as int);
    if n < 10 {
        assert(digits_of(n).drop_last() =~= Seq::<char>::empty());
        assert(decimal(Seq::<char>::empty()) == 0);
    } else {
        lemma_digits_of(n / 10);
        assert(digits_of(n).drop_last() =~= digits_of(n / 10));
    }
}

pub proof fn lemma_last_digits(n: nat, k: nat)
    ensures
        all_digits(last_digits(n, k)),
        last_digits(n, k).len() == k,
    decreases k,
{
    if k > 0 {
        lemma_digit_char((n % 10) as int);
        lemma_last_digits(n / 10, (k - 1) as nat);
    }
}

/// Digits followed by the last `k` of a number read as both together.
proof fn lemma_joined(ds: Seq<char>, n: nat, k: nat)
    requires
        n < pow(10, k),
    ensures
        decimal(ds + last_digits(n, k)) == decimal(ds) * pow(10, k) + n,
    decreases k,
{
    vstd::arithmetic::power::lemma_pow0(10);
    if k == 0 {
        assert(ds + last_digits(n, k) =~= ds);
    } else {
        let j = (k - 1) as nat;
        lemma_pow10(j);
        lemma_digit_char((n % 10) as int);
        lemma_joined(ds, n / 10, j);
        assert((ds + last_digits(n, k)).drop_last() =~= ds + last_digits(n / 10, j));
        let a = decimal(ds);
        let p = pow(10, j);
        assert((a * p + n / 10) * 10 + n % 10 == a * (10 * p) + n) by (nonlinear_arith);
    }
}

/// A number that is written has the digits it was written with.
proof fn lemma_text_parts(
    negative: bool,
    front: Seq<char>,
    tail: Seq<char>,
    s: Seq<char>,
    decimals: int,
)
    requires
        all_digits(front),
        all_digits(tail),
        front.len() > 0,
        s == (if negative {
            seq!['-']
        } else {
            Seq::empty()
        }) + front + (if tail.len() == 0 {
            Seq::empty()
        } else {
            seq!['.']
        }) + tail,
    ensures
        number_of(s, decimals) == Some(
            number_with(
                Decimal { digits: front + tail, places: front.len() as int },
                negative,
                decimals,
            ),
        ),
{
    reveal(number_of);
    let from = if negative {
        1int
    } else {
        0int
    };
    assert(is_digit(front[0]));
    assert(s[from] == front[0]);
    assert(past_sign(s, 0) == from);
    reveal_strlit("inf");
    reveal_strlit("infinity");
    reveal_strlit("nan");
    assert(lower(s[from + 0]) == s[from]);
    let a = from + front.len();
    assert forall|j: int| from <= j < a implies is_digit(s[j]) by {
        assert(s[j] == front[j - from]);
    }
    lemma_digits_end_is(s, from, a);
    assert(s.subrange(from, a) =~= front);
    if tail.len() == 0 {
        assert(s.len() == a);
        assert(s.subrange(a, a) =~= tail);
    } else {
        assert(s[a] == '.');
        let b = s.len() as int;
        assert forall|j: int| a + 1 <= j < b implies is_digit(s[j]) by {
            assert(s[j] == tail[j - (a + 1)]);
        }
        lemma_digits_end_is(s, a + 1, b);
        assert(s.subrange(a + 1, b) =~= tail);
    }
    assert(decimal_of(s, from) == Some(
        Decimal { digits: front + tail, places: front.len() as int },
    ));
}

/// How many of the steps it is read in a written step is.
pub open spec fn finer(decimals: Decimals, read: int) -> int {
    pow(10, (read - decimals.count()) as nat)
}

/// A number that is written comes back as what was written of it, read to at
/// least as many decimals.
pub proof fn number_reads_back(v: int, decimals: Decimals, read: int)
    requires
        decimals.count() <= read <= MOST_DECIMALS,
        nearest(abs_of(v), decimals.unit()) * finer(decimals, read) <= REACH,
    ensures
        number_of(number_text(v, decimals), read) == Some(
            Number::Finite(
                (if v < 0 {
                    -(nearest(abs_of(v), decimals.unit()) * finer(decimals, read))
                } else {
                    nearest(abs_of(v), decimals.unit()) * finer(decimals, read)
                }) as i64,
            ),
        ),
{
    reveal(number_text);
    let n = nearest(abs_of(v), decimals.unit());
    assert(n >= 0);
    let whole = (n / decimals.steps()) as nat;
    let rest = (n % decimals.steps()) as nat;
    let count = decimals.count();
    let front = digits_of(whole);
    let tail = last_digits(rest, count);
    let ds = front + tail;
    lemma_digits_of(whole);
    lemma_last_digits(rest, count);
    lemma_text_parts(v < 0 && n > 0, front, tail, number_text(v, decimals), read);
    assert(pow(10, count) == decimals.steps()) by {
        reveal_with_fuel(pow, 5);
    }
    lemma_joined(front, rest, count);
    assert(decimal(ds) == n) by {
        match decimals {
            Decimals::Whole => {},
            Decimals::Tenths => {},
            Decimals::TenThousandths => {},
        }
    }
    assert(ds.take(front.len() as int) =~= front);
    assert(ds.take(ds.len() as int) =~= ds);
    assert(whole_part(ds, front.len() as int) == whole);
    let k = (read - count) as nat;
    vstd::arithmetic::power::lemma_pow0(10);
    lemma_pow10(k);
    let places = front.len() + read;
    assert(places == ds.len() + k);
    if k == 0 {
        assert(whole_part(ds, places) == decimal(ds.take(places)));
        assert(n * pow(10, k) == n) by (nonlinear_arith)
            requires
                pow(10, k) == 1,
        ;
    } else {
        assert(whole_part(ds, places) == decimal(ds) * pow(10, k));
    }
    assert(whole_part(ds, places) == n * pow(10, k));
    lemma_whole_part_step(ds, places as int);
    assert(whole <= n);
    assert(n <= REACH) by (nonlinear_arith)
        requires
            n * pow(10, k) <= REACH,
            pow(10, k) >= 1,
            n >= 0,
    ;
}

/// A length that is written comes back as what was written of it.
pub proof fn number_round_trip(v: int, decimals: Decimals)
    requires
        -REACH <= as_written(v, decimals) <= REACH,
    ensures
        number_of(number_text(v, decimals), 4) == Some(
            Number::Finite(as_written(v, decimals) as i64),
        ),
{
    reveal(as_written);
    assert(finer(decimals, 4) == decimals.unit()) by {
        reveal_with_fuel(pow, 5);
    }
    number_reads_back(v, decimals, 4);
}

// --- what numbers mean ------------------------------------------------------

/// Each digit stands for itself, and each is written as itself.
pub proof fn digits_stand_for_themselves(d: int)
    requires
        0 <= d < 10,
    ensures
        is_digit((48 + d) as char),
        digit_value((48 + d) as char) == d,
        digit_char(d) == (48 + d) as char,
        !is_digit('/'),
        !is_digit(':'),
        is_digit('0') && digit_value('0') == 0,
        is_digit('9') && digit_value('9') == 9,
{
}

/// A digit more makes ten times the number and the digit, read or written.
pub proof fn a_digit_more_is_ten_times_the_number(ds: Seq<char>, c: char, n: nat, d: nat)
    requires
        n > 0,
        d < 10,
    ensures
        decimal(Seq::<char>::empty()) == 0,
        decimal(ds.push(c)) == 10 * decimal(ds) + digit_value(c),
        digits_of(d) == seq![(48 + d) as char],
        digits_of(10 * n + d) == digits_of(n).push((48 + d) as char),
{
    assert(ds.push(c).drop_last() =~= ds);
    assert((10 * n + d) / 10 == n);
    assert((10 * n + d) % 10 == d);
}

/// What is nearest is at most half a unit away, and of two that are equally near it is
/// the even one.
pub proof fn nearest_is_nearest(v: int, unit: int)
    requires
        v >= 0,
        unit > 0,
    ensures
        -unit <= 2 * (nearest(v, unit) * unit - v) <= unit,
        2 * (nearest(v, unit) * unit - v) == unit || 2 * (nearest(v, unit) * unit - v) == -unit
            ==> nearest(v, unit) % 2 == 0,
{
    vstd::arithmetic::div_mod::lemma_fundamental_div_mod(v, unit);
    vstd::arithmetic::div_mod::lemma_mod_bound(v, unit);
    let (down, rest) = (v / unit, v % unit);
    assert(down * unit == unit * down) by (nonlinear_arith);
    assert((down + 1) * unit == unit * down + unit) by (nonlinear_arith);
}

/// What is written of a length is the length to the decimals it is written with: at most
/// half a point off, half a tenth, or nothing.
pub proof fn writing_keeps_a_length_to_its_decimals(v: int)
    ensures
        -5_000 <= as_written(v, Decimals::Whole) - v <= 5_000,
        -500 <= as_written(v, Decimals::Tenths) - v <= 500,
        as_written(v, Decimals::TenThousandths) == v,
        as_written(v, Decimals::Whole) % 10_000 == 0,
        as_written(v, Decimals::Tenths) % 1_000 == 0,
{
    reveal(as_written);
    let a = abs_of(v);
    nearest_is_nearest(a, 10_000);
    nearest_is_nearest(a, 1_000);
    nearest_is_nearest(a, 1);
    assert(nearest(a, 1) * 1 == nearest(a, 1));
    assert(Decimals::TenThousandths.unit() == 1);
    assert(Decimals::Tenths.unit() == 1_000);
}

/// Digits with a point among them are the number they spell, read in steps as fine as the
/// digits behind the point; a minus before them takes it below nothing. Past what the grid
/// reaches it is held to that.
pub proof fn a_number_is_what_its_digits_spell(
    negative: bool,
    front: Seq<char>,
    tail: Seq<char>,
    s: Seq<char>,
)
    requires
        all_digits(front),
        all_digits(tail),
        front.len() > 0,
        tail.len() > 0,
        s == (if negative {
            seq!['-']
        } else {
            Seq::empty()
        }) + front + seq!['.'] + tail,
        decimal(front + tail) <= 1_000_000_000_000_000,
    ensures
        number_of(s, tail.len() as int) == Some(
            Number::Finite(
                (if negative {
                    -decimal(front + tail)
                } else {
                    decimal(front + tail)
                }) as i64,
            ),
        ),
{
    let ds = front + tail;
    let k = tail.len() as int;
    lemma_text_parts(negative, front, tail, s, k);
    assert(all_digits(ds));
    lemma_decimal_nonnegative(ds);
    assert(ds.take(ds.len() as int) =~= ds);
    lemma_whole_part_grows(ds, front.len() as int, ds.len() as int);
    lemma_whole_part_step(ds, ds.len() as int);
    assert(whole_part(ds, ds.len() as int) == decimal(ds));
    assert(whole_part(ds, ds.len() as int + 1) == decimal(ds) * 10);
}

/// Digits alone are a whole number, in steps of one.
pub proof fn a_whole_number_is_what_its_digits_spell(negative: bool, front: Seq<char>, s: Seq<char>)
    requires
        all_digits(front),
        front.len() > 0,
        s == (if negative {
            seq!['-']
        } else {
            Seq::empty()
        }) + front,
        decimal(front) <= 1_000_000_000_000_000,
    ensures
        number_of(s, 0) == Some(
            Number::Finite(
                (if negative {
                    -decimal(front)
                } else {
                    decimal(front)
                }) as i64,
            ),
        ),
{
    let tail = Seq::<char>::empty();
    assert(s =~= (if negative {
        seq!['-']
    } else {
        Seq::empty()
    }) + front + Seq::<char>::empty() + tail);
    assert(front + tail =~= front);
    lemma_text_parts(negative, front, tail, s, 0);
    lemma_decimal_nonnegative(front);
    assert(front.take(front.len() as int) =~= front);
    lemma_whole_part_step(front, front.len() as int);
    assert(whole_part(front, front.len() as int + 1) == decimal(front) * 10);
}

/// An exponent moves the point: to the right by as much as it says, and to the left where
/// it has a minus.
pub proof fn an_exponent_moves_the_point(s: Seq<char>, at: int, size: Seq<char>)
    requires
        0 <= at < s.len(),
        s[at] == 'e' || s[at] == 'E',
        all_digits(size),
        size.len() > 0,
    ensures
        s.skip(at + 1) == size ==> exponent_of(s, at) == Some(decimal(size)),
        s.skip(at + 1) == seq!['-'] + size ==> exponent_of(s, at) == Some(-decimal(size)),
        s.skip(at + 1) == seq!['+'] + size ==> exponent_of(s, at) == Some(decimal(size)),
        exponent_of(s, s.len() as int) == Some(0int),
{
    let rest = s.skip(at + 1);
    assert forall|from: int| 0 <= from <= s.len() && s.skip(from) == size implies digits_end(s, from)
        == s.len() && #[trigger] s.subrange(from, s.len() as int) == size by {
        assert(s.subrange(from, s.len() as int) =~= s.skip(from));
        assert forall|j: int| from <= j < s.len() implies is_digit(s[j]) by {
            assert(s[j] == s.skip(from)[j - from]);
            assert(is_digit(size[j - from]));
        }
        lemma_digits_end_is(s, from, s.len() as int);
    }
    if rest == size {
        assert(s[at + 1] == rest[0]);
        assert(is_digit(size[0]));
        assert(s.subrange(at + 1, s.len() as int) == size);
    }
    if rest == seq!['-'] + size || rest == seq!['+'] + size {
        assert(s[at + 1] == rest[0]);
        assert(s.skip(at + 2) =~= rest.skip(1));
        assert(rest.skip(1) =~= size);
        assert(s.subrange(at + 2, s.len() as int) == size);
    }
}

/// The words for the infinite and for what is no number are read in either case.
pub proof fn infinity_is_read_by_name(s: Seq<char>, decimals: int)
    requires
        s.len() == 3,
    ensures
        (s[0] == 'i' || s[0] == 'I') && (s[1] == 'n' || s[1] == 'N') && (s[2] == 'f' || s[2] == 'F')
            ==> number_of(s, decimals) == Some(Number::Infinite { negative: false }),
        (s[0] == 'n' || s[0] == 'N') && (s[1] == 'a' || s[1] == 'A') && (s[2] == 'n' || s[2] == 'N')
            ==> number_of(s, decimals) == Some(Number::NotANumber),
{
    reveal(number_of);
    reveal_strlit("inf");
    reveal_strlit("infinity");
    reveal_strlit("nan");
    assert(past_sign(s, 0) == 0 || is_sign(s[0]));
    if (s[0] == 'n' || s[0] == 'N') && (s[1] == 'a' || s[1] == 'A') && (s[2] == 'n' || s[2] == 'N') {
        assert(lower(s[0int + 0int]) == 'n');
        assert("inf"@[0] == 'i');
        assert(!named(s, 0, "inf"@));
    }
}

/// A number too large for what it is read into is infinite, with its sign; any other is
/// held to the grid's reach, and read to the nearest step.
pub proof fn a_number_is_held_to_the_grid(d: Decimal, negative: bool, decimals: int)
    requires
        decimals >= 0,
        whole_part(d.digits, d.places) >= 0,
    ensures
        whole_part(d.digits, d.places) >= FIRST_INFINITE ==> number_with(d, negative, decimals) == (
        Number::Infinite { negative }),
        whole_part(d.digits, d.places) < FIRST_INFINITE ==> (number_with(d, negative, decimals) matches Number::Finite(
            v,
        ) && -1_000_000_000_000_000 <= v <= 1_000_000_000_000_000),
        ({
            let ten = whole_part(d.digits, d.places + decimals + 1);
            0 <= ten < 10_000_000_000_000_000 && whole_part(d.digits, d.places) < FIRST_INFINITE ==> (
            number_with(d, negative, decimals) matches Number::Finite(v) && (if negative {
                -5 <= -10 * v - ten <= 5
            } else {
                -5 <= 10 * v - ten <= 5
            }))
        }),
{
}

} // verus!

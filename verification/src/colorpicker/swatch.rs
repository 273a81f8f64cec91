//! The row of colours a harmony reaches, the one in hand first.

use crate::colour::{Hsv, Rgb};
use crate::geom::{max_of, Pos2, Rect, Vec2, REACH};
use crate::text::{push_text, string_of};
use vstd::prelude::*;

verus! {

/// How tall a swatch is, and how far apart two of them sit.
pub const HARMONY_SWATCH: i64 = 280_000;

pub const HARMONY_GAP: i64 = 40_000;

/// The bar under the swatch that is the colour in hand, and the gap above it.
pub const HARMONY_MARK: i64 = 30_000;

pub const HARMONY_MARK_GAP: i64 = 30_000;

/// The height of the row: the colour, and room for the mark under every one of
/// them whether or not it wears it.
pub const HARMONY_ROW: i64 = 340_000;

/// The radius of a member's marker on the hue ring, and how far outside it the
/// second ring of the colour in hand sits.
pub const HARMONY_MARKER: i64 = 60_000;

pub const HARMONY_BASE_GAP: i64 = 30_000;

/// How wide a marker's line is.
pub const MARKER_STROKE: i64 = 20_000;

/// How wide one swatch of a row of `count` is: an even share of what the gaps
/// leave, and never less than a point.
pub open spec fn swatch_wide(row: Rect, count: int) -> int {
    max_of((row.wide() - HARMONY_GAP * (count - 1)) / count, 10_000)
}

pub open spec fn swatch_left(row: Rect, index: int, count: int) -> int {
    row.min.x + index * (swatch_wide(row, count) + HARMONY_GAP)
}

proof fn lemma_swatch(row: Rect, index: int, count: int)
    requires
        row.in_reach(),
        0 <= index < count <= 1_000_000_000,
    ensures
        10_000 <= swatch_wide(row, count) <= 2 * REACH,
        0 <= index * (swatch_wide(row, count) + HARMONY_GAP) <= 2 * REACH + 50_000_000_000_000,
{
    let room = row.wide() - HARMONY_GAP * (count - 1);
    let each = swatch_wide(row, count);
    assert(HARMONY_GAP * (count - 1) == 40_000 * count - 40_000);
    assert(room / count * count <= room) by (nonlinear_arith)
        requires
            count > 0,
    ;
    if room >= 0 {
        assert(room / count <= room) by (nonlinear_arith)
            requires
                count > 0,
                room >= 0,
        ;
    } else {
        assert(room / count <= 0) by (nonlinear_arith)
            requires
                count > 0,
                room < 0,
        ;
    }
    if each > 10_000 {
        assert(index * (each + 40_000) <= room + 40_000 * (count - 1)) by (nonlinear_arith)
            requires
                index <= count - 1,
                each * count <= room,
                each >= 0,
        ;
        assert(0 <= index * (each + 40_000)) by (nonlinear_arith)
            requires
                index >= 0,
                each >= 0,
        ;
    } else {
        assert(index * (each + 40_000) == index * 50_000) by (nonlinear_arith)
            requires
                each == 10_000,
        ;
    }
}

/// Where one swatch of a row of `count` sits.
pub fn swatch_cell(row: Rect, index: usize, count: usize) -> (r: Rect)
    requires
        row.in_reach(),
        index < count <= 1_000_000_000,
    ensures
        r.min.x == swatch_left(row, index as int, count as int),
        r.min.y == row.min.y,
        r.wide() == swatch_wide(row, count as int),
        r.tall() == max_of(row.tall() - HARMONY_MARK_GAP - HARMONY_MARK, 10_000),
{
    proof {
        lemma_swatch(row, index as int, count as int);
    }
    let room: i64 = (row.max.x - row.min.x) - HARMONY_GAP * (count as i64 - 1);
    let each: i64 = if room >= 0 && room / (count as i64) >= 10_000 {
        room / (count as i64)
    } else {
        10_000
    };
    let tall: i64 = (row.max.y - row.min.y) - HARMONY_MARK_GAP - HARMONY_MARK;
    proof {
        if room < 0 {
            assert(room as int / count as int <= 0) by (nonlinear_arith)
                requires
                    count > 0,
                    room < 0,
            ;
        }
        assert(each == swatch_wide(row, count as int));
    }
    Rect::from_min_size(
        Pos2 { x: row.min.x + (index as i64) * (each + HARMONY_GAP), y: row.min.y },
        Vec2 {
            x: each,
            y: if tall >= 10_000 {
                tall
            } else {
                10_000
            },
        },
    )
}

/// The bar under one swatch, drawn only for the colour in hand.
pub fn swatch_mark(cell: Rect) -> (r: Rect)
    requires
        cell.bounded(),
    ensures
        r.min.x == cell.min.x,
        r.min.y == cell.max.y + HARMONY_MARK_GAP,
        r.wide() == cell.wide(),
        r.tall() == HARMONY_MARK,
{
    Rect::from_min_size(
        Pos2 { x: cell.min.x, y: cell.max.y + HARMONY_MARK_GAP },
        Vec2 { x: cell.max.x - cell.min.x, y: HARMONY_MARK },
    )
}

/// Two swatches of a row never share a place, and the row of a panel wide enough
/// for them ends where it was given room to, short of it by less than there are
/// swatches.
pub proof fn swatches_tile_their_row(row: Rect, index: int, count: int)
    requires
        row.in_reach(),
        0 <= index < count <= 1_000_000_000,
    ensures
        swatch_left(row, index + 1, count) == swatch_left(row, index, count) + swatch_wide(
            row,
            count,
        ) + HARMONY_GAP,
        row.wide() >= count * 50_000 ==> row.max.x - count < swatch_left(row, count - 1, count)
            + swatch_wide(row, count) <= row.max.x,
{
    let each = swatch_wide(row, count);
    let step = each + HARMONY_GAP;
    assert((index + 1) * step == index * step + step) by (nonlinear_arith);
    if row.wide() >= count * 50_000 {
        let room = row.wide() - HARMONY_GAP * (count - 1);
        assert(room >= 10_000 * count);
        assert(room / count >= 10_000) by (nonlinear_arith)
            requires
                room >= 10_000 * count,
                count > 0,
        ;
        assert(room - count < room / count * count <= room) by (nonlinear_arith)
            requires
                count > 0,
        ;
        assert((count - 1) * step + each == each * count + 40_000 * (count - 1)) by (nonlinear_arith)
            requires
                step == each + 40_000,
        ;
        assert(each * count == room / count * count);
    }
}

// --- taking one -------------------------------------------------------------------

/// The last swatch clicked. The first is the colour in hand and takes no click.
pub open spec fn last_taken(clicked: Seq<bool>) -> Option<int>
    decreases clicked.len(),
{
    if clicked.len() <= 1 {
        None
    } else if clicked.last() {
        Some(clicked.len() - 1)
    } else {
        last_taken(clicked.drop_last())
    }
}

pub fn taken_swatch(clicked: &Vec<bool>) -> (r: Option<usize>)
    ensures
        match (r, last_taken(clicked@)) {
            (Some(i), Some(j)) => i == j && 0 < i < clicked@.len() && clicked@[i as int],
            (None, None) => true,
            _ => false,
        },
{
    let mut n: usize = clicked.len();
    assert(clicked@.take(n as int) =~= clicked@);
    while n > 1
        invariant
            n <= clicked@.len(),
            last_taken(clicked@.take(n as int)) == last_taken(clicked@),
        decreases n,
    {
        if clicked[n - 1] {
            assert(clicked@.take(n as int).last() == clicked@[n - 1]);
            return Some(n - 1);
        }
        assert(clicked@.take(n as int).drop_last() =~= clicked@.take(n - 1));
        n -= 1;
    }
    None
}

/// Take the swatch that was clicked, if one was: its hue, with the saturation
/// and value the artist has. Returns whether one was taken.
pub fn harmony_swatches(hues: &Vec<i64>, clicked: &Vec<bool>, hsv: &mut Hsv) -> (r: bool)
    requires
        hues@.len() == clicked@.len(),
    ensures
        r == (last_taken(clicked@) is Some),
        *final(hsv) == match last_taken(clicked@) {
            Some(i) => Hsv { h: hues@[i], ..*old(hsv) },
            None => *old(hsv),
        },
{
    match taken_swatch(clicked) {
        Some(i) => {
            hsv.h = hues[i];
            true
        },
        None => false,
    }
}

// --- what a swatch says ---------------------------------------------------------------

pub open spec fn hex_char(n: int) -> char {
    if n < 10 {
        ('0' as int + n) as char
    } else {
        ('A' as int + (n - 10)) as char
    }
}

fn hex_digit(n: u8) -> (r: char)
    requires
        n < 16,
    ensures
        r == hex_char(n as int),
{
    let code: u8 = if n < 10 {
        48 + n
    } else {
        65 + (n - 10)
    };
    code as char
}

/// A byte as two upper-case hexadecimal digits.
pub open spec fn hex_of(byte: u8) -> Seq<char> {
    seq![hex_char(byte as int / 16), hex_char(byte as int % 16)]
}

pub open spec fn swatch_says(index: int, colour: Rgb) -> Seq<char> {
    (if index == 0 {
        "The colour in hand"@
    } else {
        "Take this colour"@
    }) + " · #"@ + hex_of(colour.r) + hex_of(colour.g) + hex_of(colour.b)
}

fn push_hex(out: &mut Vec<char>, byte: u8)
    ensures
        final(out)@ == old(out)@ + hex_of(byte),
{
    out.push(hex_digit(byte / 16));
    out.push(hex_digit(byte % 16));
    assert(out@ =~= old(out)@ + hex_of(byte));
}

/// What hovering a swatch says: what it is for, and its colour.
pub fn swatch_hint(index: usize, colour: Rgb) -> (r: String)
    ensures
        r@ == swatch_says(index as int, colour),
{
    let mut out: Vec<char> = Vec::new();
    push_text(
        &mut out,
        if index == 0 {
            "The colour in hand"
        } else {
            "Take this colour"
        },
    );
    push_text(&mut out, " · #");
    push_hex(&mut out, colour.r);
    push_hex(&mut out, colour.g);
    push_hex(&mut out, colour.b);
    assert(out@ =~= swatch_says(index as int, colour));
    string_of(&out)
}

/// The swatch taken is the last one clicked, and never the first, which is the
/// colour in hand; none is taken exactly where no other was clicked.
pub proof fn the_last_swatch_clicked_is_taken(clicked: Seq<bool>)
    ensures
        match last_taken(clicked) {
            Some(i) => {
                &&& 0 < i < clicked.len()
                &&& clicked[i]
                &&& forall|j: int| i < j < clicked.len() ==> !#[trigger] clicked[j]
            },
            None => forall|j: int| 0 < j < clicked.len() ==> !#[trigger] clicked[j],
        },
    decreases clicked.len(),
{
    if clicked.len() > 1 && !clicked.last() {
        let front = clicked.drop_last();
        the_last_swatch_clicked_is_taken(front);
        assert forall|j: int| 0 < j < front.len() implies #[trigger] clicked[j] == front[j] by {}
    }
}

/// What a hexadecimal digit stands for.
pub open spec fn hex_value(c: char) -> int {
    if '0' <= c <= '9' {
        c as int - '0' as int
    } else {
        c as int - 'A' as int + 10
    }
}

/// Two digits, upper case, read back as the byte they were written for.
pub proof fn a_byte_reads_back_from_its_digits(byte: u8)
    ensures
        hex_of(byte).len() == 2,
        16 * hex_value(hex_of(byte)[0]) + hex_value(hex_of(byte)[1]) == byte,
        forall|i: int|
            0 <= i < 2 ==> '0' <= #[trigger] hex_of(byte)[i] <= '9' || 'A' <= hex_of(byte)[i]
                <= 'F',
{
}

/// A hint ends in the colour, red, green and blue in that order, and says of the
/// first swatch alone that it is the colour in hand.
pub proof fn a_hint_ends_in_the_colour(index: int, colour: Rgb)
    ensures
        ({
            let says = swatch_says(index, colour);
            let n = says.len() as int;
            &&& says.subrange(n - 6, n - 4) == hex_of(colour.r)
            &&& says.subrange(n - 4, n - 2) == hex_of(colour.g)
            &&& says.subrange(n - 2, n) == hex_of(colour.b)
            &&& index == 0 ==> says.take(18) == "The colour in hand"@
            &&& index != 0 ==> says.take(16) == "Take this colour"@
        }),
{
    reveal_strlit("The colour in hand");
    reveal_strlit("Take this colour");
    reveal_strlit(" · #");
    let says = swatch_says(index, colour);
    let n = says.len() as int;
    assert(says.subrange(n - 6, n - 4) =~= hex_of(colour.r));
    assert(says.subrange(n - 4, n - 2) =~= hex_of(colour.g));
    assert(says.subrange(n - 2, n) =~= hex_of(colour.b));
    if index == 0 {
        assert(says.take(18) =~= "The colour in hand"@);
    } else {
        assert(says.take(16) =~= "Take this colour"@);
    }
}

/// The first swatch starts where the row does, two neighbours are four points
/// apart, and swatches of a row are of one width, never less than a point.
pub proof fn swatches_start_with_their_row(row: Rect, index: int, count: int)
    requires
        0 < count,
    ensures
        swatch_left(row, 0, count) == row.min.x,
        swatch_left(row, index + 1, count) - swatch_left(row, index, count) == swatch_wide(
            row,
            count,
        ) + 40_000,
        swatch_wide(row, count) >= 10_000,
        count * swatch_wide(row, count) + 40_000 * (count - 1) > row.wide() - count,
{
    let each = swatch_wide(row, count);
    let step = each + HARMONY_GAP;
    assert(0 * step == 0) by (nonlinear_arith);
    assert((index + 1) * step == index * step + step) by (nonlinear_arith);
    let room = row.wide() - HARMONY_GAP * (count - 1);
    let q = room / count;
    assert(room - count < count * q) by (nonlinear_arith)
        requires
            q == room / count,
            count > 0,
    ;
    assert(count * q <= count * each) by (nonlinear_arith)
        requires
            q <= each,
            count > 0,
    ;
}

} // verus!

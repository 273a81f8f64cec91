//! How the operations on stacks, columns and floats change what is in them.

use crate::dock::kind::PanelKind;
use crate::dock::model::{
    column_index, column_tally, columns_sound, float_index, float_tally, no_blank, panel_index,
    panel_tally, pruned_columns, ColumnView, Docked, Floating, LayoutView,
};
use vstd::prelude::*;

verus! {

pub open spec fn one_if(b: bool) -> int {
    if b {
        1
    } else {
        0
    }
}

// --- stacks -----------------------------------------------------------------

pub proof fn lemma_panel_tally_bounds(p: Seq<Docked>, k: PanelKind)
    ensures
        0 <= panel_tally(p, k) <= p.len(),
    decreases p.len(),
{
    if p.len() > 0 {
        lemma_panel_tally_bounds(p.drop_last(), k);
    }
}

pub proof fn lemma_panel_tally_push(p: Seq<Docked>, d: Docked, k: PanelKind)
    ensures
        panel_tally(p.push(d), k) == panel_tally(p, k) + one_if(d.kind == k),
{
    assert(p.push(d).drop_last() =~= p);
}

pub proof fn lemma_panel_tally_insert(p: Seq<Docked>, i: int, d: Docked, k: PanelKind)
    requires
        0 <= i <= p.len(),
    ensures
        panel_tally(p.insert(i, d), k) == panel_tally(p, k) + one_if(d.kind == k),
    decreases p.len(),
{
    let q = p.insert(i, d);
    if i == p.len() {
        assert(q =~= p.push(d));
        lemma_panel_tally_push(p, d, k);
    } else {
        assert(q.drop_last() =~= p.drop_last().insert(i, d));
        lemma_panel_tally_insert(p.drop_last(), i, d, k);
    }
}

pub proof fn lemma_panel_tally_remove(p: Seq<Docked>, i: int, k: PanelKind)
    requires
        0 <= i < p.len(),
    ensures
        panel_tally(p.remove(i), k) == panel_tally(p, k) - one_if(p[i].kind == k),
{
    let q = p.remove(i);
    assert(q.insert(i, p[i]) =~= p);
    lemma_panel_tally_insert(q, i, p[i], k);
}

pub proof fn lemma_panel_index(p: Seq<Docked>, k: PanelKind, from: int)
    requires
        0 <= from <= p.len(),
    ensures
        from <= panel_index(p, k, from) <= p.len(),
        panel_index(p, k, from) < p.len() ==> p[panel_index(p, k, from)].kind == k,
        forall|j: int| from <= j < panel_index(p, k, from) ==> (#[trigger] p[j]).kind != k,
    decreases p.len() - from,
{
    if from < p.len() && p[from].kind != k {
        lemma_panel_index(p, k, from + 1);
    }
}

/// A stack holds a module exactly when looking for it finds it.
pub proof fn lemma_panel_found(p: Seq<Docked>, k: PanelKind)
    ensures
        panel_index(p, k, 0) < p.len() <==> panel_tally(p, k) > 0,
{
    lemma_panel_index(p, k, 0);
    if panel_index(p, k, 0) < p.len() {
        let i = panel_index(p, k, 0);
        lemma_panel_tally_remove(p, i, k);
        lemma_panel_tally_bounds(p.remove(i), k);
    } else {
        lemma_panel_absent(p, k);
    }
}

pub proof fn lemma_panel_absent(p: Seq<Docked>, k: PanelKind)
    requires
        forall|j: int| 0 <= j < p.len() ==> (#[trigger] p[j]).kind != k,
    ensures
        panel_tally(p, k) == 0,
    decreases p.len(),
{
    if p.len() > 0 {
        assert(p[p.len() - 1].kind != k);
        assert forall|j: int| 0 <= j < p.drop_last().len() implies (
        #[trigger] p.drop_last()[j]).kind != k by {
            assert(p[j].kind != k);
        }
        lemma_panel_absent(p.drop_last(), k);
    }
}

/// A stack is as tall as what its modules count to together.
pub proof fn lemma_panel_count(p: Seq<Docked>)
    ensures
        p.len() == panel_tally(p, PanelKind::Tools) + panel_tally(p, PanelKind::Colour)
            + panel_tally(p, PanelKind::Palette) + panel_tally(p, PanelKind::Brushes)
            + panel_tally(p, PanelKind::Layers) + panel_tally(p, PanelKind::History)
            + panel_tally(p, PanelKind::Text),
    decreases p.len(),
{
    if p.len() > 0 {
        lemma_panel_count(p.drop_last());
    }
}

// --- columns ----------------------------------------------------------------

pub proof fn lemma_column_tally_bounds(c: Seq<ColumnView>, k: PanelKind)
    ensures
        0 <= column_tally(c, k),
        forall|i: int|
            0 <= i < c.len() ==> panel_tally((#[trigger] c[i]).panels, k) <= column_tally(c, k),
    decreases c.len(),
{
    if c.len() > 0 {
        lemma_column_tally_bounds(c.drop_last(), k);
        lemma_panel_tally_bounds(c.last().panels, k);
        assert forall|i: int| 0 <= i < c.len() implies panel_tally((#[trigger] c[i]).panels, k)
            <= column_tally(c, k) by {
            if i < c.len() - 1 {
                assert(c.drop_last()[i] == c[i]);
            }
        }
    }
}

pub proof fn lemma_column_tally_push(c: Seq<ColumnView>, v: ColumnView, k: PanelKind)
    ensures
        column_tally(c.push(v), k) == column_tally(c, k) + panel_tally(v.panels, k),
{
    assert(c.push(v).drop_last() =~= c);
}

pub proof fn lemma_column_tally_insert(c: Seq<ColumnView>, i: int, v: ColumnView, k: PanelKind)
    requires
        0 <= i <= c.len(),
    ensures
        column_tally(c.insert(i, v), k) == column_tally(c, k) + panel_tally(v.panels, k),
    decreases c.len(),
{
    let d = c.insert(i, v);
    if i == c.len() {
        assert(d =~= c.push(v));
        lemma_column_tally_push(c, v, k);
    } else {
        assert(d.drop_last() =~= c.drop_last().insert(i, v));
        lemma_column_tally_insert(c.drop_last(), i, v, k);
    }
}

pub proof fn lemma_column_tally_update(c: Seq<ColumnView>, i: int, v: ColumnView, k: PanelKind)
    requires
        0 <= i < c.len(),
    ensures
        column_tally(c.update(i, v), k) == column_tally(c, k) - panel_tally(c[i].panels, k)
            + panel_tally(v.panels, k),
{
    let rest = c.remove(i);
    assert(rest.insert(i, c[i]) =~= c);
    assert(rest.insert(i, v) =~= c.update(i, v));
    lemma_column_tally_insert(rest, i, c[i], k);
    lemma_column_tally_insert(rest, i, v, k);
}

pub proof fn lemma_column_index(c: Seq<ColumnView>, k: PanelKind, from: int)
    requires
        0 <= from <= c.len(),
    ensures
        from <= column_index(c, k, from) <= c.len(),
        column_index(c, k, from) < c.len() ==> ({
            let p = c[column_index(c, k, from)].panels;
            &&& 0 <= panel_index(p, k, 0) < p.len()
            &&& p[panel_index(p, k, 0)].kind == k
        }),
        forall|j: int|
            from <= j < column_index(c, k, from) ==> panel_tally((#[trigger] c[j]).panels, k) == 0,
    decreases c.len() - from,
{
    if from < c.len() {
        let p = c[from].panels;
        lemma_panel_index(p, k, 0);
        lemma_panel_found(p, k);
        lemma_panel_tally_bounds(p, k);
        if panel_index(p, k, 0) >= p.len() {
            lemma_column_index(c, k, from + 1);
        }
    }
}

/// A side holds a module exactly when looking for it finds it.
pub proof fn lemma_column_found(c: Seq<ColumnView>, k: PanelKind)
    ensures
        column_index(c, k, 0) < c.len() <==> column_tally(c, k) > 0,
{
    lemma_column_index(c, k, 0);
    let i = column_index(c, k, 0);
    if i < c.len() {
        lemma_panel_found(c[i].panels, k);
        lemma_column_tally_bounds(c, k);
    } else {
        lemma_column_absent(c, k);
    }
}

pub proof fn lemma_column_absent(c: Seq<ColumnView>, k: PanelKind)
    requires
        forall|j: int| 0 <= j < c.len() ==> panel_tally((#[trigger] c[j]).panels, k) == 0,
    ensures
        column_tally(c, k) == 0,
    decreases c.len(),
{
    if c.len() > 0 {
        assert(panel_tally(c[c.len() - 1].panels, k) == 0);
        assert forall|j: int| 0 <= j < c.drop_last().len() implies panel_tally(
            (#[trigger] c.drop_last()[j]).panels,
            k,
        ) == 0 by {
            assert(panel_tally(c[j].panels, k) == 0);
        }
        lemma_column_absent(c.drop_last(), k);
    }
}

/// Taking the blank columns out of two runs of columns is taking them out of
/// each.
pub proof fn lemma_pruned_runs(a: Seq<ColumnView>, b: Seq<ColumnView>)
    ensures
        pruned_columns(a + b) == pruned_columns(a) + pruned_columns(b),
    decreases b.len(),
{
    if b.len() == 0 {
        assert(a + b =~= a);
        assert(pruned_columns(a) + pruned_columns(b) =~= pruned_columns(a));
    } else {
        let all = a + b;
        assert(all.drop_last() =~= a + b.drop_last());
        assert(all.last() == b.last());
        lemma_pruned_runs(a, b.drop_last());
        let (x, y) = (pruned_columns(a), pruned_columns(b.drop_last()));
        assert((x + y).push(b.last()) =~= x + y.push(b.last()));
    }
}

/// A column with something in it stays, after what stays of those before it.
pub proof fn lemma_pruned_around(c: Seq<ColumnView>, i: int)
    requires
        0 <= i < c.len(),
        c[i].panels.len() > 0,
    ensures
        pruned_columns(c) == pruned_columns(c.take(i)).push(c[i]) + pruned_columns(c.skip(i + 1)),
{
    let (a, b) = (c.take(i), c.skip(i + 1));
    assert(c =~= a.push(c[i]) + b);
    lemma_pruned_runs(a.push(c[i]), b);
    assert(a.push(c[i]).drop_last() =~= a);
}

/// Taking the blank columns out loses no module and leaves no blank column.
pub proof fn lemma_pruned(c: Seq<ColumnView>)
    ensures
        forall|k: PanelKind| #[trigger]
            column_tally(pruned_columns(c), k) == column_tally(c, k),
        no_blank(pruned_columns(c)),
        columns_sound(c) ==> columns_sound(pruned_columns(c)),
        pruned_columns(c).len() <= c.len(),
        no_blank(c) ==> pruned_columns(c) == c,
    decreases c.len(),
{
    if c.len() > 0 {
        let rest = pruned_columns(c.drop_last());
        lemma_pruned(c.drop_last());
        assert forall|k: PanelKind| #[trigger]
            column_tally(pruned_columns(c), k) == column_tally(c, k) by {
            assert(column_tally(rest, k) == column_tally(c.drop_last(), k));
            lemma_column_tally_push(rest, c.last(), k);
        }
        if columns_sound(c) {
            assert(c[c.len() - 1].sound());
            assert forall|i: int| 0 <= i < c.drop_last().len() implies (
            #[trigger] c.drop_last()[i]).sound() by {
                assert(c[i].sound());
            }
        }
        if no_blank(c) {
            assert(c[c.len() - 1].panels.len() > 0);
            assert forall|i: int| 0 <= i < c.drop_last().len() implies (
            #[trigger] c.drop_last()[i]).panels.len() > 0 by {
                assert(c[i].panels.len() > 0);
            }
            assert(rest.push(c.last()) =~= c);
        }
    }
}

// --- floats -----------------------------------------------------------------

pub proof fn lemma_float_tally_bounds(f: Seq<Floating>, k: PanelKind)
    ensures
        0 <= float_tally(f, k),
    decreases f.len(),
{
    if f.len() > 0 {
        lemma_float_tally_bounds(f.drop_last(), k);
    }
}

pub proof fn lemma_float_tally_push(f: Seq<Floating>, x: Floating, k: PanelKind)
    ensures
        float_tally(f.push(x), k) == float_tally(f, k) + one_if(x.kind == k),
{
    assert(f.push(x).drop_last() =~= f);
}

pub proof fn lemma_float_tally_insert(f: Seq<Floating>, i: int, x: Floating, k: PanelKind)
    requires
        0 <= i <= f.len(),
    ensures
        float_tally(f.insert(i, x), k) == float_tally(f, k) + one_if(x.kind == k),
    decreases f.len(),
{
    let g = f.insert(i, x);
    if i == f.len() {
        assert(g =~= f.push(x));
        lemma_float_tally_push(f, x, k);
    } else {
        assert(g.drop_last() =~= f.drop_last().insert(i, x));
        lemma_float_tally_insert(f.drop_last(), i, x, k);
    }
}

pub proof fn lemma_float_tally_remove(f: Seq<Floating>, i: int, k: PanelKind)
    requires
        0 <= i < f.len(),
    ensures
        float_tally(f.remove(i), k) == float_tally(f, k) - one_if(f[i].kind == k),
{
    let g = f.remove(i);
    assert(g.insert(i, f[i]) =~= f);
    lemma_float_tally_insert(g, i, f[i], k);
}

pub proof fn lemma_float_tally_update(f: Seq<Floating>, i: int, x: Floating, k: PanelKind)
    requires
        0 <= i < f.len(),
        x.kind == f[i].kind,
    ensures
        float_tally(f.update(i, x), k) == float_tally(f, k),
{
    let g = f.remove(i);
    assert(g.insert(i, f[i]) =~= f);
    assert(g.insert(i, x) =~= f.update(i, x));
    lemma_float_tally_insert(g, i, f[i], k);
    lemma_float_tally_insert(g, i, x, k);
}

pub proof fn lemma_float_index(f: Seq<Floating>, k: PanelKind, from: int)
    requires
        0 <= from <= f.len(),
    ensures
        from <= float_index(f, k, from) <= f.len(),
        float_index(f, k, from) < f.len() ==> f[float_index(f, k, from)].kind == k,
        forall|j: int| from <= j < float_index(f, k, from) ==> (#[trigger] f[j]).kind != k,
    decreases f.len() - from,
{
    if from < f.len() && f[from].kind != k {
        lemma_float_index(f, k, from + 1);
    }
}

/// A module floats exactly when looking for it finds it.
pub proof fn lemma_float_found(f: Seq<Floating>, k: PanelKind)
    ensures
        float_index(f, k, 0) < f.len() <==> float_tally(f, k) > 0,
{
    lemma_float_index(f, k, 0);
    let i = float_index(f, k, 0);
    if i < f.len() {
        lemma_float_tally_remove(f, i, k);
        lemma_float_tally_bounds(f.remove(i), k);
    } else {
        lemma_float_absent(f, k);
    }
}

pub proof fn lemma_float_absent(f: Seq<Floating>, k: PanelKind)
    requires
        forall|j: int| 0 <= j < f.len() ==> (#[trigger] f[j]).kind != k,
    ensures
        float_tally(f, k) == 0,
    decreases f.len(),
{
    if f.len() > 0 {
        assert(f[f.len() - 1].kind != k);
        assert forall|j: int| 0 <= j < f.drop_last().len() implies (
        #[trigger] f.drop_last()[j]).kind != k by {
            assert(f[j].kind != k);
        }
        lemma_float_absent(f.drop_last(), k);
    }
}

// --- layouts ----------------------------------------------------------------

/// No stack of a sound layout holds more than fourteen panels.
pub proof fn lemma_stack_small(v: LayoutView)
    requires
        v.sound(),
    ensures
        forall|i: int| 0 <= i < v.left.len() ==> (#[trigger] v.left[i]).panels.len() <= 14,
        forall|i: int| 0 <= i < v.right.len() ==> (#[trigger] v.right[i]).panels.len() <= 14,
{
    assert forall|i: int| 0 <= i < v.left.len() implies (#[trigger] v.left[i]).panels.len()
        <= 14 by {
        lemma_panel_count(v.left[i].panels);
        assert forall|k: PanelKind| #[trigger] panel_tally(v.left[i].panels, k) <= 2 by {
            lemma_column_tally_bounds(v.left, k);
            lemma_column_tally_bounds(v.right, k);
            lemma_float_tally_bounds(v.floating, k);
            assert(v.tally(k) <= 2);
        }
    }
    assert forall|i: int| 0 <= i < v.right.len() implies (#[trigger] v.right[i]).panels.len()
        <= 14 by {
        lemma_panel_count(v.right[i].panels);
        assert forall|k: PanelKind| #[trigger] panel_tally(v.right[i].panels, k) <= 2 by {
            lemma_column_tally_bounds(v.left, k);
            lemma_column_tally_bounds(v.right, k);
            lemma_float_tally_bounds(v.floating, k);
            assert(v.tally(k) <= 2);
        }
    }
}

/// A module is in the layout exactly when looking for it finds it.
pub proof fn lemma_place_found(v: LayoutView, k: PanelKind)
    ensures
        v.place_of(k) is Some <==> v.placed(k) > 0,
{
    lemma_column_found(v.left, k);
    lemma_column_found(v.right, k);
    lemma_float_found(v.floating, k);
    lemma_column_tally_bounds(v.left, k);
    lemma_column_tally_bounds(v.right, k);
    lemma_float_tally_bounds(v.floating, k);
}

} // verus!

//! What the operations on a layout keep: every size stays in its range, and no
//! module is lost, invented or doubled on the way.

use crate::dock::count::{
    lemma_column_index, lemma_column_tally_bounds, lemma_column_tally_insert,
    lemma_column_tally_update, lemma_float_index, lemma_float_tally_bounds, lemma_float_tally_push,
    lemma_float_tally_remove, lemma_float_tally_update, lemma_panel_tally_insert,
    lemma_panel_tally_push, lemma_panel_tally_remove, lemma_place_found, lemma_pruned, one_if,
};
use crate::dock::heights::{fine, weight_of_height};
use crate::dock::kind::{PanelKind, Side};
use crate::dock::model::{
    column_index, column_tally, columns_sound, float_index, floats_sound, float_tally,
    lemma_widest_minimum, lemma_widest_within, no_blank, origin_sound, panel_index, panel_tally, place_in, spare,
    spare_weights, weighted, with_panels, ColumnView, Docked, DropTarget, Floating, LayoutView,
    Origin,
};
use crate::dock::limits;
use crate::geom::{min_of, Pos2, Rect, POINT, REACH};
use vstd::prelude::*;

verus! {

/// Sizes in their ranges, whatever is blank.
pub open spec fn sizes_sound(v: LayoutView) -> bool {
    &&& columns_sound(v.left)
    &&& columns_sound(v.right)
    &&& floats_sound(v.floating)
}

/// Taking a module out removes one of it from where it was found, and nothing
/// else.
pub proof fn lemma_without(v: LayoutView, k: PanelKind)
    requires
        sizes_sound(v),
        v.left.len() <= usize::MAX,
        v.right.len() <= usize::MAX,
        forall|i: int| 0 <= i < v.left.len() ==> (#[trigger] v.left[i]).panels.len() <= usize::MAX,
        forall|i: int|
            0 <= i < v.right.len() ==> (#[trigger] v.right[i]).panels.len() <= usize::MAX,
    ensures
        sizes_sound(v.without(k)),
        v.place_of(k) is Some ==> origin_sound(v.place_of(k)->0) && v.place_of(k)->0 !is Closed,
        forall|j: PanelKind| #[trigger]
            v.without(k).placed(j) == v.placed(j) - one_if(j == k && v.place_of(k) is Some),
        v.without(k).left.len() == v.left.len(),
        v.without(k).right.len() == v.right.len(),
        v.without(k).drag == v.drag,
        v.without(k).edit_mode == v.edit_mode,
        v.without(k).dirty == v.dirty,
{
    lemma_column_index(v.left, k, 0);
    lemma_column_index(v.right, k, 0);
    lemma_float_index(v.floating, k, 0);
    let w = v.without(k);
    if v.place_of(k) is Some {
        match v.place_of(k)->0 {
            Origin::Dock { side, .. } => {
                let columns = v.columns(side);
                let c = column_index(columns, k, 0);
                let p = columns[c].panels;
                let i = panel_index(p, k, 0);
                assert(c as usize == c && i as usize == i);
                assert(columns[c].sound());
                assert(0 <= p[i].weight <= limits::WEIGHT_LIMIT);
                let q = p.remove(i);
                assert forall|n: int| 0 <= n < q.len() implies 0 <= (#[trigger] q[n]).weight <= limits::WEIGHT_LIMIT by {
                    assert(q[n] == p[if n < i {
                        n
                    } else {
                        n + 1
                    }]);
                }
                if q.len() > 0 {
                    assert forall|n: int| 0 <= n < q.len() implies exists|m: int|
                        0 <= m < p.len() && p[m].kind == (#[trigger] q[n]).kind by {
                        assert(q[n] == p[if n < i {
                            n
                        } else {
                            n + 1
                        }]);
                    }
                    lemma_widest_within(q, p);
                }
                let next = with_panels(columns, c, q);
                assert(columns_sound(next));
                assert forall|j: PanelKind| #[trigger] w.placed(j) == v.placed(j) - one_if(
                    j == k,
                ) by {
                    lemma_column_tally_update(
                        columns,
                        c,
                        ColumnView { panels: q, width: columns[c].width },
                        j,
                    );
                    lemma_panel_tally_remove(p, i, j);
                }
            },
            Origin::Float(_) => {
                let f = float_index(v.floating, k, 0);
                assert(v.floating[f].rect.bounded());
                let g = v.floating.remove(f);
                assert forall|n: int| 0 <= n < g.len() implies (
                #[trigger] g[n]).rect.bounded() by {
                    assert(g[n] == v.floating[if n < f {
                        n
                    } else {
                        n + 1
                    }]);
                }
                assert forall|j: PanelKind| #[trigger] w.placed(j) == v.placed(j) - one_if(
                    j == k,
                ) by {
                    lemma_float_tally_remove(v.floating, f, j);
                }
            },
            Origin::Closed => {},
        }
    }
}

/// A column that takes a panel in is sound, and holds one more of it.
proof fn lemma_column_stacked(c: ColumnView, at: int, docked: Docked)
    requires
        c.sound(),
        0 <= at <= c.panels.len(),
        0 <= docked.weight <= limits::WEIGHT_LIMIT,
    ensures
        c.stacked(at, docked).sound(),
{
    let p = c.panels;
    let q = p.insert(at, docked);
    lemma_widest_minimum(q, q.len() as int);
    assert forall|n: int| 0 <= n < q.len() implies 0 <= (#[trigger] q[n]).weight <= limits::WEIGHT_LIMIT by {
        if n < at {
            assert(q[n] == p[n]);
        } else if n > at {
            assert(q[n] == p[n - 1]);
        }
    }
}

/// Putting a panel into a stack adds one of it, and nothing else.
pub proof fn lemma_stacked(v: LayoutView, side: Side, c: int, at: int, docked: Docked)
    requires
        sizes_sound(v),
        0 <= c < v.columns(side).len(),
        0 <= at <= v.columns(side)[c].panels.len(),
        0 <= docked.weight <= limits::WEIGHT_LIMIT,
    ensures
        ({
            let columns = v.columns(side);
            let w = v.with_columns(side, columns.update(c, columns[c].stacked(at, docked)));
            &&& sizes_sound(w)
            &&& forall|j: PanelKind| #[trigger]
                w.placed(j) == v.placed(j) + one_if(j == docked.kind)
        }),
{
    let columns = v.columns(side);
    let p = columns[c].panels;
    let d = columns[c].stacked(at, docked);
    let w = v.with_columns(side, columns.update(c, d));
    assert(columns[c].sound());
    lemma_column_stacked(columns[c], at, docked);
    assert(columns_sound(columns.update(c, d)));
    assert forall|j: PanelKind| #[trigger] w.placed(j) == v.placed(j) + one_if(
        j == docked.kind,
    ) by {
        lemma_column_tally_update(columns, c, d, j);
        lemma_panel_tally_insert(p, at, docked, j);
    }
}

/// Inserting a column of one panel adds one of it, and nothing else.
pub proof fn lemma_columned(v: LayoutView, side: Side, at: int, docked: Docked, width: i64)
    requires
        sizes_sound(v),
        0 <= at <= v.columns(side).len(),
        0 <= docked.weight <= limits::WEIGHT_LIMIT,
        crate::dock::model::limits_of_width(width as int),
        docked.kind.least_width() <= width,
    ensures
        ({
            let w = v.with_columns(
                side,
                v.columns(side).insert(at, ColumnView { panels: seq![docked], width }),
            );
            &&& sizes_sound(w)
            &&& forall|j: PanelKind| #[trigger]
                w.placed(j) == v.placed(j) + one_if(j == docked.kind)
        }),
{
    let columns = v.columns(side);
    let column = ColumnView { panels: seq![docked], width };
    let next = columns.insert(at, column);
    let w = v.with_columns(side, next);
    assert(column.sound());
    assert forall|n: int| 0 <= n < next.len() implies (#[trigger] next[n]).sound() by {
        if n < at {
            assert(next[n] == columns[n]);
        } else if n > at {
            assert(next[n] == columns[n - 1]);
        }
    }
    assert forall|j: PanelKind| #[trigger] w.placed(j) == v.placed(j) + one_if(
        j == docked.kind,
    ) by {
        lemma_column_tally_insert(columns, at, column, j);
        lemma_panel_tally_push(Seq::empty(), docked, j);
        assert(Seq::<Docked>::empty().push(docked) =~= seq![docked]);
        assert(panel_tally(Seq::<Docked>::empty(), j) == 0);
    }
}

/// Adding a float adds one of it, and nothing else.
pub proof fn lemma_floated(v: LayoutView, f: Floating)
    requires
        sizes_sound(v),
        f.rect.bounded(),
    ensures
        ({
            let w = LayoutView { floating: v.floating.push(f), ..v };
            &&& sizes_sound(w)
            &&& forall|j: PanelKind| #[trigger] w.placed(j) == v.placed(j) + one_if(j == f.kind)
        }),
{
    let w = LayoutView { floating: v.floating.push(f), ..v };
    assert forall|j: PanelKind| #[trigger] w.placed(j) == v.placed(j) + one_if(j == f.kind) by {
        lemma_float_tally_push(v.floating, f, j);
    }
}

pub proof fn lemma_with_put(v: LayoutView, k: PanelKind, origin: Origin)
    requires
        sizes_sound(v),
        origin_sound(origin),
    ensures
        sizes_sound(v.with_put(k, origin)),
        forall|j: PanelKind| #[trigger]
            v.with_put(k, origin).placed(j) == v.placed(j) + one_if(j == k && origin !is Closed),
        v.with_put(k, origin).drag == v.drag,
{
    match origin {
        Origin::Dock { side, column, index, weight, width } => {
            let columns = v.columns(side);
            let docked = Docked { kind: k, weight };
            if column < columns.len() {
                let at = min_of(index as int, columns[column as int].panels.len() as int);
                lemma_stacked(v, side, column as int, at, docked);
            } else {
                let fresh = ColumnView::alone(docked, width as int);
                lemma_columned(v, side, columns.len() as int, docked, fresh.width);
                assert(columns.insert(columns.len() as int, fresh) =~= columns.push(fresh));
            }
        },
        Origin::Float(rect) => {
            lemma_floated(v, Floating { kind: k, rect });
        },
        Origin::Closed => {},
    }
}

pub proof fn lemma_pruned_layout(v: LayoutView)
    requires
        sizes_sound(v),
    ensures
        sizes_sound(v.pruned()),
        no_blank(v.pruned().left),
        no_blank(v.pruned().right),
        v.pruned().left.len() <= v.left.len(),
        v.pruned().right.len() <= v.right.len(),
        forall|j: PanelKind| #[trigger] v.pruned().placed(j) == v.placed(j),
{
    lemma_pruned(v.left);
    lemma_pruned(v.right);
    assert forall|j: PanelKind| #[trigger] v.pruned().placed(j) == v.placed(j) by {
        assert(column_tally(v.pruned().left, j) == column_tally(v.left, j));
        assert(column_tally(v.pruned().right, j) == column_tally(v.right, j));
    }
}

pub proof fn lemma_landed(v: LayoutView, target: DropTarget)
    requires
        v.kept(),
        v.drag is Some,
    ensures
        sizes_sound(v.landed(v.drag->0, target)),
        forall|j: PanelKind| #[trigger]
            v.landed(v.drag->0, target).placed(j) == v.tally(j),
        v.landed(v.drag->0, target).drag is None,
{
    let drag = v.drag->0;
    let base = LayoutView { drag: None, ..v };
    let docked = Docked { kind: drag.kind, weight: LayoutView::drop_weight(drag) as i64 };
    assert forall|j: PanelKind| #[trigger] base.placed(j) == v.placed(j) by {}
    match target {
        DropTarget::Dock { side, column, index } => {
            let columns = v.columns(side);
            if column < columns.len() {
                let at = min_of(index as int, columns[column as int].panels.len() as int);
                lemma_stacked(base, side, column as int, at, docked);
            } else {
                let fresh = ColumnView::of(drag.kind);
                lemma_columned(base, side, columns.len() as int, fresh.panels[0], fresh.width);
                assert(columns.insert(columns.len() as int, fresh) =~= columns.push(fresh));
            }
        },
        DropTarget::NewColumn { side, column } => {
            let at = min_of(column as int, v.columns(side).len() as int);
            lemma_columned(base, side, at, docked, LayoutView::drop_width(drag) as i64);
        },
        DropTarget::Float => {
            lemma_floated(base, Floating { kind: drag.kind, rect: drag.float_place() });
        },
    }
}

/// Releasing the panel in hand keeps the layout sound, and keeps how many there
/// are of each module.
pub proof fn lemma_dropped(v: LayoutView, target: DropTarget)
    requires
        v.kept(),
    ensures
        v.dropped(target).kept(),
        forall|j: PanelKind| #[trigger] v.dropped(target).tally(j) == v.tally(j),
{
    if v.drag is Some {
        lemma_landed(v, target);
        let w = v.landed(v.drag->0, target);
        lemma_pruned_layout(w);
        assert forall|j: PanelKind| #[trigger] v.dropped(target).tally(j) == v.tally(j) by {
            assert(w.pruned().placed(j) == w.placed(j));
            assert(w.placed(j) == v.tally(j));
        }
    }
}

/// Abandoning a drag keeps the layout sound and adds no module.
pub proof fn lemma_cancelled(v: LayoutView)
    requires
        v.kept(),
    ensures
        v.cancelled().kept(),
        forall|j: PanelKind| #[trigger] v.cancelled().tally(j) <= v.tally(j),
        v.drag is Some && v.drag->0.origin !is Closed ==> forall|j: PanelKind| #[trigger]
            v.cancelled().tally(j) == v.tally(j),
{
    if v.drag is Some {
        let drag = v.drag->0;
        let base = LayoutView { drag: None, ..v };
        lemma_with_put(base, drag.kind, drag.origin);
        let w = base.with_put(drag.kind, drag.origin);
        lemma_pruned_layout(w);
        assert forall|j: PanelKind|
            true implies #[trigger] v.cancelled().tally(j) <= v.tally(j) && (drag.origin !is Closed
            ==> v.cancelled().tally(j) == v.tally(j)) by {
            assert(w.pruned().placed(j) == w.placed(j));
            assert(w.placed(j) == base.placed(j) + one_if(
                j == drag.kind && drag.origin !is Closed,
            ));
            assert(base.placed(j) == v.placed(j));
        }
    }
}

pub proof fn lemma_closed(v: LayoutView, k: PanelKind)
    requires
        v.sound(),
    ensures
        v.closed(k).sound(),
        forall|j: PanelKind| #[trigger]
            v.closed(k).tally(j) == v.tally(j) - one_if(j == k && v.place_of(k) is Some),
{
    crate::dock::count::lemma_stack_small(v);
    lemma_without(v, k);
    let w = v.without(k);
    lemma_pruned_layout(w);
    assert forall|j: PanelKind| #[trigger] v.closed(k).tally(j) == v.tally(j) - one_if(
        j == k && v.place_of(k) is Some,
    ) by {
        assert(w.pruned().placed(j) == w.placed(j));
        assert(w.placed(j) == v.placed(j) - one_if(j == k && v.place_of(k) is Some));
    }
}

pub proof fn lemma_opened(v: LayoutView, k: PanelKind)
    requires
        v.kept(),
    ensures
        v.opened(k).kept(),
        v.place_of(k) is None ==> forall|j: PanelKind| #[trigger]
            v.opened(k).tally(j) == v.tally(j) + one_if(j == k),
{
    lemma_place_found(v, k);
    if v.place_of(k) is None {
        let side = v.open_side();
        let columns = v.columns(side);
        let docked = Docked { kind: k, weight: k.starting_weight() as i64 };
        let w = v.opened(k);
        if columns.len() == 0 {
            let fresh = ColumnView::of(k);
            lemma_columned(v, side, 0, fresh.panels[0], fresh.width);
            assert(columns.insert(0, fresh) =~= seq![fresh]);
            assert(fresh.panels =~= seq![fresh.panels[0]]);
        } else {
            let c = columns.len() - 1;
            let p = columns[c].panels;
            lemma_stacked(v, side, c, p.len() as int, docked);
        }
        let u = v.with_columns(side, w.columns(side));
        assert forall|j: PanelKind| #[trigger] w.tally(j) == v.tally(j) + one_if(j == k) by {
            assert(u.placed(j) == v.placed(j) + one_if(j == k));
            assert(w.placed(j) == u.placed(j));
        }
        lemma_column_tally_bounds(v.left, k);
        lemma_column_tally_bounds(v.right, k);
        lemma_float_tally_bounds(v.floating, k);
    }
}

pub proof fn lemma_lifted(v: LayoutView, k: PanelKind, pointer: Pos2, panel: Rect)
    requires
        v.sound(),
        pointer.in_reach(),
        panel.in_reach(),
    ensures
        v.lifted(k, pointer, panel).sound(),
        forall|j: PanelKind| #[trigger] v.lifted(k, pointer, panel).tally(j) == v.tally(j),
{
    crate::dock::count::lemma_stack_small(v);
    lemma_without(v, k);
    let w = v.lifted(k, pointer, panel);
    if v.drag is None && v.edit_mode && v.place_of(k) is Some {
        assert forall|j: PanelKind| #[trigger] w.tally(j) == v.tally(j) by {
            assert(w.placed(j) == v.without(k).placed(j));
        }
    }
}

pub proof fn lemma_picked_up(v: LayoutView, k: PanelKind, pointer: Pos2)
    requires
        v.sound(),
        pointer.in_reach(),
    ensures
        v.picked_up(k, pointer).sound(),
        v.drag is None ==> forall|j: PanelKind| #[trigger]
            v.picked_up(k, pointer).tally(j) == v.tally(j) + one_if(
                j == k && v.place_of(k) is None,
            ),
{
    crate::dock::count::lemma_stack_small(v);
    lemma_without(v, k);
    lemma_place_found(v, k);
    let w = v.picked_up(k, pointer);
    if v.drag is None {
        assert forall|j: PanelKind| #[trigger] w.tally(j) == v.tally(j) + one_if(
            j == k && v.place_of(k) is None,
        ) by {
            assert(w.placed(j) == v.without(k).placed(j));
        }
        lemma_column_tally_bounds(v.left, k);
        lemma_column_tally_bounds(v.right, k);
        lemma_float_tally_bounds(v.floating, k);
    }
}

pub proof fn lemma_widened(v: LayoutView, side: Side, column: int, width: int)
    requires
        v.sound(),
    ensures
        v.widened(side, column, width).sound(),
        forall|j: PanelKind| #[trigger] v.widened(side, column, width).tally(j) == v.tally(j),
{
    let columns = v.columns(side);
    let w = v.widened(side, column, width);
    if 0 <= column < columns.len() {
        let c = columns[column];
        assert(c.sound());
        if c.panels.len() > 0 {
            lemma_widest_minimum(c.panels, c.panels.len() as int);
        }
        let next = w.columns(side);
        if next != columns {
            let d = next[column];
            assert(next =~= columns.update(column, d));
            assert(d.sound());
            assert forall|j: PanelKind| #[trigger] w.tally(j) == v.tally(j) by {
                lemma_column_tally_update(columns, column, d, j);
            }
            assert(columns_sound(next));
            assert(no_blank(columns) ==> no_blank(next));
        }
    }
}

pub proof fn lemma_float_moved(v: LayoutView, k: PanelKind, rect: Rect)
    requires
        v.kept(),
        rect.bounded(),
    ensures
        v.float_moved(k, rect).kept(),
        forall|j: PanelKind| #[trigger] v.float_moved(k, rect).tally(j) == v.tally(j),
{
    let f = float_index(v.floating, k, 0);
    lemma_float_index(v.floating, k, 0);
    if f < v.floating.len() {
        assert forall|j: PanelKind| #[trigger] v.float_moved(k, rect).tally(j) == v.tally(j) by {
            lemma_float_tally_update(v.floating, f, Floating { kind: k, rect }, j);
        }
    }
}

pub proof fn lemma_raised(v: LayoutView, k: PanelKind)
    requires
        v.kept(),
    ensures
        v.raised(k).kept(),
        forall|j: PanelKind| #[trigger] v.raised(k).tally(j) == v.tally(j),
{
    let f = float_index(v.floating, k, 0);
    lemma_float_index(v.floating, k, 0);
    if f + 1 < v.floating.len() {
        let rest = v.floating.remove(f);
        assert(v.floating[f].rect.bounded());
        assert forall|n: int| 0 <= n < rest.len() implies (#[trigger] rest[n]).rect.bounded() by {
            assert(rest[n] == v.floating[if n < f {
                n
            } else {
                n + 1
            }]);
        }
        assert forall|j: PanelKind| #[trigger] v.raised(k).tally(j) == v.tally(j) by {
            lemma_float_tally_remove(v.floating, f, j);
            lemma_float_tally_push(rest, v.floating[f], j);
        }
    }
}

pub proof fn lemma_shipped()
    ensures
        LayoutView::shipped().sound(),
        LayoutView::shipped().one_of_each(),
{
    let v = LayoutView::shipped();
    assert forall|k: PanelKind| #[trigger] v.tally(k) <= 1 by {
        reveal_with_fuel(panel_tally, 5);
        reveal_with_fuel(column_tally, 3);
        let l = v.left[0].panels;
        let r = v.right[0].panels;
        assert(v.left.drop_last() =~= Seq::<ColumnView>::empty());
        assert(v.right.drop_last() =~= Seq::<ColumnView>::empty());
        assert(l.drop_last() =~= Seq::<Docked>::empty());
        assert(r.drop_last() =~= seq![r[0], r[1]]);
        assert(r.drop_last().drop_last() =~= seq![r[0]]);
        assert(r.drop_last().drop_last().drop_last() =~= Seq::<Docked>::empty());
    }
    lemma_widest_minimum(v.left[0].panels, 1);
    lemma_widest_minimum(v.right[0].panels, 3);
    assert(v.left[0].sound());
    assert(v.right[0].sound());
}

/// Weights never move a panel from one place to another.
proof fn lemma_weighted_tally(p: Seq<Docked>, weights: Seq<i64>, k: PanelKind)
    ensures
        panel_tally(weighted(p, weights), k) == panel_tally(p, k),
    decreases p.len(),
{
    if p.len() > 0 {
        let q = weighted(p, weights);
        assert(q.drop_last() =~= weighted(p.drop_last(), weights));
        lemma_weighted_tally(p.drop_last(), weights, k);
    }
}

pub proof fn lemma_reweighted(v: LayoutView, side: Side, column: int, heights: Seq<i128>)
    requires
        v.sound(),
        0 <= column < v.columns(side).len(),
        heights.len() == v.columns(side)[column].panels.len(),
        forall|i: int|
            0 <= i < heights.len() ==> fine(-16 * REACH) <= #[trigger] heights[i] <= fine(
                16 * REACH,
            ),
    ensures
        v.reweighted(side, column, heights).sound(),
        forall|j: PanelKind| #[trigger] v.reweighted(side, column, heights).tally(j) == v.tally(j),
{
    let columns = v.columns(side);
    let w = v.reweighted(side, column, heights);
    let p = columns[column].panels;
    let q = weighted(p, spare_weights(heights));
    let d = ColumnView { panels: q, width: columns[column].width };
    assert(columns[column].sound());
    assert forall|i: int| 0 <= i < q.len() implies 0 <= (#[trigger] q[i]).weight <= limits::WEIGHT_LIMIT by {
        assert(fine(-16 * REACH) <= heights[i] <= fine(16 * REACH));
        assert(spare(heights)[i] == weight_of_height(heights[i] as int) as i64);
    }
    if q.len() > 0 {
        assert forall|i: int| 0 <= i < q.len() implies exists|j: int|
            0 <= j < p.len() && p[j].kind == (#[trigger] q[i]).kind by {
            assert(p[i].kind == q[i].kind);
        }
        lemma_widest_within(q, p);
    }
    let next = w.columns(side);
    assert(next =~= columns.update(column, d));
    assert forall|j: PanelKind| #[trigger] w.tally(j) == v.tally(j) by {
        lemma_column_tally_update(columns, column, d, j);
        lemma_weighted_tally(p, spare_weights(heights), j);
    }
    assert(columns_sound(next));
    assert(no_blank(columns) ==> no_blank(next));
}

/// Moving floats moves no module anywhere else.
proof fn lemma_float_kinds(f: Seq<Floating>, g: Seq<Floating>, k: PanelKind)
    requires
        f.len() == g.len(),
        forall|i: int| 0 <= i < f.len() ==> (#[trigger] f[i]).kind == g[i].kind,
    ensures
        float_tally(f, k) == float_tally(g, k),
    decreases f.len(),
{
    if f.len() > 0 {
        assert(f[f.len() - 1].kind == g[f.len() - 1].kind);
        assert forall|i: int| 0 <= i < f.drop_last().len() implies (
        #[trigger] f.drop_last()[i]).kind == g.drop_last()[i].kind by {
            assert(f[i].kind == g[i].kind);
        }
        lemma_float_kinds(f.drop_last(), g.drop_last(), k);
    }
}

pub proof fn lemma_pulled_back(v: LayoutView, workspace: Rect)
    requires
        v.kept(),
        workspace.in_reach(),
        v.floating.len() > 0 ==> workspace.wide() >= 2 * POINT,
    ensures
        v.pulled_back(workspace).kept(),
        forall|j: PanelKind| #[trigger] v.pulled_back(workspace).tally(j) == v.tally(j),
{
    let w = v.pulled_back(workspace);
    assert forall|i: int| 0 <= i < w.floating.len() implies (
    #[trigger] w.floating[i]).rect.bounded() by {
        assert(v.floating[i].rect.bounded());
        assert(w.floating[i].rect == place_in(v.floating[i].rect, workspace));
    }
    assert forall|j: PanelKind| #[trigger] w.tally(j) == v.tally(j) by {
        lemma_float_kinds(w.floating, v.floating, j);
    }
}

} // verus!

//! What holds of the scene tree under its edits: an edit is undone by its
//! inverse, and nothing but the edited node changes.
use crate::ids::NodeId;
use crate::tree::{
    added, at, clamped, find, ids, inserted, lemma_at, lemma_at_is, lemma_find, place, put, removed,
    within, NodeData, Tree,
};
use vstd::prelude::*;

verus! {

/// Whether a tree is, or holds, the node `id`.
pub open spec fn owns(t: Tree, id: NodeId) -> bool {
    t.id == id || within(t.children, id)
}

/// Whether every id stands in the forest once at most.
pub open spec fn distinct(f: Seq<Tree>) -> bool
    decreases f,
{
    &&& forall|i: int|
        0 <= i < f.len() ==> !within((#[trigger] f[i]).children, f[i].id) && distinct(f[i].children)
    &&& forall|i: int, j: int, id: NodeId|
        0 <= i < f.len() && 0 <= j < f.len() && i != j && #[trigger] owns(f[i], id)
            ==> !#[trigger] owns(f[j], id)
}

proof fn lemma_within_same(f: Seq<Tree>, g: Seq<Tree>, x: NodeId)
    requires
        f.len() == g.len(),
        forall|j: int| 0 <= j < f.len() ==> #[trigger] owns(f[j], x) == owns(g[j], x),
    ensures
        within(f, x) == within(g, x),
        at(f, x) == at(g, x),
{
    lemma_at(f, x);
    lemma_at(g, x);
    let i = at(f, x);
    let j = at(g, x);
    if i < f.len() {
        assert(owns(f[i], x));
        assert(owns(g[i], x));
    }
    if j < g.len() {
        assert(owns(g[j], x));
        assert(owns(f[j], x));
    }
    if i < j {
        assert(g[i].id != x && !within(g[i].children, x));
    }
    if j < i {
        assert(f[j].id != x && !within(f[j].children, x));
    }
}

/// A position that owns an id puts the id within the forest.
proof fn lemma_owned_within(f: Seq<Tree>, i: int, x: NodeId)
    requires
        0 <= i < f.len(),
        owns(f[i], x),
    ensures
        within(f, x),
{
}

proof fn lemma_put_shape(f: Seq<Tree>, id: NodeId, data: NodeData, x: NodeId)
    ensures
        within(put(f, id, data), x) == within(f, x),
        at(put(f, id, data), x) == at(f, x),
        put(f, id, data).len() == f.len(),
    decreases f,
{
    lemma_at(f, id);
    let i = at(f, id);
    let g = put(f, id, data);
    if i < f.len() {
        if f[i].id != id {
            lemma_put_shape(f[i].children, id, data, x);
        }
        assert forall|j: int| 0 <= j < f.len() implies #[trigger] owns(f[j], x) == owns(g[j], x) by {
            if j != i {
                assert(g[j] == f[j]);
            }
        }
        lemma_within_same(f, g, x);
    }
}

/// Giving a node its former data back restores the forest.
pub proof fn law_put_is_undone(f: Seq<Tree>, id: NodeId, data: NodeData)
    requires
        within(f, id),
    ensures
        put(put(f, id, data), id, find(f, id)->0.data) == f,
    decreases f,
{
    lemma_at(f, id);
    lemma_put_shape(f, id, data, id);
    let i = at(f, id);
    let g = put(f, id, data);
    let back = find(f, id)->0.data;
    if f[i].id == id {
        assert(g[i].id == id);
        assert(put(g, id, back) =~= f);
    } else {
        law_put_is_undone(f[i].children, id, data);
        assert(put(g, id, back) =~= f);
    }
}

/// A node has the data it was given, and every other node keeps its own.
pub proof fn law_put_changes_one_node(f: Seq<Tree>, id: NodeId, data: NodeData, other: NodeId)
    requires
        within(f, id),
    ensures
        find(put(f, id, data), id) is Some,
        find(put(f, id, data), id)->0.data == data,
        find(put(f, id, data), id)->0.children == find(f, id)->0.children,
        find(put(f, id, data), other) is Some == find(f, other) is Some,
        other != id && find(f, other) is Some ==> find(put(f, id, data), other)->0.data == find(
            f,
            other,
        )->0.data,
    decreases f,
{
    lemma_at(f, id);
    lemma_at(f, other);
    lemma_put_shape(f, id, data, id);
    lemma_put_shape(f, id, data, other);
    lemma_find(f, other);
    lemma_find(put(f, id, data), other);
    let i = at(f, id);
    let k = at(f, other);
    if f[i].id != id {
        law_put_changes_one_node(f[i].children, id, data, other);
    }
}

/// Whether the forest holds an id after a removal.
proof fn lemma_removed_within(f: Seq<Tree>, id: NodeId, x: NodeId)
    requires
        within(removed(f, id), x),
    ensures
        within(f, x),
    decreases f,
{
    lemma_at(f, id);
    let g = removed(f, id);
    lemma_at(g, x);
    let i = at(f, id);
    let k = at(g, x);
    if i < f.len() {
        if f[i].id == id {
            assert(g[k] == f[if k < i { k } else { k + 1 }]);
            lemma_owned_within(f, if k < i { k } else { k + 1 }, x);
        } else {
            if k == i {
                if g[i].id != x {
                    lemma_removed_within(f[i].children, id, x);
                }
            }
            assert(owns(f[k], x));
            lemma_owned_within(f, k, x);
        }
    }
}

/// Removing a node keeps ids distinct, and takes that id out for good.
pub proof fn law_removal_keeps_ids_distinct(f: Seq<Tree>, id: NodeId)
    requires
        distinct(f),
    ensures
        distinct(removed(f, id)),
        !within(removed(f, id), id),
    decreases f,
{
    lemma_at(f, id);
    let i = at(f, id);
    let g = removed(f, id);
    if i < f.len() {
        if f[i].id == id {
            assert forall|j: int| 0 <= j < g.len() implies !within(
                (#[trigger] g[j]).children,
                g[j].id,
            ) && distinct(g[j].children) by {
                assert(g[j] == f[if j < i { j } else { j + 1 }]);
            }
            assert forall|a: int, b: int, x: NodeId|
                0 <= a < g.len() && 0 <= b < g.len() && a != b && #[trigger] owns(
                    g[a],
                    x,
                ) implies !#[trigger] owns(g[b], x) by {
                let a2 = if a < i { a } else { a + 1 };
                let b2 = if b < i { b } else { b + 1 };
                assert(g[a] == f[a2] && g[b] == f[b2]);
                assert(owns(f[a2], x));
            }
            if within(g, id) {
                lemma_at(g, id);
                let k = at(g, id);
                let k2 = if k < i { k } else { k + 1 };
                assert(g[k] == f[k2]);
                assert(owns(f[i], id));
                assert(owns(f[k2], id));
            }
        } else {
            let below = f[i].children;
            law_removal_keeps_ids_distinct(below, id);
            assert forall|j: int| 0 <= j < g.len() implies !within(
                (#[trigger] g[j]).children,
                g[j].id,
            ) && distinct(g[j].children) by {
                if j == i {
                    if within(g[i].children, g[i].id) {
                        lemma_removed_within(below, id, f[i].id);
                    }
                } else {
                    assert(g[j] == f[j]);
                }
            }
            assert forall|j: int, x: NodeId|
                0 <= j < g.len() && #[trigger] owns(g[j], x) implies owns(f[j], x) by {
                if j == i {
                    if g[i].id != x {
                        lemma_removed_within(below, id, x);
                    }
                }
            }
            assert forall|a: int, b: int, x: NodeId|
                0 <= a < g.len() && 0 <= b < g.len() && a != b && #[trigger] owns(
                    g[a],
                    x,
                ) implies !#[trigger] owns(g[b], x) by {
                assert(owns(f[a], x));
                if owns(g[b], x) {
                    assert(owns(f[b], x));
                }
            }
            if within(g, id) {
                lemma_at(g, id);
                let k = at(g, id);
                assert(owns(g[k], id));
                assert(owns(f[k], id));
                assert(owns(f[i], id));
                assert(k == i);
            }
        }
    }
}

proof fn lemma_place_parent(f: Seq<Tree>, id: NodeId, above: Option<NodeId>)
    requires
        distinct(f),
        place(f, id, above) is Some,
    ensures
        place(f, id, above) matches Some((p, k)) && k >= 0 && (p != above ==> p is Some && within(
            f,
            p->0,
        )),
    decreases f,
{
    lemma_at(f, id);
    let i = at(f, id);
    if f[i].id != id {
        let below = f[i].children;
        lemma_place_parent(below, id, Some(f[i].id));
        let (p, k) = place(f, id, above)->0;
        if p == Some(f[i].id) {
            lemma_owned_within(f, i, f[i].id);
        } else {
            assert(owns(f[i], p->0));
            lemma_owned_within(f, i, p->0);
        }
    }
}

/// The step of a restoration: the node goes back below the tree that it was
/// taken out of.
proof fn lemma_restore_step(f: Seq<Tree>, id: NodeId, i: int, p: NodeId, k: usize)
    requires
        distinct(f),
        0 <= i < f.len(),
        at(f, id) == i,
        f[i].id != id,
        within(f[i].children, id),
        place(f[i].children, id, Some(f[i].id)) == Some((Some(p), k as int)),
    ensures
        inserted(removed(f, id), p, Some(k), find(f, id)->0) == f,
    decreases f, 0int,
{
    let g = removed(f, id);
    let n = find(f, id)->0;
    let below = f[i].children;
    lemma_find(f, id);
    lemma_find(below, id);
    lemma_place_parent(below, id, Some(f[i].id));
    assert(owns(f[i], p));
    // The parent is owned by the same tree before and after the removal.
    assert forall|j: int| 0 <= j < g.len() && j != i implies !owns(#[trigger] g[j], p) by {
        assert(g[j] == f[j]);
    }
    if p == f[i].id {
        assert(g[i].id == p);
        lemma_at_is(g, p, i);
        lemma_at(below, id);
        let m = at(below, id);
        if below[m].id == id {
            assert(m == k);
            assert(removed(below, id) =~= below.remove(m));
            assert(below.remove(m).insert(m, below[m]) =~= below);
            assert(inserted(g, p, Some(k), n) =~= f);
        } else {
            assert(distinct(below));
            lemma_place_parent(below[m].children, id, Some(below[m].id));
            assert(owns(below[m], p));
            lemma_owned_within(below, m, p);
            assert(false);
        }
    } else {
        lemma_at(below, id);
        let m = at(below, id);
        assert(below[m].id != id);
        lemma_restore_step(below, id, m, p, k);
        // The parent survives the removal.
        if !within(g[i].children, p) {
            lemma_inserted_absent(g[i].children, p, Some(k), n);
            assert(g[i].children == below);
            law_removal_keeps_ids_distinct(below, id);
        }
        lemma_at_is(g, p, i);
        assert(inserted(g, p, Some(k), n) =~= f);
    }
}

proof fn lemma_inserted_absent(f: Seq<Tree>, p: NodeId, index: Option<usize>, t: Tree)
    requires
        !within(f, p),
    ensures
        inserted(f, p, index, t) == f,
{
    lemma_at(f, p);
}

/// Deleting a node and inserting it again where it stood restores the forest.
pub proof fn law_delete_is_undone(f: Seq<Tree>, id: NodeId, parent: Option<NodeId>, index: usize)
    requires
        distinct(f),
        place(f, id, None) == Some((parent, index as int)),
    ensures
        added(removed(f, id), parent, Some(index), find(f, id)->0) == f,
{
    lemma_at(f, id);
    let i = at(f, id);
    if f[i].id == id {
        assert(f.remove(i).insert(i, f[i]) =~= f);
    } else {
        lemma_place_parent(f[i].children, id, Some(f[i].id));
        lemma_restore_step(f, id, i, parent->0, index);
    }
}

proof fn lemma_inserted_owns(
    f: Seq<Tree>,
    p: NodeId,
    index: Option<usize>,
    t: Tree,
    x: NodeId,
)
    requires
        within(f, p),
    ensures
        inserted(f, p, index, t).len() == f.len(),
        within(inserted(f, p, index, t), x) == (within(f, x) || owns(t, x)),
    decreases f,
{
    lemma_at(f, p);
    let i = at(f, p);
    let g = inserted(f, p, index, t);
    let row = f[i].children;
    if f[i].id == p {
        let k = clamped(index, row.len() as int);
        let new = row.insert(k, t);
        if within(new, x) {
            lemma_at(new, x);
            let m = at(new, x);
            assert(new[m] == if m < k { row[m] } else if m == k { t } else { row[m - 1] });
            if m < k {
                lemma_owned_within(row, m, x);
            } else if m > k {
                lemma_owned_within(row, m - 1, x);
            }
        }
        if within(row, x) {
            lemma_at(row, x);
            let m = at(row, x);
            let m2 = if m < k { m } else { m + 1 };
            assert(new[m2] == row[m]);
            lemma_owned_within(new, m2, x);
        }
        if owns(t, x) {
            assert(new[k] == t);
            lemma_owned_within(new, k, x);
        }
    } else {
        lemma_inserted_owns(row, p, index, t, x);
    }
    assert(owns(g[i], x) == (owns(f[i], x) || owns(t, x)));
    if within(g, x) {
        lemma_at(g, x);
        let m = at(g, x);
        if m != i {
            assert(owns(f[m], x));
            lemma_owned_within(f, m, x);
        } else if owns(f[i], x) {
            lemma_owned_within(f, i, x);
        }
    }
    if within(f, x) {
        lemma_at(f, x);
        let m = at(f, x);
        assert(owns(g[m], x));
        lemma_owned_within(g, m, x);
    }
    if owns(t, x) {
        lemma_owned_within(g, i, x);
    }
}

/// Inserting a node whose id is new and deleting it again restores the forest;
/// in between it is found with everything below it, in the place asked for.
pub proof fn law_insert_is_undone(
    f: Seq<Tree>,
    parent: Option<NodeId>,
    index: Option<usize>,
    t: Tree,
)
    requires
        !within(f, t.id),
        parent matches Some(p) ==> within(f, p),
    ensures
        removed(added(f, parent, index, t), t.id) == f,
        find(added(f, parent, index, t), t.id) == Some(t),
        parent is None ==> place(added(f, parent, index, t), t.id, None) == Some(
            (parent, clamped(index, f.len() as int)),
        ),
{
    let g = added(f, parent, index, t);
    match parent {
        None => {
            let k = clamped(index, f.len() as int);
            assert forall|j: int| 0 <= j < k implies (#[trigger] g[j]).id != t.id && !within(
                g[j].children,
                t.id,
            ) by {
                assert(g[j] == f[j]);
                if owns(f[j], t.id) {
                    lemma_owned_within(f, j, t.id);
                }
            }
            lemma_at_is(g, t.id, k);
            assert(g.remove(k) =~= f);
        },
        Some(p) => {
            lemma_insert_below_undone(f, p, index, t);
        },
    }
}

proof fn lemma_insert_below_undone(f: Seq<Tree>, p: NodeId, index: Option<usize>, t: Tree)
    requires
        !within(f, t.id),
        within(f, p),
    ensures
        removed(inserted(f, p, index, t), t.id) == f,
        find(inserted(f, p, index, t), t.id) == Some(t),
    decreases f,
{
    lemma_at(f, p);
    let i = at(f, p);
    let g = inserted(f, p, index, t);
    let row = f[i].children;
    assert(!owns(f[i], t.id)) by {
        if owns(f[i], t.id) {
            lemma_owned_within(f, i, t.id);
        }
    }
    assert forall|j: int| 0 <= j < i implies (#[trigger] g[j]).id != t.id && !within(
        g[j].children,
        t.id,
    ) by {
        assert(g[j] == f[j]);
        if owns(f[j], t.id) {
            lemma_owned_within(f, j, t.id);
        }
    }
    if f[i].id == p {
        let k = clamped(index, row.len() as int);
        let new = row.insert(k, t);
        assert forall|j: int| 0 <= j < k implies (#[trigger] new[j]).id != t.id && !within(
            new[j].children,
            t.id,
        ) by {
            assert(new[j] == row[j]);
            if owns(row[j], t.id) {
                lemma_owned_within(row, j, t.id);
            }
        }
        assert(new[k] == t);
        lemma_at_is(new, t.id, k);
        lemma_owned_within(new, k, t.id);
        assert(removed(new, t.id) =~= row);
        assert(find(new, t.id) == Some(t));
        assert(g[i].children == new);
        lemma_at_is(g, t.id, i);
        assert(removed(g, t.id) =~= f);
    } else {
        lemma_insert_below_undone(row, p, index, t);
        lemma_inserted_owns(row, p, index, t, t.id);
        lemma_at_is(g, t.id, i);
        assert(removed(g, t.id) =~= f);
    }
}

/// The forest after a node is moved below another parent.
pub open spec fn moved(
    f: Seq<Tree>,
    id: NodeId,
    parent: Option<NodeId>,
    index: Option<usize>,
) -> Seq<Tree> {
    added(removed(f, id), parent, index, find(f, id)->0)
}

/// Moving a node and moving it back where it stood restores the forest.
pub proof fn law_move_is_undone(
    f: Seq<Tree>,
    id: NodeId,
    parent: Option<NodeId>,
    index: Option<usize>,
    old_parent: Option<NodeId>,
    old_index: usize,
)
    requires
        distinct(f),
        place(f, id, None) == Some((old_parent, old_index as int)),
        parent matches Some(p) ==> within(removed(f, id), p),
    ensures
        moved(moved(f, id, parent, index), id, old_parent, Some(old_index)) == f,
{
    lemma_find(f, id);
    law_removal_keeps_ids_distinct(f, id);
    let n = find(f, id)->0;
    law_insert_is_undone(removed(f, id), parent, index, n);
    law_delete_is_undone(f, id, old_parent, old_index);
}

/// Inserting a tree of new, distinct ids keeps ids distinct.
pub proof fn law_insertion_keeps_ids_distinct(
    f: Seq<Tree>,
    parent: Option<NodeId>,
    index: Option<usize>,
    t: Tree,
)
    requires
        distinct(f),
        distinct(t.children),
        !within(t.children, t.id),
        forall|x: NodeId| #[trigger] owns(t, x) ==> !within(f, x),
        parent matches Some(p) ==> within(f, p),
    ensures
        distinct(added(f, parent, index, t)),
{
    match parent {
        None => {
            lemma_row_insert_distinct(f, clamped(index, f.len() as int), t);
        },
        Some(p) => {
            lemma_inserted_distinct(f, p, index, t);
        },
    }
}

proof fn lemma_row_insert_distinct(row: Seq<Tree>, k: int, t: Tree)
    requires
        distinct(row),
        distinct(t.children),
        !within(t.children, t.id),
        forall|x: NodeId| #[trigger] owns(t, x) ==> !within(row, x),
        0 <= k <= row.len(),
    ensures
        distinct(row.insert(k, t)),
{
    let new = row.insert(k, t);
    assert forall|j: int| 0 <= j < new.len() implies !within((#[trigger] new[j]).children, new[j].id)
        && distinct(new[j].children) by {
        if j < k {
            assert(new[j] == row[j]);
        } else if j > k {
            assert(new[j] == row[j - 1]);
        }
    }
    assert forall|a: int, b: int, x: NodeId|
        0 <= a < new.len() && 0 <= b < new.len() && a != b && #[trigger] owns(
            new[a],
            x,
        ) implies !#[trigger] owns(new[b], x) by {
        let a2 = if a < k { a } else { a - 1 };
        let b2 = if b < k { b } else { b - 1 };
        if a != k {
            assert(new[a] == row[a2]);
            assert(owns(row[a2], x));
            lemma_owned_within(row, a2, x);
        }
        if b != k {
            assert(new[b] == row[b2]);
            if owns(new[b], x) {
                assert(owns(row[b2], x));
                lemma_owned_within(row, b2, x);
            }
        }
    }
}

proof fn lemma_inserted_distinct(f: Seq<Tree>, p: NodeId, index: Option<usize>, t: Tree)
    requires
        distinct(f),
        distinct(t.children),
        !within(t.children, t.id),
        forall|x: NodeId| #[trigger] owns(t, x) ==> !within(f, x),
        within(f, p),
    ensures
        distinct(inserted(f, p, index, t)),
    decreases f,
{
    lemma_at(f, p);
    let i = at(f, p);
    let g = inserted(f, p, index, t);
    let row = f[i].children;
    assert forall|x: NodeId| #[trigger] owns(t, x) implies !within(row, x) && x != f[i].id by {
        if within(row, x) || x == f[i].id {
            lemma_owned_within(f, i, x);
        }
    }
    if f[i].id == p {
        lemma_row_insert_distinct(row, clamped(index, row.len() as int), t);
    } else {
        lemma_inserted_distinct(row, p, index, t);
    }
    assert forall|x: NodeId| #[trigger] owns(g[i], x) implies owns(f[i], x) || owns(t, x) by {
        if f[i].id == p {
            if f[i].id != x {
                lemma_row_insert_within(row, clamped(index, row.len() as int), t, x);
            }
        } else {
            lemma_inserted_owns(row, p, index, t, x);
        }
    }
    assert forall|j: int| 0 <= j < g.len() implies !within((#[trigger] g[j]).children, g[j].id)
        && distinct(g[j].children) by {
        if j == i {
            if within(g[i].children, f[i].id) {
                if f[i].id == p {
                    lemma_row_insert_within(row, clamped(index, row.len() as int), t, f[i].id);
                } else {
                    lemma_inserted_owns(row, p, index, t, f[i].id);
                }
                assert(owns(t, f[i].id));
            }
        } else {
            assert(g[j] == f[j]);
        }
    }
    assert forall|a: int, b: int, x: NodeId|
        0 <= a < g.len() && 0 <= b < g.len() && a != b && #[trigger] owns(
            g[a],
            x,
        ) implies !#[trigger] owns(g[b], x) by {
        if owns(g[b], x) {
            if a != i {
                assert(owns(f[a], x));
                lemma_owned_within(f, a, x);
            }
            if b != i {
                assert(owns(f[b], x));
                lemma_owned_within(f, b, x);
            }
        }
    }
}

proof fn lemma_row_insert_within(row: Seq<Tree>, k: int, t: Tree, x: NodeId)
    requires
        0 <= k <= row.len(),
        within(row.insert(k, t), x),
    ensures
        within(row, x) || owns(t, x),
{
    let new = row.insert(k, t);
    lemma_at(new, x);
    let m = at(new, x);
    if m < k {
        assert(new[m] == row[m]);
        lemma_owned_within(row, m, x);
    } else if m > k {
        assert(new[m] == row[m - 1]);
        lemma_owned_within(row, m - 1, x);
    } else {
        assert(new[m] == t);
    }
}

/// The parent of a node stands in the forest.
pub proof fn lemma_place_is_within(f: Seq<Tree>, id: NodeId, above: Option<NodeId>)
    requires
        place(f, id, above) is Some,
    ensures
        place(f, id, above) matches Some((p, k)) && (p == above || (p is Some && within(f, p->0))),
    decreases f,
{
    lemma_at(f, id);
    let i = at(f, id);
    if f[i].id != id {
        lemma_place_is_within(f[i].children, id, Some(f[i].id));
        let (p, k) = place(f, id, above)->0;
        assert(owns(f[i], p->0));
        lemma_owned_within(f, i, p->0);
    }
}

/// A node that is not taken out with another stays in the forest.
pub proof fn lemma_survives(f: Seq<Tree>, id: NodeId, p: NodeId)
    requires
        within(f, id),
        within(f, p),
        !owns(find(f, id)->0, p),
    ensures
        within(removed(f, id), p),
    decreases f,
{
    lemma_at(f, id);
    lemma_at(f, p);
    let i = at(f, id);
    let k = at(f, p);
    let g = removed(f, id);
    if f[i].id == id {
        let k2 = if k < i { k } else { k - 1 };
        assert(k != i);
        assert(g[k2] == f[k]);
        assert(owns(g[k2], p));
        lemma_owned_within(g, k2, p);
    } else if k != i {
        assert(g[k] == f[k]);
        assert(owns(g[k], p));
        lemma_owned_within(g, k, p);
    } else {
        if f[i].id != p {
            lemma_survives(f[i].children, id, p);
        }
        assert(owns(g[i], p));
        lemma_owned_within(g, i, p);
    }
}

/// The parent of a node is not among what the node owns.
pub proof fn lemma_parent_outside(f: Seq<Tree>, id: NodeId, above: Option<NodeId>)
    requires
        distinct(f),
        place(f, id, above) is Some,
        above matches Some(a) ==> !within(f, a),
    ensures
        place(f, id, above) matches Some((p, k)) && (p is Some ==> !owns(find(f, id)->0, p->0)),
    decreases f,
{
    lemma_at(f, id);
    let i = at(f, id);
    let (p, k) = place(f, id, above)->0;
    if f[i].id == id {
        if p is Some && owns(f[i], p->0) {
            lemma_owned_within(f, i, p->0);
        }
    } else {
        assert(!within(f[i].children, f[i].id) && distinct(f[i].children));
        lemma_parent_outside(f[i].children, id, Some(f[i].id));
    }
}

/// Adding a tree takes nothing out.
pub proof fn lemma_added_keeps(
    f: Seq<Tree>,
    parent: Option<NodeId>,
    index: Option<usize>,
    t: Tree,
    x: NodeId,
)
    requires
        within(f, x),
        parent matches Some(p) ==> within(f, p),
    ensures
        within(added(f, parent, index, t), x),
{
    match parent {
        Some(p) => {
            lemma_inserted_owns(f, p, index, t, x);
        },
        None => {
            let g = added(f, parent, index, t);
            let k = clamped(index, f.len() as int);
            lemma_at(f, x);
            let m = at(f, x);
            let m2 = if m < k { m } else { m + 1 };
            assert(g[m2] == f[m]);
            assert(owns(g[m2], x));
            lemma_owned_within(g, m2, x);
        },
    }
}

/// The ids of a forest are those of the nodes in it.
pub proof fn lemma_ids_within(f: Seq<Tree>, x: NodeId)
    requires
        ids(f).contains(x),
    ensures
        within(f, x),
    decreases f,
{
    let row = ids(f);
    let k = choose|k: int| 0 <= k < row.len() && row[k] == x;
    let below = ids(f[0].children);
    let rest = f.drop_first();
    if k == 0 {
        assert(owns(f[0], x));
        lemma_owned_within(f, 0, x);
    } else if k < 1 + below.len() {
        assert(below[k - 1] == x);
        lemma_ids_within(f[0].children, x);
        assert(owns(f[0], x));
        lemma_owned_within(f, 0, x);
    } else {
        assert(ids(rest)[k - 1 - below.len()] == x);
        lemma_ids_within(rest, x);
        lemma_at(rest, x);
        let i = at(rest, x);
        assert(rest[i] == f[i + 1]);
        assert(owns(f[i + 1], x));
        lemma_owned_within(f, i + 1, x);
    }
}

/// No node of a forest of distinct ids stands below itself.
pub proof fn lemma_not_below_itself(f: Seq<Tree>, id: NodeId)
    requires
        distinct(f),
        within(f, id),
    ensures
        find(f, id) is Some,
        find(f, id)->0.id == id,
        !within(find(f, id)->0.children, id),
    decreases f,
{
    lemma_at(f, id);
    let i = at(f, id);
    assert(!within(f[i].children, f[i].id) && distinct(f[i].children));
    if f[i].id != id {
        lemma_not_below_itself(f[i].children, id);
    }
}

} // verus!

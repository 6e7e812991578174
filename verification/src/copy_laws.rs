//! What holds of the copy of a node: it looks like its source under ids of its own,
//! and it is driven as its source is.
use crate::clips::{clip_at, is_clip, ClipShape, TrackShape, TrackTarget};
use crate::find::lemma_first_is;
use crate::ids::{AssetId, NodeId};
use crate::node::NodeKind;
use crate::timeline::TimelineView;
use crate::tree::{find, ids, NodeData, Tree};
use crate::tree_edit::{
    copied, copy_renaming, duplicate_step, grown, new_tracks, own_ids, renaming, retargeted,
};
use vstd::prelude::*;

verus! {

/// Whether a target is something of a node.
pub open spec fn drives(t: TrackTarget, x: NodeId) -> bool {
    match t {
        TrackTarget::Transform { node, prop: _ } => node == x,
        TrackTarget::Morph { node, index: _ } => node == x,
        TrackTarget::Uniform { material: _, name: _ } => false,
        TrackTarget::BuiltinParam { node, param: _ } => node == x,
        TrackTarget::Light { node, param: _ } => node == x,
        TrackTarget::Camera { node, param: _ } => node == x,
        TrackTarget::TextureTransform { node, slot: _, prop: _ } => node == x,
    }
}

/// Whether two targets are the same thing of a node each.
pub open spec fn alike(a: TrackTarget, b: TrackTarget) -> bool {
    match (a, b) {
        (
            TrackTarget::Transform { node: _, prop: p },
            TrackTarget::Transform { node: _, prop: q },
        ) => p == q,
        (TrackTarget::Morph { node: _, index: p }, TrackTarget::Morph { node: _, index: q }) => p
            == q,
        (
            TrackTarget::BuiltinParam { node: _, param: p },
            TrackTarget::BuiltinParam { node: _, param: q },
        ) => p == q,
        (TrackTarget::Light { node: _, param: p }, TrackTarget::Light { node: _, param: q }) => p
            == q,
        (TrackTarget::Camera { node: _, param: p }, TrackTarget::Camera { node: _, param: q }) => p
            == q,
        (
            TrackTarget::TextureTransform { node: _, slot: s, prop: p },
            TrackTarget::TextureTransform { node: _, slot: t, prop: q },
        ) => s == t && p == q,
        _ => false,
    }
}

/// Whether a track drives `y` just as another drives `x`.
pub open spec fn drives_likewise(a: TrackShape, x: NodeId, b: TrackShape, y: NodeId) -> bool {
    &&& drives(a.target, x)
    &&& drives(b.target, y)
    &&& alike(a.target, b.target)
    &&& b.sampler == a.sampler
    &&& b.mute == a.mute
    &&& b.solo == a.solo
    &&& b.expanded == a.expanded
    &&& b.times == a.times
    &&& b.keys == a.keys
}

/// Whether `y` is the id of the copy of `x`, where `t` is copied.
pub open spec fn is_copy_of(t: Tree, new_id: NodeId, fresh: Seq<NodeId>, x: NodeId, y: NodeId) -> bool {
    ||| x == t.id && y == new_id
    ||| exists|k: int|
        0 <= k < ids(t.children).len() && #[trigger] ids(t.children)[k] == x && fresh[k] == y
}

/// Whether a track drives a node of a tree.
pub open spec fn drives_within(a: TrackShape, t: Tree) -> bool {
    exists|x: NodeId| #[trigger] drives(a.target, x) && own_ids(t).contains(x)
}

/// How many of the first `n` tracks drive a node of a tree.
pub open spec fn driving(ts: Seq<TrackShape>, n: nat, t: Tree) -> nat
    decreases n,
{
    if n == 0 || n > ts.len() {
        0
    } else if drives_within(ts[n - 1], t) {
        driving(ts, (n - 1) as nat, t) + 1
    } else {
        driving(ts, (n - 1) as nat, t)
    }
}

proof fn lemma_renaming(from: Seq<NodeId>, to: Seq<NodeId>, x: NodeId)
    requires
        from.len() == to.len(),
    ensures
        renaming(from, to).contains_key(x.0) == from.contains(x),
        from.contains(x) ==> exists|k: int|
            0 <= k < from.len() && from[k] == x && #[trigger] to[k] == renaming(from, to)[x.0],
    decreases from.len(),
{
    if from.len() > 0 {
        let a = from.drop_last();
        let b = to.drop_last();
        lemma_renaming(a, b, x);
        let n = from.len() - 1;
        if from.contains(x) {
            if from.last() == x {
                assert(to[n] == renaming(from, to)[x.0]);
            } else {
                let i = choose|i: int| 0 <= i < from.len() && from[i] == x;
                assert(a[i] == x);
                let k = choose|k: int|
                    0 <= k < a.len() && a[k] == x && #[trigger] b[k] == renaming(a, b)[x.0];
                assert(from[k] == x && to[k] == b[k]);
            }
        }
        if a.contains(x) {
            let i = choose|i: int| 0 <= i < a.len() && a[i] == x;
            assert(from[i] == x);
        }
        if from.last() == x {
            assert(from[n] == x);
        }
    }
}

/// What the renaming of a copy knows.
proof fn lemma_copy_renaming(t: Tree, new_id: NodeId, fresh: Seq<NodeId>, x: NodeId)
    requires
        fresh.len() >= ids(t.children).len(),
    ensures
        copy_renaming(t, new_id, fresh).contains_key(x.0) == own_ids(t).contains(x),
        own_ids(t).contains(x) ==> is_copy_of(
            t,
            new_id,
            fresh,
            x,
            copy_renaming(t, new_id, fresh)[x.0],
        ),
{
    let from = own_ids(t);
    let to = crate::tree_edit::copy_ids(new_id, fresh).take(from.len() as int);
    lemma_renaming(from, to, x);
    if from.contains(x) {
        let k = choose|k: int|
            0 <= k < from.len() && from[k] == x && #[trigger] to[k] == renaming(from, to)[x.0];
        if k > 0 {
            assert(ids(t.children)[k - 1] == from[k]);
            assert(fresh[k - 1] == to[k]);
        }
    }
}

proof fn lemma_retargeted(
    ts: Seq<TrackShape>,
    t: Tree,
    new_id: NodeId,
    fresh: Seq<NodeId>,
    j: int,
)
    requires
        fresh.len() >= ids(t.children).len(),
        0 <= j <= ts.len(),
    ensures
        ({
            let r = retargeted(ts, copy_renaming(t, new_id, fresh));
            &&& r.len() == driving(ts, ts.len(), t)
            &&& j < ts.len() && drives_within(ts[j], t) ==> {
                let k = driving(ts, j as nat, t) as int;
                &&& k < r.len()
                &&& copies_drive(ts[j], r[k], t, new_id, fresh)
            }
        }),
    decreases ts.len(),
{
    let m = copy_renaming(t, new_id, fresh);
    if ts.len() > 0 {
        let n = ts.len() - 1;
        let rest = ts.drop_last();
        let last = ts.last();
        lemma_driving_prefix(ts, rest, n as nat, t);
        if j < ts.len() {
            lemma_driving_prefix(ts, rest, j as nat, t);
        }
        lemma_retargeted(rest, t, new_id, fresh, if j <= n {
            j
        } else {
            n
        });
        let node = last.target.node_of();
        if let Some(x) = node {
            lemma_copy_renaming(t, new_id, fresh, x);
            assert(drives(last.target, x));
            if own_ids(t).contains(x) {
                let y = m[x.0];
                let b = retargeted(ts, m).last();
                assert(drives_likewise(last, x, b, y));
            } else {
                assert(!drives_within(last, t)) by {
                    assert forall|z: NodeId| #[trigger] drives(last.target, z) implies z == x by {
                    }
                }
            }
        } else {
            assert(!drives_within(last, t));
        }
        if j < n {
            assert(rest[j] == ts[j]);
        }
        if j < n && drives_within(ts[j], t) {
            let k = driving(ts, j as nat, t) as int;
            assert(retargeted(ts, m)[k] == retargeted(rest, m)[k]);
        }
    }
}

/// Whether a track drives the copy of the node that another drives, just as that
/// one does.
pub open spec fn copies_drive(
    a: TrackShape,
    b: TrackShape,
    t: Tree,
    new_id: NodeId,
    fresh: Seq<NodeId>,
) -> bool {
    exists|x: NodeId, y: NodeId|
        #[trigger] is_copy_of(t, new_id, fresh, x, y) && #[trigger] drives_likewise(a, x, b, y)
}

proof fn lemma_driving_prefix(ts: Seq<TrackShape>, us: Seq<TrackShape>, n: nat, t: Tree)
    requires
        n <= us.len() <= ts.len(),
        forall|i: int| 0 <= i < n ==> ts[i] == us[i],
    ensures
        driving(ts, n, t) == driving(us, n, t),
    decreases n,
{
    if n > 0 {
        lemma_driving_prefix(ts, us, (n - 1) as nat, t);
    }
}

proof fn lemma_driver(ts: Seq<TrackShape>, n: nat, t: Tree, k: int) -> (j: int)
    requires
        n <= ts.len(),
        0 <= k < driving(ts, n, t),
    ensures
        0 <= j < n,
        drives_within(ts[j], t),
        driving(ts, j as nat, t) == k,
    decreases n,
{
    if drives_within(ts[n - 1], t) && driving(ts, (n - 1) as nat, t) == k {
        n - 1
    } else {
        lemma_driver(ts, (n - 1) as nat, t, k)
    }
}

proof fn lemma_grown_join(
    v: TimelineView,
    a: Seq<(AssetId, TrackShape)>,
    b: Seq<(AssetId, TrackShape)>,
)
    ensures
        grown(v, a + b) == grown(grown(v, a), b),
    decreases b.len(),
{
    if b.len() == 0 {
        assert(a + b =~= a);
    } else {
        assert((a + b).drop_last() =~= a + b.drop_last());
        assert((a + b).last() == b.last());
        lemma_grown_join(v, a, b.drop_last());
    }
}

/// Whether no two clips have one id.
pub open spec fn clips_distinct(cs: Seq<ClipShape>) -> bool {
    forall|i: int, j: int| 0 <= i < j < cs.len() ==> (#[trigger] cs[i]).id != (#[trigger] cs[j]).id
}

proof fn lemma_clip_place(cs: Seq<ClipShape>, i: int)
    requires
        clips_distinct(cs),
        0 <= i < cs.len(),
    ensures
        clip_at(cs, cs[i].id) == i,
{
    lemma_first_is(cs, is_clip(cs[i].id), i);
}

proof fn lemma_grown_run(v: TimelineView, i: int, own: Seq<TrackShape>)
    requires
        clips_distinct(v.clips),
        0 <= i < v.clips.len(),
    ensures
        grown(v, Seq::new(own.len(), |k: int| (v.clips[i].id, own[k]))) == (TimelineView {
            clips: v.clips.update(
                i,
                ClipShape { tracks: v.clips[i].tracks + own, ..v.clips[i] },
            ),
            ..v
        }),
    decreases own.len(),
{
    let id = v.clips[i].id;
    let adds = Seq::new(own.len(), |k: int| (id, own[k]));
    if own.len() == 0 {
        assert(v.clips[i].tracks + own =~= v.clips[i].tracks);
        assert(v.clips =~= v.clips.update(
            i,
            ClipShape { tracks: v.clips[i].tracks + own, ..v.clips[i] },
        ));
    } else {
        let less = own.drop_last();
        lemma_grown_run(v, i, less);
        assert(adds.drop_last() =~= Seq::new(less.len(), |k: int| (id, less[k])));
        let before = grown(v, adds.drop_last());
        assert(clips_distinct(before.clips)) by {
            assert forall|a: int, b: int| 0 <= a < b < before.clips.len() implies (
            #[trigger] before.clips[a]).id != (#[trigger] before.clips[b]).id by {
                assert(before.clips[a].id == v.clips[a].id);
                assert(before.clips[b].id == v.clips[b].id);
            }
        }
        lemma_clip_place(before.clips, i);
        assert(before.clips[i].tracks.push(own.last()) =~= v.clips[i].tracks + own);
        assert(grown(v, adds).clips =~= v.clips.update(
            i,
            ClipShape { tracks: v.clips[i].tracks + own, ..v.clips[i] },
        ));
    }
}

proof fn lemma_grown_all(v: TimelineView, m: Map<u128, NodeId>, n: nat)
    requires
        clips_distinct(v.clips),
        n <= v.clips.len(),
    ensures
        ({
            let w = grown(v, new_tracks(v.clips.take(n as int), m));
            &&& w == (TimelineView { clips: w.clips, ..v })
            &&& w.clips.len() == v.clips.len()
            &&& forall|i: int|
                0 <= i < v.clips.len() ==> #[trigger] w.clips[i] == if i < n {
                    ClipShape {
                        tracks: v.clips[i].tracks + retargeted(v.clips[i].tracks, m),
                        ..v.clips[i]
                    }
                } else {
                    v.clips[i]
                }
        }),
    decreases n,
{
    if n > 0 {
        let k = n - 1;
        lemma_grown_all(v, m, k as nat);
        let front = new_tracks(v.clips.take(k), m);
        let u = grown(v, front);
        let own = retargeted(v.clips[k].tracks, m);
        assert(v.clips.take(n as int).drop_last() =~= v.clips.take(k));
        assert(v.clips.take(n as int).last() == v.clips[k]);
        let run = Seq::new(own.len(), |q: int| (v.clips[k].id, own[q]));
        assert(new_tracks(v.clips.take(n as int), m) == front + run);
        lemma_grown_join(v, front, run);
        assert(u.clips[k] == v.clips[k]);
        assert(clips_distinct(u.clips)) by {
            assert forall|a: int, b: int| 0 <= a < b < u.clips.len() implies (
            #[trigger] u.clips[a]).id != (#[trigger] u.clips[b]).id by {
                assert(u.clips[a].id == v.clips[a].id);
                assert(u.clips[b].id == v.clips[b].id);
            }
        }
        lemma_grown_run(u, k, own);
    } else {
        assert(v.clips.take(0) =~= seq![]);
    }
}

/// What a clip drives of a node, it drives of the node's copy too: for each track
/// that drives a copied node there is one more, which drives the copy of that node
/// just as the first drives the node. No other track is added, those that were there
/// stay as they were, and nothing else of the clips changes.
pub proof fn law_copy_is_driven_like_its_source(
    f: Seq<Tree>,
    v: TimelineView,
    id: NodeId,
    new_id: NodeId,
    fresh: Seq<NodeId>,
    g: Seq<Tree>,
    w: TimelineView,
    at: Seq<(AssetId, usize)>,
    i: int,
)
    requires
        duplicate_step(f, v, id, new_id, fresh, g, w, at),
        find(f, id) is Some,
        fresh.len() >= ids(find(f, id)->0.children).len(),
        clips_distinct(v.clips),
        0 <= i < v.clips.len(),
    ensures
        ({
            let t = find(f, id)->0;
            let before = v.clips[i].tracks;
            let after = w.clips[i].tracks;
            let n = before.len() as int;
            &&& w == (TimelineView { clips: w.clips, ..v })
            &&& w.clips.len() == v.clips.len()
            &&& w.clips[i] == (ClipShape { tracks: after, ..v.clips[i] })
            &&& after.len() == n + driving(before, before.len(), t)
            &&& forall|j: int| 0 <= j < n ==> #[trigger] after[j] == before[j]
            &&& forall|j: int|
                0 <= j < n && drives_within(#[trigger] before[j], t) ==> copies_drive(
                    before[j],
                    after[n + driving(before, j as nat, t)],
                    t,
                    new_id,
                    fresh,
                )
            &&& forall|k: int|
                n <= k < after.len() ==> exists|j: int|
                    0 <= j < n && copies_drive(
                        #[trigger] before[j],
                        #[trigger] after[k],
                        t,
                        new_id,
                        fresh,
                    )
        }),
{
    let t = find(f, id)->0;
    let m = copy_renaming(t, new_id, fresh);
    lemma_grown_all(v, m, v.clips.len());
    assert(v.clips.take(v.clips.len() as int) =~= v.clips);
    let before = v.clips[i].tracks;
    let after = w.clips[i].tracks;
    let n = before.len() as int;
    let own = retargeted(before, m);
    assert(after == before + own);
    lemma_retargeted(before, t, new_id, fresh, 0);
    assert forall|j: int| 0 <= j < n && drives_within(#[trigger] before[j], t) implies copies_drive(
        before[j],
        after[n + driving(before, j as nat, t)],
        t,
        new_id,
        fresh,
    ) by {
        lemma_retargeted(before, t, new_id, fresh, j);
        assert(after[n + driving(before, j as nat, t)] == own[driving(before, j as nat, t) as int]);
    }
    assert forall|k: int| n <= k < after.len() implies exists|j: int|
        0 <= j < n && copies_drive(
            #[trigger] before[j],
            #[trigger] after[k],
            t,
            new_id,
            fresh,
        ) by {
        let j = lemma_driver(before, before.len(), t, k - n);
        lemma_retargeted(before, t, new_id, fresh, j);
        assert(copies_drive(before[j], after[k], t, new_id, fresh));
    }
}

/// The data of the nodes of a forest, in the order of their ids.
pub open spec fn datas(f: Seq<Tree>) -> Seq<NodeData>
    decreases f,
{
    if f.len() == 0 {
        seq![]
    } else {
        seq![f[0].data] + datas(f[0].children) + datas(f.drop_first())
    }
}

/// Whether a copied node looks like its source: all of it is the same, but that a
/// joint of a rig which was copied too is the copy of that joint.
pub open spec fn looks_like(
    a: NodeData,
    b: NodeData,
    t: Tree,
    new_id: NodeId,
    fresh: Seq<NodeId>,
) -> bool {
    &&& b.name == a.name
    &&& b.transform == a.transform
    &&& b.visible == a.visible
    &&& b.locked == a.locked
    &&& b.prefab == a.prefab
    &&& match a.kind {
        NodeKind::SkinnedMesh { skin, palette, shadow, lod } => b.kind matches
            NodeKind::SkinnedMesh { skin: s, palette: p, shadow: h, lod: l } && {
            &&& s.source == skin.source
            &&& s.node_index == skin.node_index
            &&& s.rig_node_index == skin.rig_node_index
            &&& s.primitive_index == skin.primitive_index
            &&& p == palette
            &&& h == shadow
            &&& l == lod
            &&& s.joints@.len() == skin.joints@.len()
            &&& forall|i: int|
                0 <= i < s.joints@.len() ==> {
                    &&& (#[trigger] s.joints@[i]).index == skin.joints@[i].index
                    &&& if own_ids(t).contains(skin.joints@[i].node) {
                        is_copy_of(t, new_id, fresh, skin.joints@[i].node, s.joints@[i].node)
                    } else {
                        s.joints@[i].node == skin.joints@[i].node
                    }
                }
        },
        _ => b.kind == a.kind,
    }
}

proof fn lemma_len(f: Seq<Tree>)
    ensures
        datas(f).len() == ids(f).len(),
    decreases f,
{
    if f.len() > 0 {
        lemma_len(f[0].children);
        lemma_len(f.drop_first());
    }
}

proof fn lemma_single(t: Tree)
    ensures
        ids(seq![t]) == own_ids(t),
        datas(seq![t]) == seq![t.data] + datas(t.children),
{
    let none = Seq::<Tree>::empty();
    assert(seq![t].drop_first() =~= none);
    assert(ids(none) =~= seq![]);
    assert(datas(none) =~= seq![]);
    assert(ids(seq![t]) =~= own_ids(t));
    assert(datas(seq![t]) =~= seq![t.data] + datas(t.children));
}

proof fn lemma_copied_row(
    f: Seq<Tree>,
    g: Seq<Tree>,
    t: Tree,
    new_id: NodeId,
    fresh: Seq<NodeId>,
    k: int,
)
    requires
        fresh.len() >= ids(t.children).len(),
        f.len() == g.len(),
        forall|i: int|
            0 <= i < f.len() ==> copied(
                #[trigger] f[i],
                copy_renaming(t, new_id, fresh),
                g[i],
            ),
        forall|x: NodeId| ids(f).contains(x) ==> #[trigger] own_ids(t).contains(x),
    ensures
        ids(g).len() == ids(f).len(),
        0 <= k < ids(f).len() ==> {
            &&& is_copy_of(t, new_id, fresh, ids(f)[k], ids(g)[k])
            &&& looks_like(datas(f)[k], datas(g)[k], t, new_id, fresh)
        },
    decreases f,
{
    if f.len() > 0 {
        let m = copy_renaming(t, new_id, fresh);
        let a = f[0];
        let b = g[0];
        let below = ids(a.children);
        let more = ids(f.drop_first());
        lemma_len(a.children);
        lemma_len(b.children);
        lemma_len(f.drop_first());
        assert forall|x: NodeId| below.contains(x) implies #[trigger] own_ids(t).contains(x) by {
            let i = choose|i: int| 0 <= i < below.len() && below[i] == x;
            assert(ids(f)[i + 1] == x);
        }
        assert forall|x: NodeId| more.contains(x) implies #[trigger] own_ids(t).contains(x) by {
            let i = choose|i: int| 0 <= i < more.len() && more[i] == x;
            assert(ids(f)[i + 1 + below.len()] == x);
        }
        assert(copied(a, m, b));
        assert forall|i: int| 0 <= i < f.drop_first().len() implies copied(
            #[trigger] f.drop_first()[i],
            m,
            g.drop_first()[i],
        ) by {
            assert(copied(f[i + 1], m, g[i + 1]));
        }
        lemma_copied_row(a.children, b.children, t, new_id, fresh, k - 1);
        lemma_copied_row(
            f.drop_first(),
            g.drop_first(),
            t,
            new_id,
            fresh,
            k - 1 - below.len(),
        );
        lemma_len(g.drop_first());
        if 0 < k <= below.len() {
            assert(ids(f)[k] == below[k - 1]);
            assert(ids(g)[k] == ids(b.children)[k - 1]);
            assert(datas(f)[k] == datas(a.children)[k - 1]);
            assert(datas(g)[k] == datas(b.children)[k - 1]);
        } else if below.len() < k < ids(f).len() {
            let q = k - 1 - below.len();
            assert(ids(f)[k] == more[q]);
            assert(ids(g)[k] == ids(g.drop_first())[q]);
            assert(datas(f)[k] == datas(f.drop_first())[q]);
            assert(datas(g)[k] == datas(g.drop_first())[q]);
        }
        if k == 0 {
            assert(ids(f)[0] == a.id && ids(g)[0] == b.id);
            assert(datas(f)[0] == a.data && datas(g)[0] == b.data);
            assert(ids(f).contains(a.id));
            lemma_copy_renaming(t, new_id, fresh, a.id);
            assert(is_copy_of(t, new_id, fresh, a.id, b.id));
            if let NodeKind::SkinnedMesh { skin, .. } = a.data.kind {
                assert forall|i: int| 0 <= i < skin.joints@.len() implies (
                own_ids(t).contains(skin.joints@[i].node) ==> is_copy_of(
                    t,
                    new_id,
                    fresh,
                    #[trigger] skin.joints@[i].node,
                    m[skin.joints@[i].node.0],
                )) && (own_ids(t).contains(skin.joints@[i].node) == m.contains_key(
                    skin.joints@[i].node.0,
                )) by {
                    lemma_copy_renaming(t, new_id, fresh, skin.joints@[i].node);
                }
            }
        }
    }
}

/// A copy has as many nodes as its source, in the same order, each under the id that
/// was given for it and looking like its source.
pub proof fn law_copy_looks_like_its_source(
    t: Tree,
    new_id: NodeId,
    fresh: Seq<NodeId>,
    t2: Tree,
    k: int,
)
    requires
        copied(t, copy_renaming(t, new_id, fresh), t2),
        fresh.len() >= ids(t.children).len(),
        0 <= k < own_ids(t).len(),
    ensures
        own_ids(t2).len() == own_ids(t).len(),
        is_copy_of(t, new_id, fresh, own_ids(t)[k], own_ids(t2)[k]),
        looks_like(
            (seq![t.data] + datas(t.children))[k],
            (seq![t2.data] + datas(t2.children))[k],
            t,
            new_id,
            fresh,
        ),
{
    let f = seq![t];
    let g = seq![t2];
    lemma_single(t);
    lemma_single(t2);
    lemma_copied_row(f, g, t, new_id, fresh, k);
}

} // verus!

//! Edits of the tree: copying, moving, adding and deleting nodes, and what they
//! do to the animation that drives them.
use crate::clips::{
    clip_at, clip_shapes, find_clip, track_shapes, Clip, ClipShape, Track, TrackShape,
};
use crate::errors::EditorError;
use crate::ids::{AssetId, NodeId};
use crate::list::{List, Same};
use crate::node::{NodeKind, SkinJoint, SkinnedMeshRef};
use crate::table::Table;
use crate::timeline::{lemma_clip_kept, Timeline, TimelineView};
use crate::tree::{
    added, collect_ids, find, find_by_id, find_place, forest, has_node, ids, insert_tree,
    lemma_find, lemma_model, place, put, put_data, remove_by_id, removed, within, Node, NodeData,
    Tree,
};
use crate::tree_laws::{
    distinct, law_insert_is_undone, law_move_is_undone, law_put_changes_one_node,
    law_put_is_undone, law_removal_keeps_ids_distinct, lemma_added_keeps, lemma_ids_within,
    lemma_not_below_itself, lemma_parent_outside, lemma_place_is_within, lemma_survives, moved, owns,
};
use crate::values::Trs;
use vstd::prelude::*;

verus! {

/// Where an id leads under a renaming.
pub open spec fn renamed(m: Map<u128, NodeId>, id: NodeId) -> NodeId {
    if m.contains_key(id.0) {
        m[id.0]
    } else {
        id
    }
}

/// The renaming that takes the ids of one row to those of another.
pub open spec fn renaming(from: Seq<NodeId>, to: Seq<NodeId>) -> Map<u128, NodeId>
    decreases from.len(),
{
    if from.len() == 0 || to.len() == 0 {
        Map::empty()
    } else {
        renaming(from.drop_last(), to.drop_last()).insert(from.last().0, to.last())
    }
}

/// The joints of a rig under a renaming.
pub open spec fn joints_renamed(js: Seq<SkinJoint>, m: Map<u128, NodeId>) -> Seq<SkinJoint> {
    Seq::new(js.len(), |i: int| SkinJoint { node: renamed(m, js[i].node), ..js[i] })
}

/// Whether a kind is the copy of another under a renaming: only the joints of a
/// rig are renamed.
pub open spec fn kind_copied(k: NodeKind, m: Map<u128, NodeId>, k2: NodeKind) -> bool {
    match k {
        NodeKind::SkinnedMesh { skin, palette, shadow, lod } => match k2 {
            NodeKind::SkinnedMesh { skin: s2, palette: p2, shadow: h2, lod: l2 } => {
                &&& s2 == (SkinnedMeshRef { joints: s2.joints, ..skin })
                &&& s2.joints@ == joints_renamed(skin.joints@, m)
                &&& p2 == palette
                &&& h2 == shadow
                &&& l2 == lod
            },
            _ => false,
        },
        _ => k2 == k,
    }
}

/// Whether a tree is the copy of another under a renaming.
pub open spec fn copied(t: Tree, m: Map<u128, NodeId>, t2: Tree) -> bool
    decreases t,
{
    &&& t2.id == renamed(m, t.id)
    &&& t2.data == (NodeData { kind: t2.data.kind, ..t.data })
    &&& kind_copied(t.data.kind, m, t2.data.kind)
    &&& t2.children.len() == t.children.len()
    &&& forall|i: int|
        0 <= i < t.children.len() ==> copied(#[trigger] t.children[i], m, t2.children[i])
}

fn rename(m: &Table<NodeId>, id: NodeId) -> (r: NodeId)
    ensures
        r == renamed(m@, id),
{
    match m.get(id.0) {
        Some(n) => *n,
        None => id,
    }
}

fn copy_kind(k: &NodeKind, m: &Table<NodeId>) -> (r: NodeKind)
    ensures
        kind_copied(*k, m@, r),
{
    match k {
        NodeKind::SkinnedMesh { skin, palette, shadow, lod } => {
            let mut joints: Vec<SkinJoint> = Vec::new();
            let mut i: usize = 0;
            while i < skin.joints.len()
                invariant
                    i <= skin.joints@.len(),
                    joints@ == joints_renamed(skin.joints@, m@).take(i as int),
                decreases skin.joints@.len() - i,
            {
                let j: SkinJoint = *skin.joints.at(i);
                joints.push(SkinJoint { node: rename(m, j.node), index: j.index });
                i += 1;
                assert(joints@ =~= joints_renamed(skin.joints@, m@).take(i as int));
            }
            assert(joints_renamed(skin.joints@, m@).take(i as int) =~= joints_renamed(
                skin.joints@,
                m@,
            ));
            NodeKind::SkinnedMesh {
                skin: SkinnedMeshRef {
                    source: skin.source,
                    node_index: skin.node_index,
                    rig_node_index: skin.rig_node_index,
                    primitive_index: skin.primitive_index,
                    joints: List::from_vec(joints),
                },
                palette: palette.same(),
                shadow: *shadow,
                lod: *lod,
            }
        },
        _ => k.same(),
    }
}

fn copy_tree(n: &Node, m: &Table<NodeId>) -> (r: Node)
    ensures
        copied(n.model(), m@, r.model()),
    decreases n,
{
    let mut children: Vec<Node> = Vec::new();
    let mut i: usize = 0;
    while i < n.children.len()
        invariant
            i <= n.children@.len(),
            children@.len() == i,
            forall|j: int|
                0 <= j < i ==> copied(
                    (#[trigger] n.children@[j]).model(),
                    m@,
                    children@[j].model(),
                ),
        decreases n.children@.len() - i,
    {
        let c = copy_tree(&n.children[i], m);
        children.push(c);
        i += 1;
    }
    let r = Node {
        id: rename(m, n.id),
        data: NodeData {
            name: n.data.name.clone(),
            transform: n.data.transform,
            kind: copy_kind(&n.data.kind, m),
            visible: n.data.visible,
            locked: n.data.locked,
            prefab: n.data.prefab,
        },
        children,
    };
    proof {
        lemma_model(*n);
        lemma_model(r);
        assert forall|j: int| 0 <= j < n.model().children.len() implies copied(
            #[trigger] n.model().children[j],
            m@,
            r.model().children[j],
        ) by {
            assert(copied(n.children@[j].model(), m@, children@[j].model()));
        }
    }
    r
}

/// The tracks that a copy gets: one for each track that drives a copied node.
pub open spec fn retargeted(ts: Seq<TrackShape>, m: Map<u128, NodeId>) -> Seq<TrackShape>
    decreases ts.len(),
{
    if ts.len() == 0 {
        seq![]
    } else {
        let rest = retargeted(ts.drop_last(), m);
        match ts.last().target.node_of() {
            Some(n) => if m.contains_key(n.0) {
                rest.push(TrackShape { target: ts.last().target.onto(m[n.0]), ..ts.last() })
            } else {
                rest
            },
            None => rest,
        }
    }
}

/// The tracks that the clips get, in order, each with its clip.
pub open spec fn new_tracks(cs: Seq<ClipShape>, m: Map<u128, NodeId>) -> Seq<(AssetId, TrackShape)>
    decreases cs.len(),
{
    if cs.len() == 0 {
        seq![]
    } else {
        let c = cs.last();
        let own = retargeted(c.tracks, m);
        new_tracks(cs.drop_last(), m) + Seq::new(own.len(), |i: int| (c.id, own[i]))
    }
}

/// The timeline with tracks added, one after the other.
pub open spec fn grown(v: TimelineView, adds: Seq<(AssetId, TrackShape)>) -> TimelineView
    decreases adds.len(),
{
    if adds.len() == 0 {
        v
    } else {
        let before = grown(v, adds.drop_last());
        let (clip, t) = adds.last();
        if before.has_clip(clip) {
            before.with_tracks(clip, before.clip(clip).tracks.push(t))
        } else {
            before
        }
    }
}

/// Where each of the added tracks came to stand.
pub open spec fn landed(v: TimelineView, adds: Seq<(AssetId, TrackShape)>, at: Seq<
    (AssetId, usize),
>) -> bool
    decreases adds.len(),
{
    if adds.len() == 0 {
        at.len() == 0
    } else {
        let before = grown(v, adds.drop_last());
        let clip = adds.last().0;
        if before.has_clip(clip) {
            &&& at.len() > 0
            &&& landed(v, adds.drop_last(), at.drop_last())
            &&& at.last().0 == clip
            &&& at.last().1 == before.clip(clip).tracks.len()
        } else {
            landed(v, adds.drop_last(), at)
        }
    }
}

/// The timeline after tracks are deleted, the last one named first.
pub open spec fn shrunk(v: TimelineView, at: Seq<(AssetId, usize)>) -> TimelineView
    decreases at.len(),
{
    if at.len() == 0 {
        v
    } else {
        let (clip, k) = at.last();
        let next = if v.has_track(clip, k) {
            v.with_tracks(clip, v.clip(clip).tracks.remove(k as int))
        } else {
            v
        };
        shrunk(next, at.drop_last())
    }
}

/// Deleting the tracks that were added, from the last to the first, restores
/// the timeline.
pub proof fn law_added_tracks_are_taken_back(
    v: TimelineView,
    adds: Seq<(AssetId, TrackShape)>,
    at: Seq<(AssetId, usize)>,
)
    requires
        landed(v, adds, at),
    ensures
        shrunk(grown(v, adds), at) == v,
    decreases adds.len(),
{
    if adds.len() > 0 {
        let before = grown(v, adds.drop_last());
        let (clip, t) = adds.last();
        if before.has_clip(clip) {
            let i = clip_at(before.clips, clip);
            let after = grown(v, adds);
            crate::find::lemma_first(before.clips, crate::clips::is_clip(clip));
            lemma_clip_kept(before.clips, clip, after.clips[i]);
            let (c, k) = at.last();
            let back = after.with_tracks(clip, after.clip(clip).tracks.remove(k as int));
            assert(after.clip(clip).tracks.remove(k as int) =~= before.clip(clip).tracks);
            assert(back.clips =~= before.clips);
            assert(back =~= before);
            law_added_tracks_are_taken_back(v, adds.drop_last(), at.drop_last());
        } else {
            law_added_tracks_are_taken_back(v, adds.drop_last(), at);
        }
    }
}

fn collect_retargeted(tracks: &List<Track>, m: &Table<NodeId>) -> (r: Vec<Track>)
    ensures
        track_shapes(r@) == retargeted(track_shapes(tracks@), m@),
{
    let mut out: Vec<Track> = Vec::new();
    let mut i: usize = 0;
    let ghost ts = track_shapes(tracks@);
    assert(track_shapes(out@) =~= retargeted(ts.take(0), m@));
    while i < tracks.len()
        invariant
            i <= tracks@.len(),
            ts == track_shapes(tracks@),
            track_shapes(out@) == retargeted(ts.take(i as int), m@),
        decreases tracks@.len() - i,
    {
        let t = tracks.at(i);
        let ghost was = out@;
        assert(ts.take(i + 1).drop_last() =~= ts.take(i as int));
        assert(ts.take(i + 1).last() == t.shape());
        if let Some(n) = t.target.target_node() {
            if let Some(to) = m.get(n.0) {
                let mut copy = t.same();
                copy.target = t.target.retarget(*to);
                out.push(copy);
                assert(track_shapes(out@) =~= track_shapes(was).push(copy.shape()));
            }
        }
        i += 1;
    }
    assert(ts.take(i as int) =~= ts);
    out
}

/// Pairs as values.
spec fn pair_shapes(ps: Seq<(AssetId, Track)>) -> Seq<(AssetId, TrackShape)> {
    Seq::new(ps.len(), |i: int| (ps[i].0, ps[i].1.shape()))
}

fn collect_new_tracks(clips: &Vec<Clip>, m: &Table<NodeId>) -> (r: Vec<(AssetId, Track)>)
    ensures
        pair_shapes(r@) == new_tracks(clip_shapes(clips@), m@),
{
    let mut out: Vec<(AssetId, Track)> = Vec::new();
    let mut i: usize = 0;
    let ghost cs = clip_shapes(clips@);
    assert(pair_shapes(out@) =~= new_tracks(cs.take(0), m@));
    while i < clips.len()
        invariant
            i <= clips@.len(),
            cs == clip_shapes(clips@),
            pair_shapes(out@) == new_tracks(cs.take(i as int), m@),
        decreases clips@.len() - i,
    {
        let own = collect_retargeted(&clips[i].tracks, m);
        let id = clips[i].id;
        let ghost start = pair_shapes(out@);
        let ghost shapes = track_shapes(own@);
        let mut k: usize = 0;
        while k < own.len()
            invariant
                k <= own@.len(),
                shapes == track_shapes(own@),
                pair_shapes(out@) == start + Seq::new(k as nat, |q: int| (id, shapes[q])),
            decreases own@.len() - k,
        {
            let copy = own[k].same();
            let ghost was = out@;
            assert(copy.shape() == shapes[k as int]);
            out.push((id, copy));
            assert(pair_shapes(out@) =~= pair_shapes(was).push((id, shapes[k as int])));
            k += 1;
            assert(pair_shapes(out@) =~= start + Seq::new(k as nat, |q: int| (id, shapes[q])));
        }
        assert(cs.take(i + 1).drop_last() =~= cs.take(i as int));
        assert(cs.take(i + 1).last() == clips@[i as int].shape());
        i += 1;
        assert(pair_shapes(out@) =~= new_tracks(cs.take(i as int), m@));
    }
    assert(cs.take(i as int) =~= cs);
    out
}

/// Adds tracks one after the other and tells where they came to stand.
fn grow(t: &mut Timeline, adds: Vec<(AssetId, Track)>) -> (r: Vec<(AssetId, usize)>)
    ensures
        final(t)@ == grown(old(t)@, pair_shapes(adds@)),
        landed(old(t)@, pair_shapes(adds@), r@),
{
    let ghost all = pair_shapes(adds@);
    let mut at: Vec<(AssetId, usize)> = Vec::new();
    let mut i: usize = 0;
    assert(grown(t@, all.take(0)) == t@);
    assert(landed(t@, all.take(0), at@));
    while i < adds.len()
        invariant
            i <= adds@.len(),
            all == pair_shapes(adds@),
            t@ == grown(old(t)@, all.take(i as int)),
            landed(old(t)@, all.take(i as int), at@),
        decreases adds@.len() - i,
    {
        assert(all.take(i + 1).drop_last() =~= all.take(i as int));
        assert(all.take(i + 1).last() == all[i as int]);
        let clip = adds[i].0;
        let copy = adds[i].1.same();
        let ghost was = at@;
        match t.push_track(clip, copy) {
            Some(k) => {
                at.push((clip, k));
                assert(at@.drop_last() =~= was);
            },
            None => {},
        }
        i += 1;
    }
    assert(all.take(i as int) =~= all);
    at
}

/// The ids of a node and of what is below it, in pre-order.
pub open spec fn own_ids(t: Tree) -> Seq<NodeId> {
    seq![t.id] + ids(t.children)
}

/// The new ids of a copy.
pub open spec fn copy_ids(new_id: NodeId, fresh: Seq<NodeId>) -> Seq<NodeId> {
    seq![new_id] + fresh
}

/// The renaming under which a node is copied.
pub open spec fn copy_renaming(t: Tree, new_id: NodeId, fresh: Seq<NodeId>) -> Map<u128, NodeId> {
    renaming(own_ids(t), copy_ids(new_id, fresh).take(own_ids(t).len() as int))
}

fn make_renaming(from: &Vec<NodeId>, to: &Vec<NodeId>) -> (r: Table<NodeId>)
    requires
        to@.len() >= from@.len(),
    ensures
        r@ == renaming(from@, to@.take(from@.len() as int)),
{
    let mut m: Table<NodeId> = Table::new();
    let mut i: usize = 0;
    assert(m@ =~= renaming(from@.take(0), to@.take(0)));
    while i < from.len()
        invariant
            i <= from@.len() <= to@.len(),
            m@ == renaming(from@.take(i as int), to@.take(i as int)),
        decreases from@.len() - i,
    {
        m.insert(from[i].0, to[i]);
        assert(from@.take(i + 1).drop_last() =~= from@.take(i as int));
        assert(to@.take(i + 1).drop_last() =~= to@.take(i as int));
        i += 1;
    }
    assert(from@.take(i as int) =~= from@);
    m
}

/// The parent of a node; `None` at the top.
pub open spec fn parent_of(f: Seq<Tree>, id: NodeId) -> Option<NodeId> {
    match place(f, id, None) {
        Some((p, _)) => p,
        None => None,
    }
}

/// What copying a node does to the scene and its animation: the copy stands at
/// the end of the same row, and every clip that drives a copied node drives the
/// copy too.
pub open spec fn duplicate_step(
    f: Seq<Tree>,
    v: TimelineView,
    id: NodeId,
    new_id: NodeId,
    fresh: Seq<NodeId>,
    g: Seq<Tree>,
    w: TimelineView,
    at: Seq<(AssetId, usize)>,
) -> bool {
    let t = find(f, id)->0;
    let m = copy_renaming(t, new_id, fresh);
    &&& exists|t2: Tree| #[trigger]
        copied(t, m, t2) && g == added(
            f,
            parent_of(f, id),
            None,
            t2,
        )
    &&& w == grown(v, new_tracks(v.clips, m))
    &&& landed(v, new_tracks(v.clips, m), at)
}

/// Copies a node. `fresh` are the ids of the nodes below the copy, in pre-order.
/// Hands back where the added tracks stand.
pub fn duplicate(
    nodes: &mut Vec<Node>,
    timeline: &mut Timeline,
    id: NodeId,
    new_id: NodeId,
    fresh: &Vec<NodeId>,
) -> (r: Result<Vec<(AssetId, usize)>, EditorError>)
    ensures
        match r {
            Ok(at) => {
                &&& find(forest(old(nodes)@), id) is Some
                &&& fresh@.len() >= ids(find(forest(old(nodes)@), id)->0.children).len()
                &&& duplicate_step(
                    forest(old(nodes)@),
                    old(timeline)@,
                    id,
                    new_id,
                    fresh@,
                    forest(final(nodes)@),
                    final(timeline)@,
                    at@,
                )
            },
            Err(e) => {
                &&& forest(final(nodes)@) == forest(old(nodes)@)
                &&& final(timeline)@ == old(timeline)@
                &&& match find(forest(old(nodes)@), id) {
                    None => e == EditorError::TargetNotFound,
                    Some(t) => fresh@.len() < ids(t.children).len() && e == EditorError::TooFewIds,
                }
            },
        },
{
    let ghost f = forest(nodes@);
    proof {
        lemma_find(f, id);
    }
    let parent = match find_place(nodes, id) {
        Some((p, _)) => p,
        None => {
            return Err(EditorError::TargetNotFound);
        },
    };
    let source = match find_by_id(nodes, id) {
        Some(n) => n,
        None => {
            return Err(EditorError::TargetNotFound);
        },
    };
    let ghost t = source.model();
    proof {
        lemma_model(*source);
    }
    let below = collect_ids(&source.children);
    if fresh.len() < below.len() {
        return Err(EditorError::TooFewIds);
    }
    let mut from: Vec<NodeId> = Vec::new();
    from.push(source.id);
    let mut to: Vec<NodeId> = Vec::new();
    to.push(new_id);
    let mut i: usize = 0;
    while i < below.len()
        invariant
            i <= below@.len() <= fresh@.len(),
            from@ == seq![t.id] + below@.take(i as int),
            to@ == seq![new_id] + fresh@.take(i as int),
        decreases below@.len() - i,
    {
        from.push(below[i]);
        to.push(fresh[i]);
        i += 1;
        assert(from@ =~= seq![t.id] + below@.take(i as int));
        assert(to@ =~= seq![new_id] + fresh@.take(i as int));
    }
    assert(from@ =~= own_ids(t));
    let m = make_renaming(&from, &to);
    assert(to@.take(from@.len() as int) =~= copy_ids(new_id, fresh@).take(own_ids(t).len() as int));
    let copy = copy_tree(source, &m);
    let adds = collect_new_tracks(&timeline.clips, &m);
    let ghost t2 = copy.model();
    let done = insert_tree(nodes, parent, None, copy);
    proof {
        lemma_place_is_within(f, id, None);
        assert(copied(t, m@, t2));
    }
    let at = grow(timeline, adds);
    Ok(at)
}

/// Whether every track of a clip drives a node that is gone.
pub open spec fn orphaned(c: ClipShape, f: Seq<Tree>) -> bool {
    c.tracks.len() > 0 && forall|i: int|
        0 <= i < c.tracks.len() ==> {
            let n = (#[trigger] c.tracks[i]).target.node_of();
            n is Some && !within(f, n->0)
        }
}

/// The clips that are not orphaned.
pub open spec fn living(cs: Seq<ClipShape>, f: Seq<Tree>) -> Seq<ClipShape>
    decreases cs.len(),
{
    if cs.len() == 0 {
        seq![]
    } else if orphaned(cs.last(), f) {
        living(cs.drop_last(), f)
    } else {
        living(cs.drop_last(), f).push(cs.last())
    }
}

/// The timeline without orphaned clips. Where the current clip went with them,
/// the first clip that is left takes its place.
pub open spec fn pruned(v: TimelineView, f: Seq<Tree>) -> TimelineView {
    let rest = living(v.clips, f);
    let kept = TimelineView { clips: rest, ..v };
    TimelineView {
        current_clip: if rest.len() == v.clips.len() || v.current_clip is None || kept.has_clip(
            v.current_clip->0,
        ) {
            v.current_clip
        } else if rest.len() > 0 {
            Some(rest[0].id)
        } else {
            None
        },
        ..kept
    }
}

proof fn lemma_living(cs: Seq<ClipShape>, f: Seq<Tree>)
    ensures
        living(cs, f).len() <= cs.len(),
    decreases cs.len(),
{
    if cs.len() > 0 {
        lemma_living(cs.drop_last(), f);
    }
}

fn is_orphaned(c: &Clip, nodes: &Vec<Node>) -> (r: bool)
    ensures
        r == orphaned(c.shape(), forest(nodes@)),
{
    if c.tracks.is_empty() {
        return false;
    }
    let ghost ts = c.shape().tracks;
    let mut i: usize = 0;
    while i < c.tracks.len()
        invariant
            i <= c.tracks@.len(),
            ts == track_shapes(c.tracks@),
            forall|j: int|
                0 <= j < i ==> {
                    let n = (#[trigger] ts[j]).target.node_of();
                    n is Some && !within(forest(nodes@), n->0)
                },
        decreases c.tracks@.len() - i,
    {
        assert(ts[i as int].target == c.tracks@[i as int].target);
        match c.tracks.at(i).target.target_node() {
            Some(n) => {
                if has_node(nodes, n) {
                    return false;
                }
            },
            None => {
                return false;
            },
        }
        i += 1;
    }
    true
}

/// Removes the clips whose every track drives a node that is gone, and tells how
/// many there were.
pub fn prune_orphaned_clips(timeline: &mut Timeline, nodes: &Vec<Node>) -> (r: usize)
    ensures
        final(timeline)@ == pruned(old(timeline)@, forest(nodes@)),
        r == old(timeline)@.clips.len() - final(timeline)@.clips.len(),
{
    let ghost v = timeline@;
    let ghost f = forest(nodes@);
    let mut rest: Vec<Clip> = Vec::new();
    let mut i: usize = 0;
    assert(clip_shapes(rest@) =~= living(v.clips.take(0), f));
    while i < timeline.clips.len()
        invariant
            timeline@ == v,
            f == forest(nodes@),
            i <= timeline.clips@.len(),
            clip_shapes(rest@) == living(v.clips.take(i as int), f),
        decreases timeline.clips@.len() - i,
    {
        let ghost was = rest@;
        assert(v.clips.take(i + 1).drop_last() =~= v.clips.take(i as int));
        assert(v.clips.take(i + 1).last() == timeline.clips@[i as int].shape());
        if !is_orphaned(&timeline.clips[i], nodes) {
            let c = timeline.clips[i].same();
            rest.push(c);
            assert(clip_shapes(rest@) =~= clip_shapes(was).push(c.shape()));
        }
        i += 1;
    }
    assert(v.clips.take(i as int) =~= v.clips);
    proof {
        lemma_living(v.clips, f);
    }
    let before = timeline.clips.len();
    let freed = before - rest.len();
    timeline.clips = rest;
    assert(timeline@ =~= TimelineView { clips: living(v.clips, f), ..v });
    if freed > 0 {
        if let Some(cur) = timeline.current_clip {
            if find_clip(&timeline.clips, cur).is_none() {
                timeline.current_clip = if timeline.clips.len() > 0 {
                    Some(timeline.clips[0].id)
                } else {
                    None
                };
            }
        }
    }
    assert(timeline@ =~= pruned(v, f));
    freed
}

/// A row of ids without one.
pub open spec fn without_id(s: Seq<NodeId>, id: NodeId) -> Seq<NodeId>
    decreases s.len(),
{
    if s.len() == 0 {
        seq![]
    } else if s.last() == id {
        without_id(s.drop_last(), id)
    } else {
        without_id(s.drop_last(), id).push(s.last())
    }
}

fn drop_id(s: &Vec<NodeId>, id: NodeId) -> (r: Vec<NodeId>)
    ensures
        r@ == without_id(s@, id),
{
    let mut out: Vec<NodeId> = Vec::new();
    let mut i: usize = 0;
    while i < s.len()
        invariant
            i <= s@.len(),
            out@ == without_id(s@.take(i as int), id),
        decreases s@.len() - i,
    {
        proof {
            assert(s@.take(i + 1).drop_last() =~= s@.take(i as int));
            assert(s@.take(i + 1).last() == s@[i as int]);
        }
        if s[i] != id {
            out.push(s[i]);
        }
        i += 1;
    }
    assert(s@.take(i as int) =~= s@);
    out
}

/// Deletes a node with everything below it. It leaves the selection, and clips
/// that drove nothing but deleted nodes go with it. Hands back the node and
/// where it stood.
pub fn delete_node(
    nodes: &mut Vec<Node>,
    timeline: &mut Timeline,
    selected: &mut Vec<NodeId>,
    id: NodeId,
) -> (r: Result<(Node, Option<NodeId>, usize), EditorError>)
    ensures
        ({
            let f = forest(old(nodes)@);
            let g = forest(final(nodes)@);
            match r {
                Ok((n, parent, index)) => {
                    &&& find(f, id) == Some(n.model())
                    &&& place(f, id, None) == Some((parent, index as int))
                    &&& g == removed(f, id)
                    &&& final(timeline)@ == pruned(old(timeline)@, g)
                    &&& final(selected)@ == without_id(old(selected)@, id)
                },
                Err(e) => {
                    &&& find(f, id) is None
                    &&& e == EditorError::TargetNotFound
                    &&& g == f
                    &&& final(timeline)@ == old(timeline)@
                    &&& final(selected)@ == old(selected)@
                },
            }
        }),
{
    let ghost f = forest(nodes@);
    proof {
        lemma_find(f, id);
    }
    let (parent, index) = match find_place(nodes, id) {
        Some((p, i)) => (p, i),
        None => {
            return Err(EditorError::TargetNotFound);
        },
    };
    match remove_by_id(nodes, id) {
        Some(n) => {
            *selected = drop_id(selected, id);
            prune_orphaned_clips(timeline, nodes);
            Ok((n, parent, index))
        },
        None => Err(EditorError::TargetNotFound),
    }
}

/// Whether a node can be moved below a parent: both are there, and the parent is
/// neither the node nor below it.
pub open spec fn movable(f: Seq<Tree>, id: NodeId, parent: Option<NodeId>) -> bool {
    within(f, id) && (parent matches Some(p) ==> within(f, p) && !owns(find(f, id)->0, p))
}

/// Moves a node below another parent. Hands back where it stood; where the move
/// would not lead to a tree, nothing happens.
pub fn reparent(
    nodes: &mut Vec<Node>,
    id: NodeId,
    new_parent: Option<NodeId>,
    index: Option<usize>,
) -> (r: Option<(Option<NodeId>, usize)>)
    ensures
        ({
            let f = forest(old(nodes)@);
            let g = forest(final(nodes)@);
            if movable(f, id, new_parent) {
                &&& g == moved(f, id, new_parent, index)
                &&& r matches Some((p, i)) && place(f, id, None) == Some((p, i as int))
            } else {
                r is None && g == f
            }
        }),
{
    let ghost f = forest(nodes@);
    proof {
        lemma_find(f, id);
    }
    let (parent, at) = match find_place(nodes, id) {
        Some((p, i)) => (p, i),
        None => {
            return None;
        },
    };
    if let Some(p) = new_parent {
        let below = match find_by_id(nodes, id) {
            Some(n) => {
                proof {
                    lemma_model(*n);
                }
                n.id == p || has_node(&n.children, p)
            },
            None => true,
        };
        if below || !has_node(nodes, p) {
            return None;
        }
        proof {
            lemma_survives(f, id, p);
        }
    }
    if let Some(n) = remove_by_id(nodes, id) {
        insert_tree(nodes, new_parent, index, n);
    }
    Some((parent, at))
}

/// Moving a node and moving it back where it stood restores the scene.
pub proof fn law_reparent_is_undone(
    f: Seq<Tree>,
    id: NodeId,
    parent: Option<NodeId>,
    index: Option<usize>,
    old_parent: Option<NodeId>,
    old_index: usize,
)
    requires
        distinct(f),
        movable(f, id, parent),
        place(f, id, None) == Some((old_parent, old_index as int)),
    ensures
        movable(moved(f, id, parent, index), id, old_parent),
        moved(moved(f, id, parent, index), id, old_parent, Some(old_index)) == f,
{
    lemma_find(f, id);
    if let Some(p) = parent {
        lemma_survives(f, id, p);
    }
    law_move_is_undone(f, id, parent, index, old_parent, old_index);
    let g = moved(f, id, parent, index);
    let bare = removed(f, id);
    let n = find(f, id)->0;
    law_removal_keeps_ids_distinct(f, id);
    law_insert_is_undone(bare, parent, index, n);
    lemma_find(g, id);
    if let Some(q) = old_parent {
        lemma_place_is_within(f, id, None);
        lemma_parent_outside(f, id, None);
        lemma_survives(f, id, q);
        lemma_added_keeps(bare, parent, index, n, q);
    }
}

/// The posed nodes of a subtree: each id with a rest pose, in pre-order.
pub open spec fn at_rest(d: NodeData, rest: Trs) -> NodeData {
    NodeData { transform: rest, ..d }
}

/// The forest with the nodes of a row of ids at their rest poses.
pub open spec fn rested(f: Seq<Tree>, row: Seq<NodeId>, rest: Map<u128, Trs>) -> Seq<Tree>
    decreases row.len(),
{
    if row.len() == 0 {
        f
    } else {
        let g = rested(f, row.drop_last(), rest);
        let id = row.last();
        if posed(g, id, rest) {
            put(g, id, at_rest(find(g, id)->0.data, rest[id.0]))
        } else {
            g
        }
    }
}

/// Whether a node has a rest pose and stands away from it.
pub open spec fn posed(f: Seq<Tree>, id: NodeId, rest: Map<u128, Trs>) -> bool {
    rest.contains_key(id.0) && find(f, id) is Some && find(f, id)->0.data.transform != rest[id.0]
}

/// The poses that were left, in order.
pub open spec fn former_poses(f: Seq<Tree>, row: Seq<NodeId>, rest: Map<u128, Trs>) -> Seq<
    (NodeId, Trs),
>
    decreases row.len(),
{
    if row.len() == 0 {
        seq![]
    } else {
        let g = rested(f, row.drop_last(), rest);
        let id = row.last();
        let before = former_poses(f, row.drop_last(), rest);
        if posed(g, id, rest) {
            before.push((id, find(g, id)->0.data.transform))
        } else {
            before
        }
    }
}

/// The forest with poses put back, the last one first.
pub open spec fn reposed(f: Seq<Tree>, poses: Seq<(NodeId, Trs)>) -> Seq<Tree>
    decreases poses.len(),
{
    if poses.len() == 0 {
        f
    } else {
        let (id, t) = poses.last();
        reposed(put(f, id, at_rest(find(f, id)->0.data, t)), poses.drop_last())
    }
}

/// Putting the former poses back, from the last to the first, undoes a reset.
pub proof fn law_reset_pose_is_undone(f: Seq<Tree>, row: Seq<NodeId>, rest: Map<u128, Trs>)
    ensures
        reposed(rested(f, row, rest), former_poses(f, row, rest)) == f,
    decreases row.len(),
{
    if row.len() > 0 {
        let g = rested(f, row.drop_last(), rest);
        let id = row.last();
        law_reset_pose_is_undone(f, row.drop_last(), rest);
        if posed(g, id, rest) {
            let d = find(g, id)->0.data;
            let d2 = at_rest(d, rest[id.0]);
            lemma_find(g, id);
            law_put_is_undone(g, id, d2);
            law_put_changes_one_node(g, id, d2, id);
            let poses = former_poses(f, row, rest);
            assert(poses.drop_last() =~= former_poses(f, row.drop_last(), rest));
            assert(at_rest(d2, d.transform) == d);
        }
    }
}

/// Puts every node of a subtree that has a rest pose back into it. Hands back
/// the poses that were left, in order; `None` where the node is not there.
pub fn reset_to_bind_pose(nodes: &mut Vec<Node>, id: NodeId, rest: &Table<Trs>) -> (r: Option<
    Vec<(NodeId, Trs)>,
>)
    ensures
        match r {
            Some(poses) => {
                let f = forest(old(nodes)@);
                &&& find(f, id) is Some
                &&& forest(final(nodes)@) == rested(f, own_ids(find(f, id)->0), rest@)
                &&& poses@ == former_poses(f, own_ids(find(f, id)->0), rest@)
            },
            None => find(forest(old(nodes)@), id) is None && forest(final(nodes)@) == forest(
                old(nodes)@,
            ),
        },
{
    let ghost f = forest(nodes@);
    let mut row: Vec<NodeId> = Vec::new();
    match find_by_id(nodes, id) {
        Some(n) => {
            proof {
                lemma_model(*n);
            }
            row.push(n.id);
            let mut below = collect_ids(&n.children);
            row.append(&mut below);
            assert(row@ =~= own_ids(n.model()));
        },
        None => {
            return None;
        },
    }
    let mut poses: Vec<(NodeId, Trs)> = Vec::new();
    let mut i: usize = 0;
    assert(row@.take(0) =~= Seq::empty());
    assert(poses@ =~= former_poses(f, row@.take(0), rest@));
    while i < row.len()
        invariant
            i <= row@.len(),
            forest(nodes@) == rested(f, row@.take(i as int), rest@),
            poses@ == former_poses(f, row@.take(i as int), rest@),
        decreases row@.len() - i,
    {
        assert(row@.take(i + 1).drop_last() =~= row@.take(i as int));
        assert(row@.take(i + 1).last() == row@[i as int]);
        let at = row[i];
        if let Some(pose) = rest.get(at.0) {
            let data = match find_by_id(nodes, at) {
                Some(n) => Some(n.data.same()),
                None => None,
            };
            if let Some(mut d) = data {
                if d.transform != *pose {
                    poses.push((at, d.transform));
                    d.transform = *pose;
                    put_data(nodes, at, d);
                }
            }
        }
        i += 1;
    }
    assert(row@.take(i as int) =~= row@);
    Some(poses)
}

/// A renaming takes an id that stands in its row once to the id beside it.
proof fn lemma_renaming_first(from: Seq<NodeId>, to: Seq<NodeId>)
    requires
        from.len() > 0,
        from.len() == to.len(),
        forall|j: int| 0 < j < from.len() ==> #[trigger] from[j] != from[0],
    ensures
        renaming(from, to).contains_key(from[0].0),
        renaming(from, to)[from[0].0] == to[0],
    decreases from.len(),
{
    if from.len() > 1 {
        let f = from.drop_last();
        let t = to.drop_last();
        assert forall|j: int| 0 < j < f.len() implies #[trigger] f[j] != f[0] by {
            assert(f[j] == from[j]);
        }
        lemma_renaming_first(f, t);
        assert(from.last() == from[from.len() - 1]);
    }
}

/// The copy of a node has the id that was asked for.
pub proof fn lemma_copy_is_named(f: Seq<Tree>, id: NodeId, new_id: NodeId, fresh: Seq<NodeId>)
    requires
        distinct(f),
        within(f, id),
        fresh.len() >= ids(find(f, id)->0.children).len(),
    ensures
        renamed(copy_renaming(find(f, id)->0, new_id, fresh), id) == new_id,
{
    lemma_not_below_itself(f, id);
    let t = find(f, id)->0;
    let from = own_ids(t);
    let to = copy_ids(new_id, fresh).take(from.len() as int);
    assert forall|j: int| 0 < j < from.len() implies #[trigger] from[j] != from[0] by {
        if from[j] == id {
            assert(ids(t.children)[j - 1] == id);
            assert(ids(t.children).contains(id));
            lemma_ids_within(t.children, id);
        }
    }
    lemma_renaming_first(from, to);
}

/// A reset touches nothing but transforms: each is the one before or the rest
/// pose.
pub proof fn lemma_rested(f: Seq<Tree>, row: Seq<NodeId>, rest: Map<u128, Trs>, x: NodeId)
    ensures
        find(rested(f, row, rest), x) is Some == find(f, x) is Some,
        find(f, x) is Some ==> {
            let d = find(f, x)->0.data;
            let e = find(rested(f, row, rest), x)->0.data;
            &&& e == (NodeData { transform: e.transform, ..d })
            &&& e.transform == d.transform || (rest.contains_key(x.0) && e.transform == rest[x.0])
        },
    decreases row.len(),
{
    if row.len() > 0 {
        let g = rested(f, row.drop_last(), rest);
        let id = row.last();
        lemma_rested(f, row.drop_last(), rest, x);
        if posed(g, id, rest) {
            lemma_find(g, id);
            law_put_changes_one_node(g, id, at_rest(find(g, id)->0.data, rest[id.0]), x);
        }
    }
}

/// The poses that a reset leaves are those that the nodes had.
pub proof fn lemma_former_poses(f: Seq<Tree>, row: Seq<NodeId>, rest: Map<u128, Trs>, i: int)
    requires
        0 <= i < former_poses(f, row, rest).len(),
    ensures
        ({
            let (id, t) = former_poses(f, row, rest)[i];
            find(f, id) is Some && t == find(f, id)->0.data.transform && row.contains(id)
        }),
    decreases row.len(),
{
    let short = row.drop_last();
    let g = rested(f, short, rest);
    let id = row.last();
    let before = former_poses(f, short, rest);
    lemma_rested(f, short, rest, id);
    if i < before.len() {
        lemma_former_poses(f, short, rest, i);
        let x = before[i].0;
        let k = choose|k: int| 0 <= k < short.len() && short[k] == x;
        assert(row[k] == x);
    } else {
        assert(row[row.len() - 1] == id);
    }
}

} // verus!

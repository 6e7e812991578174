//! Questions that the renderer answers: which values it is asked for, and what is
//! made of them.
use crate::animation_sync::{expand_descendants, with_descendants, RenderNode, RestPose};
use crate::bounds::{bounds_source, source_of, BoundsSource};
use crate::clips::find_clip;
use crate::dynamic::{Registry, RegistryView};
use crate::find::{first, lemma_first_is};
use crate::ids::{AssetId, NodeId};
use crate::list::{List, Same};
use crate::node::NodeKind;
use crate::readback::{
    meshes_of, morph_names, morph_names_for_node, read_readback_target, readback_key, reading,
    renderer_meshes_for_node, LiveState, Reading, ReadbackTarget,
};
use crate::scene_query::{asked_nodes, resolve_node_ids};
use crate::table::Table;
use crate::timeline::{Timeline, TimelineView};
use crate::tree::{find, find_by_id, forest, Node, Tree};
use crate::values::{F32, F64};
use vstd::prelude::*;

verus! {

/// The morph weights of a node as they are rendered.
pub struct MorphLine {
    pub node: NodeId,
    pub weights: List<F32>,
    /// The names of the targets; none where the file named none.
    pub names: List<String>,
}

/// Whether a mesh has morph weights that can be read.
pub open spec fn weighted(live: LiveState) -> spec_fn(u64) -> bool {
    |mesh: u64|
        live.render.geometry_morphs@.contains_key(mesh as u128) && live.weights@.contains_key(
            live.render.geometry_morphs@[mesh as u128] as u128,
        )
}

/// The weights of the first mesh that has any.
pub open spec fn first_weights(meshes: Seq<u64>, live: LiveState) -> Option<List<F32>> {
    let i = first(meshes, weighted(live));
    if 0 <= i < meshes.len() {
        Some(live.weights@[live.render.geometry_morphs@[meshes[i] as u128] as u128])
    } else {
        None
    }
}

/// The morph weights of a row of nodes. A node without any is left out.
pub open spec fn morph_lines(live: LiveState, f: Seq<Tree>, row: Seq<NodeId>) -> Seq<
    (NodeId, Seq<F32>, Seq<String>),
>
    decreases row.len(),
{
    if row.len() == 0 {
        seq![]
    } else {
        let front = morph_lines(live, f, row.drop_last());
        let node = row.last();
        let meshes = meshes_of(live.render.nodes@, live.templates@, f, node);
        match first_weights(meshes, live) {
            Some(w) => front.push(
                (node, w@, morph_names(live.render.nodes@, live.templates@, f, node)),
            ),
            None => front,
        }
    }
}

/// Lines as values.
pub open spec fn line_views(lines: Seq<MorphLine>) -> Seq<(NodeId, Seq<F32>, Seq<String>)> {
    Seq::new(lines.len(), |i: int| (lines[i].node, lines[i].weights@, lines[i].names@))
}

fn find_weights(meshes: &Vec<u64>, live: &LiveState) -> (r: Option<List<F32>>)
    ensures
        match r {
            Some(w) => first_weights(meshes@, *live) is Some && w@ == first_weights(
                meshes@,
                *live,
            )->0@,
            None => first_weights(meshes@, *live) is None,
        },
{
    let mut i: usize = 0;
    while i < meshes.len()
        invariant
            i <= meshes@.len(),
            forall|j: int| 0 <= j < i ==> !weighted(*live)(#[trigger] meshes@[j]),
        decreases meshes@.len() - i,
    {
        if let Some(key) = live.render.geometry_morphs.get(meshes[i] as u128) {
            if let Some(w) = live.weights.get(*key as u128) {
                proof {
                    lemma_first_is(meshes@, weighted(*live), i as int);
                }
                return Some(w.clone());
            }
        }
        i += 1;
    }
    proof {
        lemma_first_is(meshes@, weighted(*live), i as int);
    }
    None
}

/// The morph weights of nodes, of all of them where none is named, as they are
/// rendered. A node that the renderer has no weights for is left out.
pub fn morph_data(live: &LiveState, nodes: &Vec<Node>, requested: &List<NodeId>) -> (r: Vec<
    MorphLine,
>)
    ensures
        line_views(r@) == morph_lines(
            *live,
            forest(nodes@),
            asked_nodes(forest(nodes@), requested@),
        ),
{
    let ghost f = forest(nodes@);
    let row = resolve_node_ids(nodes, requested);
    let mut out: Vec<MorphLine> = Vec::new();
    let mut i: usize = 0;
    assert(line_views(out@) =~= morph_lines(*live, f, row@.take(0)));
    while i < row.len()
        invariant
            i <= row@.len(),
            f == forest(nodes@),
            line_views(out@) == morph_lines(*live, f, row@.take(i as int)),
        decreases row@.len() - i,
    {
        let ghost was = out@;
        let node = row[i];
        let meshes = renderer_meshes_for_node(&live.render.nodes, &live.templates, nodes, node);
        if let Some(weights) = find_weights(&meshes, live) {
            let names = morph_names_for_node(&live.render.nodes, &live.templates, nodes, node);
            out.push(MorphLine { node, weights, names });
            assert(line_views(out@) =~= line_views(was).push((node, weights@, names@)));
        }
        i += 1;
        assert(row@.take(i as int).drop_last() =~= row@.take(i - 1));
    }
    assert(row@.take(i as int) =~= row@);
    out
}

/// The keys of the morph weights of meshes, in order.
pub open spec fn morph_keys(meshes: Seq<u64>, keys: Map<u128, u64>) -> Seq<u64>
    decreases meshes.len(),
{
    if meshes.len() == 0 {
        seq![]
    } else {
        let front = morph_keys(meshes.drop_last(), keys);
        if keys.contains_key(meshes.last() as u128) {
            front.push(keys[meshes.last() as u128])
        } else {
            front
        }
    }
}

/// The keys of the morph weights that belong to a node, over a table of keys by
/// mesh: the weights that a change of one of its weights reaches.
pub fn morph_keys_of(
    live: &LiveState,
    nodes: &Vec<Node>,
    node: NodeId,
    keys: &Table<u64>,
) -> (r: Vec<u64>)
    ensures
        r@ == morph_keys(
            meshes_of(live.render.nodes@, live.templates@, forest(nodes@), node),
            keys@,
        ),
{
    let meshes = renderer_meshes_for_node(&live.render.nodes, &live.templates, nodes, node);
    let mut out: Vec<u64> = Vec::new();
    let mut i: usize = 0;
    while i < meshes.len()
        invariant
            i <= meshes@.len(),
            out@ == morph_keys(meshes@.take(i as int), keys@),
        decreases meshes@.len() - i,
    {
        if let Some(k) = keys.get(meshes[i] as u128) {
            out.push(*k);
        }
        i += 1;
        assert(meshes@.take(i as int).drop_last() =~= meshes@.take(i - 1));
    }
    assert(meshes@.take(i as int) =~= meshes@);
    out
}

/// Weights with one of them changed; an index past the end changes nothing.
pub fn set_morph_weight(weights: &mut Vec<F32>, index: u32, value: F32)
    ensures
        final(weights)@ == if index < old(weights)@.len() {
            old(weights)@.update(index as int, value)
        } else {
            old(weights)@
        },
{
    let i: usize = index as usize;
    if i < weights.len() {
        weights.set(i, value);
    }
}

/// The poses that a row of nodes takes in the renderer: how each stands in the
/// scene.
pub open spec fn scene_poses(
    f: Seq<Tree>,
    row: Seq<NodeId>,
    made: Map<u128, RenderNode>,
) -> Seq<RestPose>
    decreases row.len(),
{
    if row.len() == 0 {
        seq![]
    } else {
        let front = scene_poses(f, row.drop_last(), made);
        let id = row.last();
        if made.contains_key(id.0) && find(f, id) is Some {
            front.push(
                RestPose {
                    transform: made[id.0].transform_key,
                    pose: find(f, id)->0.data.transform,
                },
            )
        } else {
            front
        }
    }
}

/// The poses that take back what playing a clip left of a subtree in the renderer:
/// how its nodes stand in the scene, which a clip does not change.
pub fn reset_pose(nodes: &Vec<Node>, node: NodeId, made: &Table<RenderNode>) -> (r: Vec<RestPose>)
    ensures
        r@ == scene_poses(
            forest(nodes@),
            with_descendants(forest(nodes@), seq![node]),
            made@,
        ),
{
    let mut one: Vec<NodeId> = Vec::new();
    one.push(node);
    assert(one@ =~= seq![node]);
    let row = expand_descendants(nodes, &List::from_vec(one));
    let mut out: Vec<RestPose> = Vec::new();
    let mut i: usize = 0;
    while i < row.len()
        invariant
            i <= row@.len(),
            out@ == scene_poses(forest(nodes@), row@.take(i as int), made@),
        decreases row@.len() - i,
    {
        let id = row[i];
        if let Some(m) = made.get(id.0) {
            if let Some(n) = find_by_id(nodes, id) {
                out.push(RestPose { transform: m.transform_key, pose: n.data.transform });
            }
        }
        i += 1;
        assert(row@.take(i as int).drop_last() =~= row@.take(i - 1));
    }
    assert(row@.take(i as int) =~= row@);
    out
}

/// The world matrix of a node.
pub struct NodeWorld {
    pub node: NodeId,
    pub matrix: List<F32>,
}

/// The world matrices of those nodes of a row that stand in the scene and that
/// the renderer has.
pub open spec fn worlds_of(live: LiveState, f: Seq<Tree>, row: Seq<NodeId>) -> Seq<NodeWorld>
    decreases row.len(),
{
    if row.len() == 0 {
        seq![]
    } else {
        let front = worlds_of(live, f, row.drop_last());
        let node = row.last();
        let made = live.render.nodes@;
        if find(f, node) is Some && made.contains_key(node.0) && live.worlds@.contains_key(
            made[node.0].transform_key as u128,
        ) {
            front.push(
                NodeWorld { node, matrix: live.worlds@[made[node.0].transform_key as u128] },
            )
        } else {
            front
        }
    }
}

/// The world matrices of nodes, of all of them where none is named.
pub fn node_worlds(live: &LiveState, nodes: &Vec<Node>, requested: &List<NodeId>) -> (r: Vec<
    NodeWorld,
>)
    ensures
        r@ == worlds_of(*live, forest(nodes@), asked_nodes(forest(nodes@), requested@)),
{
    let row = resolve_node_ids(nodes, requested);
    let mut out: Vec<NodeWorld> = Vec::new();
    let mut i: usize = 0;
    while i < row.len()
        invariant
            i <= row@.len(),
            out@ == worlds_of(*live, forest(nodes@), row@.take(i as int)),
        decreases row@.len() - i,
    {
        let node = row[i];
        if find_by_id(nodes, node).is_some() {
            if let Some(m) = live.render.nodes.get(node.0) {
                if let Some(w) = live.worlds.get(m.transform_key as u128) {
                    out.push(NodeWorld { node, matrix: w.same() });
                }
            }
        }
        i += 1;
        assert(row@.take(i as int).drop_last() =~= row@.take(i - 1));
    }
    assert(row@.take(i as int) =~= row@);
    out
}

/// How the box of a node in the world is found.
#[derive(Clone, Copy, PartialEq, Eq, Structural, Debug)]
pub struct BoundsPlan {
    pub node: NodeId,
    /// Where its own box comes from.
    pub source: BoundsSource,
    /// Whether the scale of the node is left out: the size of a collider is in its
    /// shape.
    pub rigid: bool,
    /// The transform that takes the box into the world, where there is one.
    pub transform: Option<u64>,
}

/// How the box of a node is found.
pub open spec fn planned_bounds(made: Map<u128, RenderNode>, node: NodeId, k: NodeKind) -> BoundsPlan {
    BoundsPlan {
        node,
        source: source_of(k),
        rigid: k is Collider,
        transform: if made.contains_key(node.0) {
            Some(made[node.0].transform_key)
        } else {
            None
        },
    }
}

/// How the boxes of those nodes of a row that stand in the scene are found.
pub open spec fn plans_of(made: Map<u128, RenderNode>, f: Seq<Tree>, row: Seq<NodeId>) -> Seq<BoundsPlan>
    decreases row.len(),
{
    if row.len() == 0 {
        seq![]
    } else {
        let front = plans_of(made, f, row.drop_last());
        match find(f, row.last()) {
            Some(t) => front.push(planned_bounds(made, row.last(), t.data.kind)),
            None => front,
        }
    }
}

/// How the boxes of nodes are found, of all of them where none is named.
pub fn bounds_plans(made: &Table<RenderNode>, nodes: &Vec<Node>, requested: &List<NodeId>) -> (r: Vec<
    BoundsPlan,
>)
    ensures
        r@ == plans_of(made@, forest(nodes@), asked_nodes(forest(nodes@), requested@)),
{
    let row = resolve_node_ids(nodes, requested);
    let mut out: Vec<BoundsPlan> = Vec::new();
    let mut i: usize = 0;
    while i < row.len()
        invariant
            i <= row@.len(),
            out@ == plans_of(made@, forest(nodes@), row@.take(i as int)),
        decreases row@.len() - i,
    {
        let node = row[i];
        if let Some(n) = find_by_id(nodes, node) {
            let rigid = match n.data.kind {
                NodeKind::Collider(_) => true,
                _ => false,
            };
            let transform: Option<u64> = match made.get(node.0) {
                Some(m) => Some(m.transform_key),
                None => None,
            };
            out.push(BoundsPlan { node, source: bounds_source(&n.data.kind), rigid, transform });
        }
        i += 1;
        assert(row@.take(i as int).drop_last() =~= row@.take(i - 1));
    }
    assert(row@.take(i as int) =~= row@);
    out
}

/// What was read at one time of a clip: a value for each key.
pub struct Frame {
    pub time: F64,
    pub values: Vec<Option<Reading>>,
}

/// The keys of what is read from a clip, in order.
pub fn frame_keys(targets: &Vec<ReadbackTarget>) -> (r: Vec<String>)
    ensures
        r@.len() == targets@.len(),
        forall|i: int|
            0 <= i < r@.len() ==> (#[trigger] r@[i])@ == crate::readback::key_text(targets@[i]),
{
    let mut out: Vec<String> = Vec::new();
    let mut i: usize = 0;
    while i < targets.len()
        invariant
            i <= targets@.len(),
            out@.len() == i,
            forall|j: int|
                0 <= j < i ==> (#[trigger] out@[j])@ == crate::readback::key_text(targets@[j]),
        decreases targets@.len() - i,
    {
        out.push(readback_key(&targets[i]));
        i += 1;
    }
    out
}

/// The values at one time of a clip.
pub open spec fn frame_values(
    targets: Seq<ReadbackTarget>,
    live: LiveState,
    reg: RegistryView,
    f: Seq<Tree>,
) -> Seq<Option<Reading>> {
    Seq::new(targets.len(), |i: int| reading(targets[i], live, reg, f))
}

/// Reads the values at one time of a clip, once the renderer holds that pose.
pub fn read_frame(
    time: F64,
    targets: &Vec<ReadbackTarget>,
    live: &LiveState,
    reg: &Registry,
    nodes: &Vec<Node>,
) -> (r: Frame)
    ensures
        r.time == time,
        r.values@ == frame_values(targets@, *live, reg@, forest(nodes@)),
{
    let mut values: Vec<Option<Reading>> = Vec::new();
    let mut i: usize = 0;
    while i < targets.len()
        invariant
            i <= targets@.len(),
            values@ == frame_values(targets@.take(i as int), *live, reg@, forest(nodes@)),
        decreases targets@.len() - i,
    {
        values.push(read_readback_target(&targets[i], live, reg, nodes));
        i += 1;
        assert(values@ =~= frame_values(targets@.take(i as int), *live, reg@, forest(nodes@)));
    }
    assert(targets@.take(i as int) =~= targets@);
    Frame { time, values }
}

/// A clip that the renderer plays: its name and how many channels it has.
pub struct PlayedClip {
    pub name: String,
    pub channels: usize,
}

/// How the renderer's animation stands against what was authored.
pub struct AnimationRuntime {
    pub clip_groups: usize,
    pub resolved_channels: u64,
    pub current_clip: Option<AssetId>,
    /// The tracks of the current clip, which the resolved channels should match.
    pub authored_tracks: usize,
    pub playing: bool,
    pub playhead: F64,
}

/// How many channels clips have together.
pub open spec fn channel_sum(clips: Seq<PlayedClip>) -> nat
    decreases clips.len(),
{
    if clips.len() == 0 {
        0
    } else {
        channel_sum(clips.drop_last()) + clips.last().channels as nat
    }
}

/// How many tracks the current clip has.
pub open spec fn current_tracks(v: TimelineView) -> nat {
    match v.current_clip {
        Some(id) => if v.has_clip(id) {
            v.clip(id).tracks.len()
        } else {
            0
        },
        None => 0,
    }
}

proof fn lemma_channel_sum_grows(clips: Seq<PlayedClip>, i: int)
    requires
        0 <= i <= clips.len(),
    ensures
        channel_sum(clips.take(i)) <= channel_sum(clips),
    decreases clips.len() - i,
{
    if i < clips.len() {
        lemma_channel_sum_grows(clips, i + 1);
        assert(clips.take(i + 1).drop_last() =~= clips.take(i));
    } else {
        assert(clips.take(i) =~= clips);
    }
}

/// Tells how the renderer's animation stands against what was authored. `clips`
/// are those that the renderer plays.
pub fn animation_runtime(timeline: &Timeline, clips: &Vec<PlayedClip>) -> (r: AnimationRuntime)
    requires
        channel_sum(clips@) <= u64::MAX,
    ensures
        r.clip_groups == clips@.len(),
        r.resolved_channels == channel_sum(clips@),
        r.current_clip == timeline.current_clip,
        r.authored_tracks == current_tracks(timeline@),
        r.playing == timeline.playing,
        r.playhead == timeline.playhead,
{
    let mut sum: u64 = 0;
    let mut i: usize = 0;
    assert(clips@.take(0) =~= seq![]);
    while i < clips.len()
        invariant
            i <= clips@.len(),
            sum == channel_sum(clips@.take(i as int)),
            channel_sum(clips@) <= u64::MAX,
        decreases clips@.len() - i,
    {
        proof {
            assert(clips@.take(i + 1).drop_last() =~= clips@.take(i as int));
            lemma_channel_sum_grows(clips@, i + 1);
        }
        sum += clips[i].channels as u64;
        i += 1;
    }
    assert(clips@.take(i as int) =~= clips@);
    let authored_tracks: usize = match timeline.current_clip {
        Some(id) => match find_clip(&timeline.clips, id) {
            Some(k) => timeline.clips[k].tracks.len(),
            None => 0,
        },
        None => 0,
    };
    AnimationRuntime {
        clip_groups: clips.len(),
        resolved_channels: sum,
        current_clip: timeline.current_clip,
        authored_tracks,
        playing: timeline.playing,
        playhead: timeline.playhead,
    }
}

/// What one of the renderer's upload rings reports.
#[derive(Clone, Copy, PartialEq, Eq, Structural, Debug)]
pub struct RingStats {
    pub peak_depth: usize,
    pub fallbacks: u64,
    pub ring_bytes: u64,
    pub fallback_bytes: u64,
    pub direct_bytes: u64,
    pub resizes: u64,
}

/// What all upload rings report together.
#[derive(Clone, Copy, PartialEq, Eq, Structural, Debug)]
pub struct RingTotals {
    pub peak_depth: usize,
    pub fallbacks: u64,
    pub bytes: u64,
    pub resizes: u64,
}

/// The deepest that any ring was used.
pub open spec fn deepest(rings: Seq<RingStats>) -> usize
    decreases rings.len(),
{
    if rings.len() == 0 {
        0
    } else if rings.last().peak_depth > deepest(rings.drop_last()) {
        rings.last().peak_depth
    } else {
        deepest(rings.drop_last())
    }
}

/// A sum over rings.
pub open spec fn ring_sum(rings: Seq<RingStats>, part: spec_fn(RingStats) -> int) -> int
    decreases rings.len(),
{
    if rings.len() == 0 {
        0
    } else {
        ring_sum(rings.drop_last(), part) + part(rings.last())
    }
}

/// The times that a ring was bypassed.
pub open spec fn fallbacks_of() -> spec_fn(RingStats) -> int {
    |s: RingStats| s.fallbacks as int
}

/// The bytes that were uploaded, whichever way they went.
pub open spec fn bytes_of_ring() -> spec_fn(RingStats) -> int {
    |s: RingStats| s.ring_bytes + s.fallback_bytes + s.direct_bytes
}

/// The times that a ring was made larger.
pub open spec fn resizes_of() -> spec_fn(RingStats) -> int {
    |s: RingStats| s.resizes as int
}

proof fn lemma_ring_sum_grows(rings: Seq<RingStats>, part: spec_fn(RingStats) -> int, i: int)
    requires
        0 <= i <= rings.len(),
        forall|s: RingStats| #[trigger] part(s) >= 0,
    ensures
        ring_sum(rings.take(i), part) <= ring_sum(rings, part),
    decreases rings.len() - i,
{
    if i < rings.len() {
        lemma_ring_sum_grows(rings, part, i + 1);
        assert(rings.take(i + 1).drop_last() =~= rings.take(i));
        assert(part(rings.take(i + 1).last()) >= 0);
    } else {
        assert(rings.take(i) =~= rings);
    }
}

/// What all upload rings report together, where the sums can be counted.
pub fn ring_totals(rings: &Vec<RingStats>) -> (r: RingTotals)
    requires
        ring_sum(rings@, fallbacks_of()) <= u64::MAX,
        ring_sum(rings@, bytes_of_ring()) <= u64::MAX,
        ring_sum(rings@, resizes_of()) <= u64::MAX,
    ensures
        r.peak_depth == deepest(rings@),
        r.fallbacks == ring_sum(rings@, fallbacks_of()),
        r.bytes == ring_sum(rings@, bytes_of_ring()),
        r.resizes == ring_sum(rings@, resizes_of()),
{
    let mut t = RingTotals { peak_depth: 0, fallbacks: 0, bytes: 0, resizes: 0 };
    let n: usize = rings.len();
    let mut i: usize = 0;
    assert(rings@.take(0) =~= seq![]);
    while i < n
        invariant
            n == rings@.len(),
            i <= n,
            t.peak_depth == deepest(rings@.take(i as int)),
            t.fallbacks == ring_sum(rings@.take(i as int), fallbacks_of()),
            t.bytes == ring_sum(rings@.take(i as int), bytes_of_ring()),
            t.resizes == ring_sum(rings@.take(i as int), resizes_of()),
            ring_sum(rings@, fallbacks_of()) <= u64::MAX,
            ring_sum(rings@, bytes_of_ring()) <= u64::MAX,
            ring_sum(rings@, resizes_of()) <= u64::MAX,
        decreases n - i,
    {
        assert(rings@.take(i + 1).drop_last() =~= rings@.take(i as int));
        assert(rings@.take(i + 1).last() == rings@[i as int]);
        proof {
            lemma_ring_sum_grows(rings@, fallbacks_of(), i + 1);
            lemma_ring_sum_grows(rings@, bytes_of_ring(), i + 1);
            lemma_ring_sum_grows(rings@, resizes_of(), i + 1);
        }
        let s = rings[i];
        if s.peak_depth > t.peak_depth {
            t.peak_depth = s.peak_depth;
        }
        t.fallbacks += s.fallbacks;
        t.bytes += s.ring_bytes + s.fallback_bytes + s.direct_bytes;
        t.resizes += s.resizes;
        i += 1;
    }
    assert(rings@.take(i as int) =~= rings@);
    t
}

/// No ring was used deeper than the report says.
pub proof fn law_no_ring_is_deeper(rings: Seq<RingStats>, i: int)
    requires
        0 <= i < rings.len(),
    ensures
        rings[i].peak_depth <= deepest(rings),
    decreases rings.len(),
{
    if i < rings.len() - 1 {
        law_no_ring_is_deeper(rings.drop_last(), i);
        assert(rings.drop_last()[i] == rings[i]);
    }
}

} // verus!

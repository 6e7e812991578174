//! What holds of animation as the renderer is given it: what is played, where and
//! when is what was authored.
use crate::animation_sync::{
    channels, existing, key_for, lowers, lowers_layer, masked, needed_clips, played, resolved,
    strips_of, track_rests, transforms_of, with_descendants, with_id, with_layers, with_strips,
    AnimationTarget, ClipKey, LowerContext, LoweredClip, RenderLayer, RenderMode, RenderNode,
    RenderState, RenderStrip, Resolution, RestPose,
};
use crate::clips::{
    clip_at, is_clip, ClipShape, LayerMode, LayerShape, LoopStyle, StripDoc, TrackShape,
    TrackTarget,
};
use crate::custom_material::CustomMaterial;
use crate::dynamic::RegistryView;
use crate::find::{first, lemma_first, lemma_tally_all, lemma_tally_below, tally};
use crate::ids::{AssetId, NodeId};
use crate::tree::{find, forest, ids, within, Tree};
use crate::tree_laws::lemma_ids_within;
use vstd::prelude::*;

verus! {

/// Whether a key is the first one of a clip.
pub open spec fn clip_key(keys: Seq<ClipKey>, clip: AssetId, key: u64) -> bool {
    exists|q: int|
        0 <= q < keys.len() && (#[trigger] keys[q]).clip == clip && keys[q].key == key
            && forall|j: int| 0 <= j < q ==> (#[trigger] keys[j]).clip != clip
}

/// Whether a clip has a key.
pub open spec fn keyed(keys: Seq<ClipKey>, clip: AssetId) -> bool {
    exists|q: int| 0 <= q < keys.len() && (#[trigger] keys[q]).clip == clip
}

/// Whether the clip of a strip has a key.
pub open spec fn strip_keyed(strips: Seq<StripDoc>, keys: Seq<ClipKey>) -> spec_fn(int) -> bool {
    |j: int| keyed(keys, strips[j].clip)
}

proof fn lemma_key(keys: Seq<ClipKey>, clip: AssetId)
    ensures
        keyed(keys, clip) == (key_for(keys, clip) is Some),
        keyed(keys, clip) ==> clip_key(keys, clip, key_for(keys, clip)->0),
{
    let p = crate::animation_sync::is_key_of(clip);
    lemma_first(keys, p);
    let i = first(keys, p);
    if i < keys.len() {
        assert(keys[i].clip == clip);
        assert forall|j: int| 0 <= j < i implies (#[trigger] keys[j]).clip != clip by {
            assert(!p(keys[j]));
        }
    } else {
        assert forall|j: int| 0 <= j < keys.len() implies (#[trigger] keys[j]).clip != clip by {
            assert(!p(keys[j]));
        }
    }
}

/// Whether a strip is played just where and how it was authored.
pub open spec fn plays_strip(s: StripDoc, r: RenderStrip, keys: Seq<ClipKey>) -> bool {
    &&& clip_key(keys, s.clip, r.clip)
    &&& r.start == s.start
    &&& r.len == s.len
    &&& r.scale == s.scale
    &&& r.repeat == s.repeat
}

proof fn lemma_strips(strips: Seq<StripDoc>, keys: Seq<ClipKey>, n: nat)
    requires
        n <= strips.len(),
    ensures
        ({
            let r = strips_of(strips.take(n as int), keys);
            let p = strip_keyed(strips, keys);
            &&& r.len() == tally(n, p)
            &&& forall|j: int|
                0 <= j < n && p(j) ==> plays_strip(
                    #[trigger] strips[j],
                    r[tally(j as nat, p) as int],
                    keys,
                )
        }),
    decreases n,
{
    let p = strip_keyed(strips, keys);
    if n > 0 {
        let m = (n - 1) as nat;
        lemma_strips(strips, keys, m);
        lemma_key(keys, strips[m as int].clip);
        let row = strips.take(n as int);
        assert(row.drop_last() =~= strips.take(m as int));
        let a = strips_of(row.drop_last(), keys);
        let r = strips_of(row, keys);
        assert forall|j: int| 0 <= j < n && p(j) implies plays_strip(
            #[trigger] strips[j],
            r[tally(j as nat, p) as int],
            keys,
        ) by {
            if j < m {
                lemma_tally_below(j as nat, m, p);
                assert(r[tally(j as nat, p) as int] == a[tally(j as nat, p) as int]);
            }
        }
    } else {
        assert(strips.take(0) =~= seq![]);
    }
}

/// A layer is played as it was authored: at its weight, in its mode, and with each of
/// its strips whose clip the renderer has, in order, from its start, as long, as fast
/// and as often as it says.
pub proof fn law_layer_plays_its_strips(
    l: LayerShape,
    f: Seq<Tree>,
    nodes: Map<u128, RenderNode>,
    keys: Seq<ClipKey>,
    r: RenderLayer,
)
    requires
        lowers_layer(l, f, nodes, keys, r),
    ensures
        ({
            let p = strip_keyed(l.strips, keys);
            &&& r.weight == l.weight
            &&& match (l.mode, r.mode) {
                (LayerMode::Replace, RenderMode::Replace) => true,
                (
                    LayerMode::Additive { base_clip: a },
                    RenderMode::Additive { base_clip: b },
                ) => {
                    &&& (b is Some) == (a is Some && keyed(keys, a->0))
                    &&& b is Some ==> clip_key(keys, a->0, b->0)
                },
                _ => false,
            }
            &&& r.strips@.len() == tally(l.strips.len(), p)
            &&& forall|j: int|
                0 <= j < l.strips.len() && keyed(keys, (#[trigger] l.strips[j]).clip)
                    ==> tally(j as nat, p) < r.strips@.len() && plays_strip(
                    l.strips[j],
                    r.strips@[tally(j as nat, p) as int],
                    keys,
                )
            &&& (forall|j: int|
                0 <= j < l.strips.len() ==> keyed(keys, (#[trigger] l.strips[j]).clip)) ==> {
                &&& r.strips@.len() == l.strips.len()
                &&& forall|j: int|
                    0 <= j < l.strips.len() ==> plays_strip(
                        #[trigger] l.strips[j],
                        #[trigger] r.strips@[j],
                        keys,
                    )
            }
        }),
{
    let p = strip_keyed(l.strips, keys);
    lemma_strips(l.strips, keys, l.strips.len());
    assert(l.strips.take(l.strips.len() as int) =~= l.strips);
    assert forall|j: int| 0 <= j < l.strips.len() && keyed(keys, (#[trigger] l.strips[j]).clip)
        implies tally(j as nat, p) < r.strips@.len() && plays_strip(
        l.strips[j],
        r.strips@[tally(j as nat, p) as int],
        keys,
    ) by {
        assert(p(j));
        lemma_tally_below(j as nat, l.strips.len(), p);
    }
    if forall|j: int| 0 <= j < l.strips.len() ==> keyed(keys, (#[trigger] l.strips[j]).clip) {
        assert forall|j: int| 0 <= j < l.strips.len() implies #[trigger] p(j) by {
            assert(keyed(keys, l.strips[j].clip));
        }
        lemma_tally_all(l.strips.len(), p);
        assert forall|j: int| 0 <= j < l.strips.len() implies plays_strip(
            #[trigger] l.strips[j],
            #[trigger] r.strips@[j],
            keys,
        ) by {
            assert(keyed(keys, l.strips[j].clip));
            lemma_tally_all(j as nat, p);
        }
    }
    if let LayerMode::Additive { base_clip: Some(a) } = l.mode {
        lemma_key(keys, a);
    }
}

/// A node of a forest is among its ids.
pub proof fn lemma_within_ids(f: Seq<Tree>, x: NodeId)
    requires
        within(f, x),
    ensures
        ids(f).contains(x),
    decreases f,
{
    let i = choose|i: int| 0 <= i < f.len() && ((#[trigger] f[i]).id == x || within(f[i].children, x));
    let below = ids(f[0].children);
    let more = ids(f.drop_first());
    let row = ids(f);
    if i == 0 {
        if f[0].id == x {
            assert(row[0] == x);
        } else {
            lemma_within_ids(f[0].children, x);
            let k = choose|k: int| 0 <= k < below.len() && below[k] == x;
            assert(row[k + 1] == x);
        }
    } else {
        assert(f.drop_first()[i - 1] == f[i]);
        assert(within(f.drop_first(), x));
        lemma_within_ids(f.drop_first(), x);
        let k = choose|k: int| 0 <= k < more.len() && more[k] == x;
        assert(row[k + 1 + below.len()] == x);
    }
}

/// Whether a layer is limited to what includes a node: one that it names, or one
/// below such a node where it says so.
pub open spec fn in_mask(l: LayerShape, f: Seq<Tree>, x: NodeId) -> bool {
    ||| l.mask_nodes.contains(x)
    ||| l.include_descendants && exists|n: NodeId|
        l.mask_nodes.contains(n) && find(f, n) is Some && #[trigger] within(
            find(f, n)->0.children,
            x,
        )
}

proof fn lemma_descendants(f: Seq<Tree>, roots: Seq<NodeId>, x: NodeId)
    ensures
        with_descendants(f, roots).contains(x) == (roots.contains(x) || exists|n: NodeId|
            roots.contains(n) && find(f, n) is Some && #[trigger] within(
                find(f, n)->0.children,
                x,
            )),
    decreases roots.len(),
{
    if roots.len() > 0 {
        let less = roots.drop_last();
        let r = roots.last();
        lemma_descendants(f, less, x);
        let front = with_descendants(f, less).push(r);
        let tail = match find(f, r) {
            Some(n) => ids(n.children),
            None => seq![],
        };
        let all = with_descendants(f, roots);
        assert(all == front + tail);
        assert(roots[roots.len() - 1] == r);
        if all.contains(x) {
            let k = choose|k: int| 0 <= k < all.len() && all[k] == x;
            if k < front.len() - 1 {
                assert(with_descendants(f, less)[k] == x);
                if less.contains(x) {
                    let q = choose|q: int| 0 <= q < less.len() && less[q] == x;
                    assert(roots[q] == x);
                } else {
                    let n = choose|n: NodeId|
                        less.contains(n) && find(f, n) is Some && #[trigger] within(
                            find(f, n)->0.children,
                            x,
                        );
                    let q = choose|q: int| 0 <= q < less.len() && less[q] == n;
                    assert(roots[q] == n);
                }
            } else if k >= front.len() {
                assert(tail[k - front.len()] == x);
                lemma_ids_within(find(f, r)->0.children, x);
            }
        }
        if roots.contains(x) {
            let q = choose|q: int| 0 <= q < roots.len() && roots[q] == x;
            if q < less.len() {
                assert(less[q] == x);
            }
            lemma_in_front(with_descendants(f, less), r, tail, x);
        }
        if exists|n: NodeId|
            roots.contains(n) && find(f, n) is Some && #[trigger] within(
                find(f, n)->0.children,
                x,
            ) {
            let n = choose|n: NodeId|
                roots.contains(n) && find(f, n) is Some && #[trigger] within(
                    find(f, n)->0.children,
                    x,
                );
            let q = choose|q: int| 0 <= q < roots.len() && roots[q] == n;
            if q < less.len() {
                assert(less[q] == n);
                lemma_in_front(with_descendants(f, less), r, tail, x);
            } else {
                lemma_within_ids(find(f, r)->0.children, x);
                let k = choose|k: int| 0 <= k < tail.len() && tail[k] == x;
                assert(all[front.len() + k] == x);
            }
        }
    }
}

proof fn lemma_in_front(a: Seq<NodeId>, r: NodeId, tail: Seq<NodeId>, x: NodeId)
    ensures
        a.contains(x) || x == r ==> (a.push(r) + tail).contains(x),
{
    let all = a.push(r) + tail;
    if a.contains(x) {
        let k = choose|k: int| 0 <= k < a.len() && a[k] == x;
        assert(all[k] == x);
    } else if x == r {
        assert(all[a.len() as int] == x);
    }
}

proof fn lemma_transforms(row: Seq<NodeId>, nodes: Map<u128, RenderNode>, key: u64)
    ensures
        transforms_of(row, nodes).contains(key) == exists|x: NodeId| #[trigger]
            row.contains(x) && nodes.contains_key(x.0) && nodes[x.0].transform_key == key,
    decreases row.len(),
{
    if row.len() > 0 {
        let less = row.drop_last();
        let last = row.last();
        lemma_transforms(less, nodes, key);
        let a = transforms_of(less, nodes);
        let all = transforms_of(row, nodes);
        assert(row[row.len() - 1] == last);
        if all.contains(key) {
            let k = choose|k: int| 0 <= k < all.len() && all[k] == key;
            if k < a.len() {
                assert(a[k] == key);
                let x = choose|x: NodeId| #[trigger]
                    less.contains(x) && nodes.contains_key(x.0) && nodes[x.0].transform_key == key;
                let q = choose|q: int| 0 <= q < less.len() && less[q] == x;
                assert(row[q] == x);
                assert(row.contains(x));
            } else {
                assert(row.contains(last));
            }
        }
        if exists|x: NodeId| #[trigger]
            row.contains(x) && nodes.contains_key(x.0) && nodes[x.0].transform_key == key {
            let x = choose|x: NodeId| #[trigger]
                row.contains(x) && nodes.contains_key(x.0) && nodes[x.0].transform_key == key;
            let q = choose|q: int| 0 <= q < row.len() && row[q] == x;
            if q < less.len() {
                assert(less[q] == x);
                assert(less.contains(x));
                let k = choose|k: int| 0 <= k < a.len() && a[k] == key;
                assert(all[k] == key);
            } else {
                assert(all[a.len() as int] == key);
            }
        }
    }
}

/// A layer moves what it is limited to and nothing else: it is limited where it names
/// nodes, and then to the transforms of those nodes, and of the nodes below them where
/// it says so.
pub proof fn law_layer_keeps_to_its_mask(
    l: LayerShape,
    f: Seq<Tree>,
    nodes: Map<u128, RenderNode>,
    keys: Seq<ClipKey>,
    r: RenderLayer,
    key: u64,
)
    requires
        lowers_layer(l, f, nodes, keys, r),
    ensures
        (r.mask is None) == (l.mask_nodes.len() == 0),
        r.mask is Some ==> r.mask->0@.contains(key) == exists|x: NodeId| #[trigger]
            in_mask(l, f, x) && nodes.contains_key(x.0) && nodes[x.0].transform_key == key,
{
    if l.mask_nodes.len() > 0 {
        let row = masked(l, f);
        lemma_transforms(row, nodes, key);
        assert forall|x: NodeId| #[trigger] row.contains(x) == in_mask(l, f, x) by {
            lemma_descendants(f, l.mask_nodes, x);
        }
        if r.mask->0@.contains(key) {
            let x = choose|x: NodeId| #[trigger]
                row.contains(x) && nodes.contains_key(x.0) && nodes[x.0].transform_key == key;
            assert(in_mask(l, f, x));
        }
        if exists|x: NodeId| #[trigger]
            in_mask(l, f, x) && nodes.contains_key(x.0) && nodes[x.0].transform_key == key {
            let x = choose|x: NodeId| #[trigger]
                in_mask(l, f, x) && nodes.contains_key(x.0) && nodes[x.0].transform_key == key;
            assert(row.contains(x));
        }
    }
}

/// Whether what is driven in the renderer is what a track drives, and the same thing
/// of it.
pub open spec fn drives_same(
    t: TrackTarget,
    a: AnimationTarget,
    r: RenderState,
    reg: RegistryView,
) -> bool {
    match (t, a) {
        (TrackTarget::Transform { node, prop: _ }, AnimationTarget::Transform(key)) => {
            r.nodes@.contains_key(node.0) && key == r.nodes@[node.0].transform_key
        },
        (
            TrackTarget::BuiltinParam { node, param: p },
            AnimationTarget::BuiltinParam { material, param: q },
        ) => {
            &&& r.nodes@.contains_key(node.0)
            &&& r.nodes@[node.0].material_keys@.len() > 0
            &&& material == r.nodes@[node.0].material_keys@[0]
            &&& p == q
        },
        (TrackTarget::Light { node, param: p }, AnimationTarget::Light { light, param: q }) => {
            r.nodes@.contains_key(node.0) && r.nodes@[node.0].light_key == Some(light) && p == q
        },
        (TrackTarget::Camera { node, param: p }, AnimationTarget::Camera { camera, param: q }) => {
            r.nodes@.contains_key(node.0) && r.nodes@[node.0].camera_key == Some(camera) && p == q
        },
        (TrackTarget::Morph { node, index: _ }, AnimationTarget::Morph(key)) => {
            &&& r.nodes@.contains_key(node.0)
            &&& r.nodes@[node.0].model_meshes@.len() > 0
            &&& r.geometry_morphs@.contains_key(r.nodes@[node.0].model_meshes@[0] as u128)
            &&& key == r.geometry_morphs@[r.nodes@[node.0].model_meshes@[0] as u128]
        },
        (TrackTarget::Uniform { material, name }, AnimationTarget::Uniform { material: key, slot }) => {
            &&& reg.shaders.contains_key(material.0)
            &&& ({
                let shader = reg.shaders[material.0];
                let names = r.uniforms@[shader.0 as u128]@;
                &&& r.uniforms@.contains_key(shader.0 as u128)
                &&& names.len() <= usize::MAX ==> slot < names.len() && names[slot as int]@ == name@
                &&& exists|q: int|
                    0 <= q < r.materials@.len() && (#[trigger] r.materials@[q]).key == key
                        && r.materials@[q].shader == Some(shader)
            })
        },
        _ => false,
    }
}

/// Whether what a track drives is there in the renderer.
pub open spec fn is_there(t: TrackTarget, r: RenderState) -> bool {
    match t {
        TrackTarget::Transform { node, prop: _ } => r.nodes@.contains_key(node.0),
        TrackTarget::BuiltinParam { node, param: _ } => r.nodes@.contains_key(node.0)
            && r.nodes@[node.0].material_keys@.len() > 0,
        TrackTarget::Light { node, param: _ } => r.nodes@.contains_key(node.0)
            && r.nodes@[node.0].light_key is Some,
        TrackTarget::Camera { node, param: _ } => r.nodes@.contains_key(node.0)
            && r.nodes@[node.0].camera_key is Some,
        TrackTarget::Morph { node, index: _ } => r.nodes@.contains_key(node.0)
            && r.nodes@[node.0].model_meshes@.len() > 0 && r.geometry_morphs@.contains_key(
            r.nodes@[node.0].model_meshes@[0] as u128,
        ),
        _ => false,
    }
}

/// What a track drives is found in the renderer where the node has it there, and what
/// is found is that: of that node, and the same parameter.
pub proof fn law_target_is_that_of_the_track(
    t: TrackTarget,
    r: RenderState,
    reg: RegistryView,
    f: Seq<Tree>,
    ms: Seq<CustomMaterial>,
)
    ensures
        resolved(t, r, reg, f, ms) matches Resolution::Live(a) ==> drives_same(t, a, r, reg),
        is_there(t, r) ==> resolved(t, r, reg, f, ms) is Live,
        t is TextureTransform ==> !(resolved(t, r, reg, f, ms) is Live),
{
    if let TrackTarget::Uniform { material, name } = t {
        if reg.shaders.contains_key(material.0) {
            let shader = reg.shaders[material.0];
            let names = r.uniforms@[shader.0 as u128]@;
            lemma_first(names, crate::animation_sync::is_name(name@));
            lemma_first(r.materials@, crate::animation_sync::renders_with(shader));
            let i = first(r.materials@, crate::animation_sync::renders_with(shader));
            let slot = first(names, crate::animation_sync::is_name(name@));
            if i < r.materials@.len() {
                assert(r.materials@[i].shader == Some(shader));
            }
            if slot < names.len() {
                assert(names[slot]@ == name@);
            }
        }
    }
}

/// Whether a track is played: alone where some track is, and below the solo root where
/// there is one.
pub open spec fn is_played(
    ts: Seq<TrackShape>,
    j: int,
    root: Option<NodeId>,
    f: Seq<Tree>,
) -> bool {
    &&& (exists|k: int| 0 <= k < ts.len() && (#[trigger] ts[k]).solo) ==> ts[j].solo
    &&& root is Some && ts[j].target.node_of() is Some ==> {
        let n = ts[j].target.node_of()->0;
        n == root->0 || (find(f, root->0) is Some && within(find(f, root->0)->0.children, n))
    }
}

proof fn lemma_channels(ts: Seq<TrackShape>, cx: LowerContext, root: Option<NodeId>, k: nat)
    requires
        k <= ts.len(),
        ts.len() <= usize::MAX,
    ensures
        ({
            let c = channels(ts, cx, root, k);
            &&& forall|i: int|
                0 <= i < c.len() ==> (#[trigger] c[i]).track < k && is_played(
                    ts,
                    c[i].track as int,
                    root,
                    forest(cx.nodes@),
                ) && cx.resolved(ts[c[i].track as int].target) == Resolution::Live(c[i].target)
            &&& forall|i: int, j: int|
                0 <= i < j < c.len() ==> (#[trigger] c[i]).track < (#[trigger] c[j]).track
            &&& forall|j: int|
                0 <= j < k && is_played(ts, j, root, forest(cx.nodes@)) && cx.resolved(
                    (#[trigger] ts[j]).target,
                ) is Live ==> exists|i: int| 0 <= i < c.len() && (#[trigger] c[i]).track == j
        }),
    decreases k,
{
    if k > 0 {
        let m = (k - 1) as nat;
        lemma_channels(ts, cx, root, m);
        let a = channels(ts, cx, root, m);
        let c = channels(ts, cx, root, k);
        let f = forest(cx.nodes@);
        assert(played(ts[m as int], crate::animation_sync::any_solo(ts), root, f) == is_played(
            ts,
            m as int,
            root,
            f,
        ));
        assert forall|j: int|
            0 <= j < k && is_played(ts, j, root, f) && cx.resolved(
                (#[trigger] ts[j]).target,
            ) is Live implies exists|i: int| 0 <= i < c.len() && (#[trigger] c[i]).track == j by {
            if j < m {
                let i = choose|i: int| 0 <= i < a.len() && (#[trigger] a[i]).track == j;
                assert(c[i].track == j);
            } else {
                assert(c[a.len() as int].track == j);
            }
        }
    }
}

/// A clip is given to the renderer as it was authored: under its name, as long, as
/// fast, in its direction and going on as it says. It has a channel for each track
/// that is played and whose target is there, in the order of the tracks, and no other;
/// each drives what its track drives.
pub proof fn law_clip_is_lowered_whole(
    c: ClipShape,
    cx: LowerContext,
    root: Option<NodeId>,
    l: LoweredClip,
)
    requires
        lowers(c, cx, root, l),
        c.tracks.len() <= usize::MAX,
    ensures
        l.name@ == c.name,
        l.duration == c.duration,
        l.speed == c.speed,
        l.direction == c.direction,
        (l.loop_style is None) == (c.loop_style == LoopStyle::Once),
        l.loop_style is Some ==> l.loop_style->0 == c.loop_style,
        forall|i: int|
            0 <= i < l.channels@.len() ==> (#[trigger] l.channels@[i]).track < c.tracks.len()
                && is_played(c.tracks, l.channels@[i].track as int, root, forest(cx.nodes@))
                && drives_same(
                c.tracks[l.channels@[i].track as int].target,
                l.channels@[i].target,
                *cx.render,
                cx.registry@,
            ),
        forall|i: int, j: int|
            0 <= i < j < l.channels@.len() ==> (#[trigger] l.channels@[i]).track < (
            #[trigger] l.channels@[j]).track,
        forall|j: int|
            0 <= j < c.tracks.len() && is_played(c.tracks, j, root, forest(cx.nodes@)) && is_there(
                (#[trigger] c.tracks[j]).target,
                *cx.render,
            ) ==> exists|i: int|
                0 <= i < l.channels@.len() && (#[trigger] l.channels@[i]).track == j,
{
    lemma_channels(c.tracks, cx, root, c.tracks.len());
    assert forall|i: int| 0 <= i < l.channels@.len() implies drives_same(
        c.tracks[(#[trigger] l.channels@[i]).track as int].target,
        l.channels@[i].target,
        *cx.render,
        cx.registry@,
    ) by {
        law_target_is_that_of_the_track(
            c.tracks[l.channels@[i].track as int].target,
            *cx.render,
            cx.registry@,
            forest(cx.nodes@),
            cx.materials@,
        );
    }
    assert forall|j: int|
        0 <= j < c.tracks.len() && is_played(c.tracks, j, root, forest(cx.nodes@)) && is_there(
            (#[trigger] c.tracks[j]).target,
            *cx.render,
        ) implies exists|i: int|
        0 <= i < l.channels@.len() && (#[trigger] l.channels@[i]).track == j by {
        law_target_is_that_of_the_track(
            c.tracks[j].target,
            *cx.render,
            cx.registry@,
            forest(cx.nodes@),
            cx.materials@,
        );
        assert(cx.resolved(c.tracks[j].target) is Live);
    }
}

proof fn lemma_with_strips(row: Seq<AssetId>, strips: Seq<StripDoc>, id: AssetId)
    ensures
        with_strips(row, strips).contains(id) == (row.contains(id) || exists|s: int|
            0 <= s < strips.len() && (#[trigger] strips[s]).clip == id),
    decreases strips.len(),
{
    if strips.len() > 0 {
        let less = strips.drop_last();
        lemma_with_strips(row, less, id);
        let a = with_strips(row, less);
        let last = strips.last().clip;
        assert(strips[strips.len() - 1].clip == last);
        lemma_with_id(a, last, id);
        if exists|s: int| 0 <= s < less.len() && (#[trigger] less[s]).clip == id {
            let s = choose|s: int| 0 <= s < less.len() && (#[trigger] less[s]).clip == id;
            assert(strips[s].clip == id);
        }
        if exists|s: int| 0 <= s < strips.len() && (#[trigger] strips[s]).clip == id {
            let s = choose|s: int| 0 <= s < strips.len() && (#[trigger] strips[s]).clip == id;
            if s < less.len() {
                assert(less[s].clip == id);
            }
        }
    }
}

proof fn lemma_with_id(row: Seq<AssetId>, last: AssetId, id: AssetId)
    ensures
        with_id(row, last).contains(id) == (row.contains(id) || id == last),
{
    let all = with_id(row, last);
    if row.contains(id) {
        let k = choose|k: int| 0 <= k < row.len() && row[k] == id;
        assert(all[k] == id);
    }
    if !row.contains(last) {
        assert(all[row.len() as int] == last);
        if all.contains(id) {
            let k = choose|k: int| 0 <= k < all.len() && all[k] == id;
            if k < row.len() {
                assert(row[k] == id);
            }
        }
    }
}

proof fn lemma_with_layers(row: Seq<AssetId>, layers: Seq<LayerShape>, id: AssetId)
    ensures
        with_layers(row, layers).contains(id) == (row.contains(id) || exists|l: int, s: int|
            0 <= l < layers.len() && 0 <= s < layers[l].strips.len() && (
            #[trigger] layers[l].strips[s]).clip == id),
    decreases layers.len(),
{
    if layers.len() > 0 {
        let less = layers.drop_last();
        let n = layers.len() - 1;
        lemma_with_layers(row, less, id);
        lemma_with_strips(with_layers(row, less), layers.last().strips, id);
        if exists|l: int, s: int|
            0 <= l < less.len() && 0 <= s < less[l].strips.len() && (
            #[trigger] less[l].strips[s]).clip == id {
            let (l, s) = choose|l: int, s: int|
                0 <= l < less.len() && 0 <= s < less[l].strips.len() && (
                #[trigger] less[l].strips[s]).clip == id;
            assert(layers[l].strips[s].clip == id);
        }
        if exists|s: int|
            0 <= s < layers.last().strips.len() && (#[trigger] layers.last().strips[s]).clip == id {
            let s = choose|s: int|
                0 <= s < layers.last().strips.len() && (#[trigger] layers.last().strips[s]).clip
                    == id;
            assert(layers[n].strips[s].clip == id);
        }
        if exists|l: int, s: int|
            0 <= l < layers.len() && 0 <= s < layers[l].strips.len() && (
            #[trigger] layers[l].strips[s]).clip == id {
            let (l, s) = choose|l: int, s: int|
                0 <= l < layers.len() && 0 <= s < layers[l].strips.len() && (
                #[trigger] layers[l].strips[s]).clip == id;
            if l < less.len() {
                assert(less[l].strips[s].clip == id);
            } else {
                assert(layers.last().strips[s].clip == id);
            }
        }
    }
}

/// The clips that are lowered are those that play: the current one and those of the
/// strips, as far as they exist.
pub proof fn law_clips_that_play_are_lowered(
    current: Option<AssetId>,
    layers: Seq<LayerShape>,
    clips: Seq<ClipShape>,
    id: AssetId,
)
    ensures
        existing(needed_clips(current, layers), clips).contains(id) == ((current == Some(id)
            || exists|l: int, s: int|
            0 <= l < layers.len() && 0 <= s < layers[l].strips.len() && (
            #[trigger] layers[l].strips[s]).clip == id) && exists|c: int|
            0 <= c < clips.len() && (#[trigger] clips[c]).id == id),
{
    let row: Seq<AssetId> = match current {
        Some(id) => seq![id],
        None => seq![],
    };
    if current == Some(id) {
        assert(row[0] == id);
    }
    lemma_with_layers(row, layers, id);
    lemma_existing(needed_clips(current, layers), clips, id);
}

proof fn lemma_existing(row: Seq<AssetId>, clips: Seq<ClipShape>, id: AssetId)
    ensures
        existing(row, clips).contains(id) == (row.contains(id) && exists|c: int|
            0 <= c < clips.len() && (#[trigger] clips[c]).id == id),
    decreases row.len(),
{
    lemma_first(clips, is_clip(id));
    let at = clip_at(clips, id);
    if at < clips.len() {
        assert(clips[at].id == id);
    } else {
        assert forall|c: int| 0 <= c < clips.len() implies (#[trigger] clips[c]).id != id by {
            assert(!is_clip(id)(clips[c]));
        }
    }
    if row.len() > 0 {
        let less = row.drop_last();
        lemma_existing(less, clips, id);
        let a = existing(less, clips);
        let all = existing(row, clips);
        assert(row[row.len() - 1] == row.last());
        if all.contains(id) {
            let k = choose|k: int| 0 <= k < all.len() && all[k] == id;
            if k < a.len() {
                assert(a[k] == id);
                let q = choose|q: int| 0 <= q < less.len() && less[q] == id;
                assert(row[q] == id);
            }
        }
        if row.contains(id) && at < clips.len() {
            let q = choose|q: int| 0 <= q < row.len() && row[q] == id;
            if q < less.len() {
                assert(less[q] == id);
                let k = choose|k: int| 0 <= k < a.len() && a[k] == id;
                assert(all[k] == id);
            } else {
                assert(all[a.len() as int] == id);
            }
        }
    }
}

/// Whether a pose is how the node of a track stands in the scene, for the transform
/// that the renderer has of it.
pub open spec fn rests(
    t: TrackTarget,
    p: RestPose,
    nodes: Map<u128, RenderNode>,
    f: Seq<Tree>,
) -> bool {
    t matches TrackTarget::Transform { node, prop: _ } && {
        &&& nodes.contains_key(node.0)
        &&& find(f, node) is Some
        &&& p.transform == nodes[node.0].transform_key
        &&& p.pose == find(f, node)->0.data.transform
    }
}

/// Every track that drives a placement starts from how its node stands in the scene,
/// and no other pose is set.
pub proof fn law_rests_are_those_of_the_scene(
    ts: Seq<TrackShape>,
    nodes: Map<u128, RenderNode>,
    f: Seq<Tree>,
)
    ensures
        forall|i: int|
            0 <= i < track_rests(ts, nodes, f).len() ==> exists|j: int|
                0 <= j < ts.len() && rests(
                    (#[trigger] ts[j]).target,
                    #[trigger] track_rests(ts, nodes, f)[i],
                    nodes,
                    f,
                ),
        forall|j: int|
            0 <= j < ts.len() && ((#[trigger] ts[j]).target matches TrackTarget::Transform {
                node,
                prop: _,
            } && nodes.contains_key(node.0) && find(f, node) is Some) ==> exists|i: int|
                0 <= i < track_rests(ts, nodes, f).len() && rests(
                    ts[j].target,
                    #[trigger] track_rests(ts, nodes, f)[i],
                    nodes,
                    f,
                ),
    decreases ts.len(),
{
    let r = track_rests(ts, nodes, f);
    if ts.len() > 0 {
        let less = ts.drop_last();
        law_rests_are_those_of_the_scene(less, nodes, f);
        let a = track_rests(less, nodes, f);
        assert forall|i: int| 0 <= i < r.len() implies exists|j: int|
            0 <= j < ts.len() && rests((#[trigger] ts[j]).target, #[trigger] r[i], nodes, f) by {
            if i < a.len() {
                assert(r[i] == a[i]);
                let j = choose|j: int|
                    0 <= j < less.len() && rests((#[trigger] less[j]).target, a[i], nodes, f);
                assert(ts[j] == less[j]);
            } else {
                assert(rests(ts[ts.len() - 1].target, r[i], nodes, f));
            }
        }
        assert forall|j: int|
            0 <= j < ts.len() && ((#[trigger] ts[j]).target matches TrackTarget::Transform {
                node,
                prop: _,
            } && nodes.contains_key(node.0) && find(f, node) is Some) implies exists|i: int|
            0 <= i < r.len() && rests(ts[j].target, #[trigger] r[i], nodes, f) by {
            if j < less.len() {
                assert(less[j] == ts[j]);
                let i = choose|i: int|
                    0 <= i < a.len() && rests(less[j].target, #[trigger] a[i], nodes, f);
                assert(r[i] == a[i]);
            } else {
                assert(rests(ts[j].target, r[a.len() as int], nodes, f));
            }
        }
    }
}

} // verus!

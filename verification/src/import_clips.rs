//! The clips of an imported model: each animation of the file becomes a clip
//! whose tracks drive the nodes that the file's nodes became.
use crate::clips::{
    clip_shapes, empty_track, flat_key, fresh_clip, sampler_to_interp, track_shapes, Clip, ClipShape,
    Keyframe, SamplerKind, Track, TrackShape, TrackTarget, TrackValue, TransformProp,
};
use crate::ids::{AssetId, NodeId};
use crate::import_scene::{after, id_after};
use crate::list::List;
use crate::table::Table;
use crate::text::{chars_of, decimal, decimal_text, joined3, text_of};
use crate::timeline::{Timeline, TimelineView};
use crate::values::{Vec3, Vec4, F32, F64};
use vstd::prelude::*;

verus! {

/// How far the ids of imported clips are from that of the first node.
pub const CLIP_PLACE: u128 = 0x0300_0000_0000_0000_0000_0000_0000_0000;

/// What a key of the file sets of a node's placement.
#[derive(Clone, Copy, PartialEq, Eq, Structural, Debug)]
pub struct PartialTransform {
    pub translation: Option<Vec3>,
    pub rotation: Option<Vec4>,
    pub scale: Option<Vec3>,
}

/// A key of the file.
pub enum AnimationData {
    Transform(PartialTransform),
    Weights(List<F32>),
}

/// What a channel of the file drives.
#[derive(Clone, Copy, PartialEq, Eq, Structural, Debug)]
pub enum ExtractedProperty {
    Translation,
    Rotation,
    Scale,
    MorphWeights,
}

/// A channel of an animation of the file.
pub struct ExtractedChannel {
    pub node_index: u32,
    pub property: ExtractedProperty,
    pub sampler: SamplerKind,
    pub times: List<F64>,
    pub values: Vec<AnimationData>,
    /// The tangents of a cubic channel.
    pub in_tangents: Vec<AnimationData>,
    pub out_tangents: Vec<AnimationData>,
    pub duration: F64,
}

/// An animation of the file.
pub struct ExtractedAnimation {
    pub name: Option<String>,
    pub channels: Vec<ExtractedChannel>,
}

/// The value that a key sets of a property. What it does not set is as in a node
/// that was never moved.
pub open spec fn extracted(p: ExtractedProperty, d: AnimationData) -> TrackValue {
    let t = match d {
        AnimationData::Transform(t) => t,
        AnimationData::Weights(_) => PartialTransform {
            translation: None,
            rotation: None,
            scale: None,
        },
    };
    match p {
        ExtractedProperty::Translation => TrackValue::Vec3(
            match t.translation {
                Some(v) => v,
                None => Vec3::zero(),
            },
        ),
        ExtractedProperty::Rotation => TrackValue::Quat(
            match t.rotation {
                Some(q) => q,
                None => Vec4::no_rotation(),
            },
        ),
        ExtractedProperty::Scale => TrackValue::Vec3(
            match t.scale {
                Some(v) => v,
                None => Vec3::one(),
            },
        ),
        ExtractedProperty::MorphWeights => TrackValue::Scalar(
            match d {
                AnimationData::Weights(w) => if w@.len() > 0 {
                    w@[0]
                } else {
                    F32::zero()
                },
                AnimationData::Transform(_) => F32::zero(),
            },
        ),
    }
}

fn extract(p: ExtractedProperty, d: &AnimationData) -> (r: TrackValue)
    ensures
        r == extracted(p, *d),
{
    let t = match d {
        AnimationData::Transform(t) => *t,
        AnimationData::Weights(_) => PartialTransform {
            translation: None,
            rotation: None,
            scale: None,
        },
    };
    match p {
        ExtractedProperty::Translation => TrackValue::Vec3(
            match t.translation {
                Some(v) => v,
                None => Vec3::zero(),
            },
        ),
        ExtractedProperty::Rotation => TrackValue::Quat(
            match t.rotation {
                Some(q) => q,
                None => Vec4::no_rotation(),
            },
        ),
        ExtractedProperty::Scale => TrackValue::Vec3(
            match t.scale {
                Some(v) => v,
                None => Vec3::one(),
            },
        ),
        ExtractedProperty::MorphWeights => TrackValue::Scalar(
            match d {
                AnimationData::Weights(w) => if w.len() > 0 {
                    *w.at(0)
                } else {
                    F32::zero()
                },
                AnimationData::Transform(_) => F32::zero(),
            },
        ),
    }
}

/// The value at `i` of a row, or what stands for it where the row ends before.
pub open spec fn value_at(
    p: ExtractedProperty,
    row: Seq<AnimationData>,
    i: int,
    otherwise: TrackValue,
) -> TrackValue {
    if i < row.len() {
        extracted(p, row[i])
    } else {
        otherwise
    }
}

fn take_value(p: ExtractedProperty, row: &Vec<AnimationData>, i: usize, otherwise: TrackValue) -> (r:
    TrackValue)
    ensures
        r == value_at(p, row@, i as int, otherwise),
{
    if i < row.len() {
        extract(p, &row[i])
    } else {
        otherwise
    }
}

/// The key of a channel at one of its times.
pub open spec fn key_of(c: ExtractedChannel, i: int) -> Keyframe {
    let value = value_at(c.property, c.values@, i, TrackValue::Scalar(F32::zero()));
    let flat = flat_key(value, sampler_to_interp(c.sampler));
    if c.sampler == SamplerKind::Cubic {
        Keyframe {
            in_tangent: value_at(c.property, c.in_tangents@, i, value.zeroed()),
            out_tangent: value_at(c.property, c.out_tangents@, i, value.zeroed()),
            ..flat
        }
    } else {
        flat
    }
}

fn make_key(c: &ExtractedChannel, i: usize) -> (k: Keyframe)
    ensures
        k == key_of(*c, i as int),
{
    let value = take_value(c.property, &c.values, i, TrackValue::Scalar(F32::zero()));
    let z = value.zeroed_like();
    let interp = sampler_to_interp(c.sampler);
    if c.sampler == SamplerKind::Cubic {
        Keyframe {
            value,
            interp,
            in_tangent: take_value(c.property, &c.in_tangents, i, z),
            out_tangent: take_value(c.property, &c.out_tangents, i, z),
        }
    } else {
        Keyframe { value, interp, in_tangent: z, out_tangent: z }
    }
}

/// What a channel drives, on the node that it belongs to. Of morph weights, the
/// first.
pub open spec fn target_of(p: ExtractedProperty, node: NodeId) -> TrackTarget {
    match p {
        ExtractedProperty::Translation => TrackTarget::Transform {
            node,
            prop: TransformProp::Translation,
        },
        ExtractedProperty::Rotation => TrackTarget::Transform {
            node,
            prop: TransformProp::Rotation,
        },
        ExtractedProperty::Scale => TrackTarget::Transform { node, prop: TransformProp::Scale },
        ExtractedProperty::MorphWeights => TrackTarget::Morph { node, index: 0 },
    }
}

fn make_target(p: ExtractedProperty, node: NodeId) -> (r: TrackTarget)
    ensures
        r == target_of(p, node),
{
    match p {
        ExtractedProperty::Translation => TrackTarget::Transform {
            node,
            prop: TransformProp::Translation,
        },
        ExtractedProperty::Rotation => TrackTarget::Transform {
            node,
            prop: TransformProp::Rotation,
        },
        ExtractedProperty::Scale => TrackTarget::Transform { node, prop: TransformProp::Scale },
        ExtractedProperty::MorphWeights => TrackTarget::Morph { node, index: 0 },
    }
}

/// The track that a channel becomes: a key at each of its times.
pub open spec fn track_of(c: ExtractedChannel, node: NodeId) -> TrackShape {
    TrackShape {
        sampler: c.sampler,
        times: c.times@,
        keys: Seq::new(c.times@.len(), |i: int| key_of(c, i)),
        ..empty_track(target_of(c.property, node))
    }
}

fn make_track(c: &ExtractedChannel, node: NodeId) -> (t: Track)
    ensures
        t.shape() == track_of(*c, node),
{
    let mut keys: Vec<Keyframe> = Vec::new();
    let mut i: usize = 0;
    while i < c.times.len()
        invariant
            i <= c.times@.len(),
            keys@ == Seq::new(i as nat, |j: int| key_of(*c, j)),
        decreases c.times@.len() - i,
    {
        keys.push(make_key(c, i));
        i += 1;
        assert(keys@ =~= Seq::new(i as nat, |j: int| key_of(*c, j)));
    }
    let mut t = Track::new(make_target(c.property, node));
    t.sampler = c.sampler;
    t.times = c.times.clone();
    t.keys = List::from_vec(keys);
    t
}

/// The tracks of an animation: one for each channel of a node that was brought
/// in. The other channels are passed over.
pub open spec fn bound_tracks(cs: Seq<ExtractedChannel>, nodes: Map<u128, NodeId>) -> Seq<TrackShape>
    decreases cs.len(),
{
    if cs.len() == 0 {
        seq![]
    } else {
        let c = cs.last();
        let front = bound_tracks(cs.drop_last(), nodes);
        if nodes.contains_key(c.node_index as u128) {
            front.push(track_of(c, nodes[c.node_index as u128]))
        } else {
            front
        }
    }
}

/// How long the longest of those channels is, or zero.
pub open spec fn longest(cs: Seq<ExtractedChannel>, nodes: Map<u128, NodeId>) -> F64
    decreases cs.len(),
{
    if cs.len() == 0 {
        F64::zero()
    } else {
        let c = cs.last();
        let front = longest(cs.drop_last(), nodes);
        if nodes.contains_key(c.node_index as u128) && front.before(c.duration) {
            c.duration
        } else {
            front
        }
    }
}

/// A name without an ending, or the name itself where it does not end so.
pub open spec fn stripped(s: Seq<char>, ending: Seq<char>) -> Option<Seq<char>> {
    let n = s.len() - ending.len();
    if n >= 0 && s.skip(n) == ending {
        Some(s.take(n))
    } else {
        None
    }
}

/// The name of a model without the ending of its file.
pub open spec fn model_stem(name: Seq<char>) -> Seq<char> {
    match stripped(name, ".glb"@) {
        Some(s) => s,
        None => match stripped(name, ".gltf"@) {
            Some(s) => s,
            None => name,
        },
    }
}

fn strip(s: &str, ending: &str) -> (r: Option<String>)
    ensures
        match r {
            Some(t) => stripped(s@, ending@) == Some(t@),
            None => stripped(s@, ending@) is None,
        },
{
    let a = chars_of(s);
    let b = chars_of(ending);
    if a.len() < b.len() {
        return None;
    }
    let whole: usize = a.len();
    let n: usize = a.len() - b.len();
    let mut i: usize = 0;
    while i < b.len()
        invariant
            i <= b@.len(),
            n + b@.len() == a@.len(),
            whole == a@.len(),
            a@ == s@,
            b@ == ending@,
            forall|j: int| 0 <= j < i ==> a@[n + j] == #[trigger] b@[j],
        decreases b@.len() - i,
    {
        assert(n + i < whole);
        if a[n + i] != b[i] {
            assert(s@.skip(n as int)[i as int] != ending@[i as int]);
            return None;
        }
        i += 1;
    }
    assert(s@.skip(n as int) =~= ending@);
    assert(a@.subrange(0, n as int) =~= s@.take(n as int));
    Some(text_of(&a, 0, n))
}

fn stem_of_model(name: &str) -> (r: String)
    ensures
        r@ == model_stem(name@),
{
    match strip(name, ".glb") {
        Some(s) => s,
        None => match strip(name, ".gltf") {
            Some(s) => s,
            None => name.to_owned(),
        },
    }
}

/// What a clip is called: by its own name, else by the model's, with a number
/// where the file has several animations.
pub open spec fn clip_title(name: Option<String>, model: Seq<char>, i: int, count: nat) -> Seq<
    char,
> {
    if name is Some && name->0@.len() > 0 {
        name->0@
    } else if count > 1 {
        model_stem(model) + " "@ + decimal((i + 1) as nat)
    } else {
        model_stem(model)
    }
}

fn title_clip(name: &Option<String>, model: &str, i: usize, count: usize) -> (r: String)
    requires
        i < count,
    ensures
        r@ == clip_title(*name, model@, i as int, count as nat),
{
    if let Some(n) = name {
        if !is_blank(n) {
            return n.clone();
        }
    }
    let stem = stem_of_model(model);
    if count > 1 {
        joined3(&stem, " ", &decimal_text(i as u64 + 1))
    } else {
        stem
    }
}

fn is_blank(s: &str) -> (r: bool)
    ensures
        r == (s@.len() == 0),
{
    chars_of(s).len() == 0
}

/// The color of the clip at a place of the library.
pub open spec fn clip_color(n: nat) -> Seq<char> {
    let k = n % 6;
    if k == 0 {
        "#7aa2f7"@
    } else if k == 1 {
        "#9ece6a"@
    } else if k == 2 {
        "#e0af68"@
    } else if k == 3 {
        "#f7768e"@
    } else if k == 4 {
        "#bb9af7"@
    } else {
        "#7dcfff"@
    }
}

fn color_clip(n: usize) -> (r: String)
    ensures
        r@ == clip_color(n as nat),
{
    let k: usize = n % 6;
    let s: &str = if k == 0 {
        "#7aa2f7"
    } else if k == 1 {
        "#9ece6a"
    } else if k == 2 {
        "#e0af68"
    } else if k == 3 {
        "#f7768e"
    } else if k == 4 {
        "#bb9af7"
    } else {
        "#7dcfff"
    };
    s.to_owned()
}

/// The id of an imported clip.
pub open spec fn clip_id(base: u128, i: nat) -> AssetId {
    AssetId(after(base, CLIP_PLACE as nat + i))
}

/// The clip that an animation becomes, as the library's clip `place`. It is as
/// long as its longest channel; without one, as a new clip.
pub open spec fn clip_of(
    anims: Seq<ExtractedAnimation>,
    i: int,
    nodes: Map<u128, NodeId>,
    model: Seq<char>,
    base: u128,
    place: nat,
) -> ClipShape {
    let a = anims[i];
    let long = longest(a.channels@, nodes);
    let new = fresh_clip(clip_id(base, i as nat), clip_title(a.name, model, i, anims.len()));
    ClipShape {
        color: clip_color(place),
        duration: if F64::zero().before(long) {
            long
        } else {
            new.duration
        },
        tracks: bound_tracks(a.channels@, nodes),
        ..new
    }
}

fn make_clip(
    anims: &Vec<ExtractedAnimation>,
    i: usize,
    nodes: &Table<NodeId>,
    model: &str,
    base: u128,
    place: usize,
) -> (c: Clip)
    requires
        i < anims@.len(),
    ensures
        c.shape() == clip_of(anims@, i as int, nodes@, model@, base, place as nat),
{
    let a = &anims[i];
    let mut c = Clip::new(
        AssetId(id_after(id_after(base, CLIP_PLACE), i as u128)),
        title_clip(&a.name, model, i, anims.len()),
    );
    proof {
        crate::import_scene::lemma_after(base, CLIP_PLACE as nat, i as nat);
    }
    let ghost new = c.shape();
    let mut tracks: Vec<Track> = Vec::new();
    let mut long: F64 = F64::zero();
    let mut k: usize = 0;
    assert(track_shapes(tracks@) =~= bound_tracks(a.channels@.take(0), nodes@));
    while k < a.channels.len()
        invariant
            k <= a.channels@.len(),
            track_shapes(tracks@) == bound_tracks(a.channels@.take(k as int), nodes@),
            long == longest(a.channels@.take(k as int), nodes@),
        decreases a.channels@.len() - k,
    {
        let ch = &a.channels[k];
        let ghost was = tracks@;
        assert(a.channels@.take(k + 1).drop_last() =~= a.channels@.take(k as int));
        if let Some(node) = nodes.get(ch.node_index as u128) {
            if long.lt(ch.duration) {
                long = ch.duration;
            }
            tracks.push(make_track(ch, *node));
            assert(track_shapes(tracks@) =~= track_shapes(was).push(track_of(*ch, *node)));
        }
        k += 1;
    }
    assert(a.channels@.take(k as int) =~= a.channels@);
    c.color = color_clip(place);
    if F64::zero().lt(long) {
        c.duration = long;
    }
    c.tracks = List::from_vec(tracks);
    assert(c.shape() =~= clip_of(anims@, i as int, nodes@, model@, base, place as nat));
    c
}

/// The clips that the animations become, when the library has `place` clips.
pub open spec fn imported_clips(
    anims: Seq<ExtractedAnimation>,
    nodes: Map<u128, NodeId>,
    model: Seq<char>,
    base: u128,
    place: nat,
) -> Seq<ClipShape> {
    Seq::new(
        anims.len(),
        |i: int| clip_of(anims, i, nodes, model, base, (place + i) as nat),
    )
}

/// The timeline with the animations of a model as clips. Where no clip was
/// current, the first of them is.
pub open spec fn animations_imported(
    v: TimelineView,
    anims: Seq<ExtractedAnimation>,
    nodes: Map<u128, NodeId>,
    model: Seq<char>,
    base: u128,
) -> TimelineView {
    TimelineView {
        clips: v.clips + imported_clips(anims, nodes, model, base, v.clips.len()),
        current_clip: if v.current_clip is None && anims.len() > 0 {
            Some(clip_id(base, 0))
        } else {
            v.current_clip
        },
        ..v
    }
}

/// Adds the animations of a model to the clips, and says how many they are.
/// `nodes` tells which node each node of the file became.
pub fn import_animations(
    timeline: &mut Timeline,
    anims: &Vec<ExtractedAnimation>,
    nodes: &Table<NodeId>,
    model: &str,
    base: u128,
) -> (r: usize)
    ensures
        final(timeline)@ == animations_imported(old(timeline)@, anims@, nodes@, model@, base),
        r == anims@.len(),
{
    let ghost v = timeline@;
    let mut i: usize = 0;
    assert(timeline@.clips =~= v.clips + imported_clips(
        anims@,
        nodes@,
        model@,
        base,
        v.clips.len(),
    ).take(0));
    while i < anims.len()
        invariant
            i <= anims@.len(),
            timeline@ == (TimelineView {
                clips: v.clips + imported_clips(
                    anims@,
                    nodes@,
                    model@,
                    base,
                    v.clips.len(),
                ).take(i as int),
                current_clip: if v.current_clip is None && i > 0 {
                    Some(clip_id(base, 0))
                } else {
                    v.current_clip
                },
                ..v
            }),
        decreases anims@.len() - i,
    {
        let ghost was = timeline.clips@;
        let ghost all = imported_clips(anims@, nodes@, model@, base, v.clips.len());
        assert(all.take(i as int).len() == i);
        assert(timeline@.clips.len() == was.len());
        let c = make_clip(anims, i, nodes, model, base, timeline.clips.len());
        let id = c.id;
        assert(c.shape() == all[i as int]);
        timeline.clips.push(c);
        assert(clip_shapes(timeline.clips@) =~= clip_shapes(was).push(all[i as int]));
        assert(v.clips + all.take(i + 1) =~= (v.clips + all.take(i as int)).push(all[i as int]));
        if timeline.current_clip.is_none() {
            timeline.current_clip = Some(id);
        }
        i += 1;
        assert(timeline@ =~= (TimelineView {
            clips: v.clips + all.take(i as int),
            current_clip: if v.current_clip is None && i > 0 {
                Some(clip_id(base, 0))
            } else {
                v.current_clip
            },
            ..v
        }));
    }
    proof {
        let all = imported_clips(anims@, nodes@, model@, base, v.clips.len());
        assert(all.take(i as int) =~= all);
    }
    anims.len()
}

/// No track of an imported clip drives a node outside the model: each is bound
/// to a node that a node of the file became.
pub proof fn law_imported_tracks_are_bound(cs: Seq<ExtractedChannel>, nodes: Map<u128, NodeId>)
    ensures
        forall|i: int|
            0 <= i < bound_tracks(cs, nodes).len() ==> ({
                let n = (#[trigger] bound_tracks(cs, nodes)[i]).target.node_of();
                n is Some && nodes.values().contains(n->0)
            }),
    decreases cs.len(),
{
    if cs.len() > 0 {
        law_imported_tracks_are_bound(cs.drop_last(), nodes);
        let c = cs.last();
        let k = c.node_index as u128;
        if nodes.contains_key(k) {
            assert(nodes.dom().contains(k));
            assert(nodes.values().contains(nodes[k]));
        }
    }
}

/// An imported track has as many keys as times.
pub proof fn law_imported_keys_are_paired(c: ExtractedChannel, node: NodeId)
    ensures
        crate::timeline::paired(track_of(c, node)),
{
}

} // verus!

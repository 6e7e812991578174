//! Animation as it is authored: clips of tracks of keyframes, and the mixer
//! that layers strips of clips.
use crate::find::{first, lemma_first_is};
use crate::ids::{AssetId, NodeId};
use crate::list::{List, Same};
use crate::node::LightParamKind;
use crate::palette::{BuiltinParamKind, BuiltinTextureSlot};
use crate::values::{Vec2, Vec3, Vec4, F32, F64};
use vstd::prelude::*;

verus! {

#[derive(Clone, Copy, PartialEq, Eq, Structural, Debug)]
pub enum TransformProp {
    Translation,
    Rotation,
    Scale,
}

#[derive(Clone, Copy, PartialEq, Eq, Structural, Debug)]
pub enum CameraParamKind {
    FovY,
    Near,
    Far,
    Aperture,
    FocusDistance,
}

#[derive(Clone, Copy, PartialEq, Eq, Structural, Debug)]
pub enum TextureTransformProp {
    Offset,
    Scale,
    Rotation,
}

/// What a track drives.
#[allow(inconsistent_fields)]
pub enum TrackTarget {
    Transform { node: NodeId, prop: TransformProp },
    Morph { node: NodeId, index: usize },
    Uniform { material: AssetId, name: String },
    BuiltinParam { node: NodeId, param: BuiltinParamKind },
    Light { node: NodeId, param: LightParamKind },
    Camera { node: NodeId, param: CameraParamKind },
    TextureTransform { node: NodeId, slot: BuiltinTextureSlot, prop: TextureTransformProp },
}

impl Same for TrackTarget {
    fn same(&self) -> (res: Self) {
        match self {
            TrackTarget::Transform { node, prop } => TrackTarget::Transform {
                node: *node,
                prop: *prop,
            },
            TrackTarget::Morph { node, index } => TrackTarget::Morph {
                node: *node,
                index: *index,
            },
            TrackTarget::Uniform { material, name } => TrackTarget::Uniform {
                material: *material,
                name: name.clone(),
            },
            TrackTarget::BuiltinParam { node, param } => TrackTarget::BuiltinParam {
                node: *node,
                param: *param,
            },
            TrackTarget::Light { node, param } => TrackTarget::Light {
                node: *node,
                param: *param,
            },
            TrackTarget::Camera { node, param } => TrackTarget::Camera {
                node: *node,
                param: *param,
            },
            TrackTarget::TextureTransform { node, slot, prop } => TrackTarget::TextureTransform {
                node: *node,
                slot: *slot,
                prop: *prop,
            },
        }
    }
}

impl TrackTarget {
    /// The node that the track drives; a uniform belongs to none.
    pub open spec fn node_of(self) -> Option<NodeId> {
        match self {
            TrackTarget::Transform { node, .. } => Some(node),
            TrackTarget::Morph { node, .. } => Some(node),
            TrackTarget::Uniform { .. } => None,
            TrackTarget::BuiltinParam { node, .. } => Some(node),
            TrackTarget::Light { node, .. } => Some(node),
            TrackTarget::Camera { node, .. } => Some(node),
            TrackTarget::TextureTransform { node, .. } => Some(node),
        }
    }

    /// The target on another node.
    pub open spec fn onto(self, to: NodeId) -> TrackTarget {
        match self {
            TrackTarget::Transform { prop, .. } => TrackTarget::Transform { node: to, prop },
            TrackTarget::Morph { index, .. } => TrackTarget::Morph { node: to, index },
            TrackTarget::Uniform { material, name } => TrackTarget::Uniform { material, name },
            TrackTarget::BuiltinParam { param, .. } => TrackTarget::BuiltinParam {
                node: to,
                param,
            },
            TrackTarget::Light { param, .. } => TrackTarget::Light { node: to, param },
            TrackTarget::Camera { param, .. } => TrackTarget::Camera { node: to, param },
            TrackTarget::TextureTransform { slot, prop, .. } => TrackTarget::TextureTransform {
                node: to,
                slot,
                prop,
            },
        }
    }

    /// The node that the track drives.
    pub fn target_node(&self) -> (r: Option<NodeId>)
        ensures
            r == self.node_of(),
    {
        match self {
            TrackTarget::Transform { node, .. } => Some(*node),
            TrackTarget::Morph { node, .. } => Some(*node),
            TrackTarget::Uniform { .. } => None,
            TrackTarget::BuiltinParam { node, .. } => Some(*node),
            TrackTarget::Light { node, .. } => Some(*node),
            TrackTarget::Camera { node, .. } => Some(*node),
            TrackTarget::TextureTransform { node, .. } => Some(*node),
        }
    }

    /// The target on another node.
    pub fn retarget(&self, to: NodeId) -> (r: TrackTarget)
        ensures
            r == self.onto(to),
    {
        match self {
            TrackTarget::Transform { prop, .. } => TrackTarget::Transform { node: to, prop: *prop },
            TrackTarget::Morph { index, .. } => TrackTarget::Morph { node: to, index: *index },
            TrackTarget::Uniform { material, name } => TrackTarget::Uniform {
                material: *material,
                name: name.clone(),
            },
            TrackTarget::BuiltinParam { param, .. } => TrackTarget::BuiltinParam {
                node: to,
                param: *param,
            },
            TrackTarget::Light { param, .. } => TrackTarget::Light { node: to, param: *param },
            TrackTarget::Camera { param, .. } => TrackTarget::Camera { node: to, param: *param },
            TrackTarget::TextureTransform { slot, prop, .. } => TrackTarget::TextureTransform {
                node: to,
                slot: *slot,
                prop: *prop,
            },
        }
    }
}

/// A value of a key.
#[derive(Clone, Copy, PartialEq, Eq, Structural, Debug)]
pub enum TrackValue {
    Scalar(F32),
    Vec2(Vec2),
    Vec3(Vec3),
    Vec4(Vec4),
    Quat(Vec4),
}

impl TrackValue {
    /// The zero of the same shape.
    pub open spec fn zeroed(self) -> TrackValue {
        let z = F32::zero();
        match self {
            TrackValue::Scalar(_) => TrackValue::Scalar(z),
            TrackValue::Vec2(_) => TrackValue::Vec2(Vec2 { x: z, y: z }),
            TrackValue::Vec3(_) => TrackValue::Vec3(Vec3::zero()),
            TrackValue::Vec4(_) => TrackValue::Vec4(Vec4 { x: z, y: z, z, w: z }),
            TrackValue::Quat(_) => TrackValue::Quat(Vec4 { x: z, y: z, z, w: z }),
        }
    }

    /// The zero of the same shape.
    pub fn zeroed_like(self) -> (r: TrackValue)
        ensures
            r == self.zeroed(),
    {
        let z = F32::zero();
        match self {
            TrackValue::Scalar(_) => TrackValue::Scalar(z),
            TrackValue::Vec2(_) => TrackValue::Vec2(Vec2 { x: z, y: z }),
            TrackValue::Vec3(_) => TrackValue::Vec3(Vec3::zero()),
            TrackValue::Vec4(_) => TrackValue::Vec4(Vec4 { x: z, y: z, z, w: z }),
            TrackValue::Quat(_) => TrackValue::Quat(Vec4 { x: z, y: z, z, w: z }),
        }
    }
}

impl Same for TrackValue {
    fn same(&self) -> (res: Self) {
        *self
    }
}

#[derive(Clone, Copy, PartialEq, Eq, Structural, Debug)]
pub enum Interp {
    Step,
    Linear,
    Cubic,
}

#[derive(Clone, Copy, PartialEq, Eq, Structural, Debug)]
pub enum SamplerKind {
    Linear,
    Step,
    Cubic,
}

/// How a key of a track is interpolated by default.
#[verifier::allow_in_spec]
pub fn sampler_to_interp(s: SamplerKind) -> Interp
    returns
        (match s {
            SamplerKind::Linear => Interp::Linear,
            SamplerKind::Step => Interp::Step,
            SamplerKind::Cubic => Interp::Cubic,
        }),
{
    match s {
        SamplerKind::Linear => Interp::Linear,
        SamplerKind::Step => Interp::Step,
        SamplerKind::Cubic => Interp::Cubic,
    }
}

#[derive(Clone, Copy, PartialEq, Eq, Structural, Debug)]
pub struct Keyframe {
    pub value: TrackValue,
    pub interp: Interp,
    pub in_tangent: TrackValue,
    pub out_tangent: TrackValue,
}

impl Same for Keyframe {
    fn same(&self) -> (res: Self) {
        *self
    }
}

/// A key with flat tangents.
pub open spec fn flat_key(value: TrackValue, interp: Interp) -> Keyframe {
    Keyframe { value, interp, in_tangent: value.zeroed(), out_tangent: value.zeroed() }
}

/// A key with flat tangents.
pub fn new_keyframe(value: TrackValue, interp: Interp) -> (r: Keyframe)
    ensures
        r == flat_key(value, interp),
{
    Keyframe {
        value,
        interp,
        in_tangent: value.zeroed_like(),
        out_tangent: value.zeroed_like(),
    }
}

/// A track: what it drives, and its keys at their times.
pub struct Track {
    pub target: TrackTarget,
    pub sampler: SamplerKind,
    pub mute: bool,
    pub solo: bool,
    pub expanded: bool,
    pub times: List<F64>,
    pub keys: List<Keyframe>,
}

/// A track as a value.
#[verifier::ext_equal]
pub struct TrackShape {
    pub target: TrackTarget,
    pub sampler: SamplerKind,
    pub mute: bool,
    pub solo: bool,
    pub expanded: bool,
    pub times: Seq<F64>,
    pub keys: Seq<Keyframe>,
}

impl Same for Track {
    fn same(&self) -> (res: Self) {
        Track {
            target: self.target.same(),
            sampler: self.sampler,
            mute: self.mute,
            solo: self.solo,
            expanded: self.expanded,
            times: self.times.clone(),
            keys: self.keys.clone(),
        }
    }
}

impl Track {
    pub open spec fn shape(self) -> TrackShape {
        TrackShape {
            target: self.target,
            sampler: self.sampler,
            mute: self.mute,
            solo: self.solo,
            expanded: self.expanded,
            times: self.times@,
            keys: self.keys@,
        }
    }

    /// A track without keys.
    pub fn new(target: TrackTarget) -> (t: Track)
        ensures
            t.shape() == empty_track(target),
    {
        Track {
            target,
            sampler: SamplerKind::Linear,
            mute: false,
            solo: false,
            expanded: false,
            times: List::empty(),
            keys: List::empty(),
        }
    }
}

/// A track without keys.
pub open spec fn empty_track(target: TrackTarget) -> TrackShape {
    TrackShape {
        target,
        sampler: SamplerKind::Linear,
        mute: false,
        solo: false,
        expanded: false,
        times: Seq::empty(),
        keys: Seq::empty(),
    }
}

#[derive(Clone, Copy, PartialEq, Eq, Structural, Debug)]
pub enum LoopStyle {
    Once,
    Loop,
    PingPong,
}

#[derive(Clone, Copy, PartialEq, Eq, Structural, Debug)]
pub enum PlayDirection {
    Forward,
    Reverse,
}

/// A clip: named, with tracks.
pub struct Clip {
    pub id: AssetId,
    pub name: String,
    pub duration: F64,
    pub loop_style: LoopStyle,
    pub speed: F64,
    pub direction: PlayDirection,
    pub color: String,
    pub tracks: List<Track>,
}

/// A clip as a value.
#[verifier::ext_equal]
pub struct ClipShape {
    pub id: AssetId,
    pub name: Seq<char>,
    pub duration: F64,
    pub loop_style: LoopStyle,
    pub speed: F64,
    pub direction: PlayDirection,
    pub color: Seq<char>,
    pub tracks: Seq<TrackShape>,
}

impl Same for Clip {
    fn same(&self) -> (res: Self) {
        Clip {
            id: self.id,
            name: self.name.clone(),
            duration: self.duration,
            loop_style: self.loop_style,
            speed: self.speed,
            direction: self.direction,
            color: self.color.clone(),
            tracks: self.tracks.clone(),
        }
    }
}

/// The shapes of a row of tracks.
pub open spec fn track_shapes(ts: Seq<Track>) -> Seq<TrackShape> {
    Seq::new(ts.len(), |i: int| ts[i].shape())
}

impl Clip {
    pub open spec fn shape(self) -> ClipShape {
        ClipShape {
            id: self.id,
            name: self.name@,
            duration: self.duration,
            loop_style: self.loop_style,
            speed: self.speed,
            direction: self.direction,
            color: self.color@,
            tracks: track_shapes(self.tracks@),
        }
    }

    /// A new clip: one second long, looping forward at normal speed, without
    /// tracks.
    pub fn new(id: AssetId, name: String) -> (c: Clip)
        ensures
            c.shape() == fresh_clip(id, name@),
    {
        let c = Clip {
            id,
            name,
            duration: F64::one(),
            loop_style: LoopStyle::Loop,
            speed: F64::one(),
            direction: PlayDirection::Forward,
            color: "#7aa2f7".to_owned(),
            tracks: List::empty(),
        };
        assert(c.shape().tracks =~= Seq::<TrackShape>::empty());
        c
    }
}

/// A new clip: one second long, looping forward at normal speed, without
/// tracks.
pub open spec fn fresh_clip(id: AssetId, name: Seq<char>) -> ClipShape {
    ClipShape {
        id,
        name,
        duration: F64::one(),
        loop_style: LoopStyle::Loop,
        speed: F64::one(),
        direction: PlayDirection::Forward,
        color: "#7aa2f7"@,
        tracks: Seq::empty(),
    }
}

/// The shapes of a row of clips.
pub open spec fn clip_shapes(cs: Seq<Clip>) -> Seq<ClipShape> {
    Seq::new(cs.len(), |i: int| cs[i].shape())
}

/// Whether a clip has a given id.
pub open spec fn is_clip(id: AssetId) -> spec_fn(ClipShape) -> bool {
    |c: ClipShape| c.id == id
}

/// The position of the first clip with the id, or the number of clips.
pub open spec fn clip_at(cs: Seq<ClipShape>, id: AssetId) -> int {
    first(cs, is_clip(id))
}

/// The position of the clip with the id.
pub fn find_clip(cs: &Vec<Clip>, id: AssetId) -> (r: Option<usize>)
    ensures
        match r {
            Some(i) => i < cs@.len() && clip_at(clip_shapes(cs@), id) == i && cs@[i as int].id
                == id,
            None => clip_at(clip_shapes(cs@), id) == cs@.len(),
        },
{
    let ghost s = clip_shapes(cs@);
    let mut i: usize = 0;
    while i < cs.len()
        invariant
            s == clip_shapes(cs@),
            i <= cs@.len(),
            forall|j: int| 0 <= j < i ==> !is_clip(id)(#[trigger] s[j]),
        decreases cs@.len() - i,
    {
        if cs[i].id == id {
            proof {
                lemma_first_is(s, is_clip(id), i as int);
            }
            return Some(i);
        }
        i += 1;
    }
    proof {
        lemma_first_is(s, is_clip(id), i as int);
    }
    None
}

/// Where a track stands, by its clip and its index.
pub fn find_track(cs: &Vec<Clip>, clip: AssetId, track: usize) -> (r: Option<usize>)
    ensures
        match r {
            Some(i) => {
                &&& i < cs@.len()
                &&& clip_at(clip_shapes(cs@), clip) == i
                &&& track < cs@[i as int].tracks@.len()
            },
            None => {
                let i = clip_at(clip_shapes(cs@), clip);
                i == cs@.len() || (0 <= i < cs@.len() && track >= cs@[i].tracks@.len())
            },
        },
{
    match find_clip(cs, clip) {
        Some(i) => if track < cs[i].tracks.len() {
            Some(i)
        } else {
            None
        },
        None => None,
    }
}

#[derive(Clone, Copy, PartialEq, Eq, Structural, Debug)]
pub enum LayerMode {
    Replace,
    /// Added on top of the layers below, relative to a clip where one is named.
    Additive { base_clip: Option<AssetId> },
}

/// A stretch of a clip on a layer.
#[derive(Clone, Copy, PartialEq, Eq, Structural, Debug)]
pub struct StripDoc {
    pub clip: AssetId,
    pub start: F64,
    pub len: F64,
    pub scale: F64,
    pub repeat: bool,
}

impl Same for StripDoc {
    fn same(&self) -> (res: Self) {
        *self
    }
}

/// A layer of the mixer.
pub struct LayerDoc {
    pub mode: LayerMode,
    pub weight: F32,
    pub mask_nodes: List<NodeId>,
    pub include_descendants: bool,
    pub strips: List<StripDoc>,
}

/// A layer as a value.
#[verifier::ext_equal]
pub struct LayerShape {
    pub mode: LayerMode,
    pub weight: F32,
    pub mask_nodes: Seq<NodeId>,
    pub include_descendants: bool,
    pub strips: Seq<StripDoc>,
}

impl Same for LayerDoc {
    fn same(&self) -> (res: Self) {
        LayerDoc {
            mode: self.mode,
            weight: self.weight,
            mask_nodes: self.mask_nodes.clone(),
            include_descendants: self.include_descendants,
            strips: self.strips.clone(),
        }
    }
}

impl LayerDoc {
    pub open spec fn shape(self) -> LayerShape {
        LayerShape {
            mode: self.mode,
            weight: self.weight,
            mask_nodes: self.mask_nodes@,
            include_descendants: self.include_descendants,
            strips: self.strips@,
        }
    }

    /// A layer that overrides everything, at full weight, without strips.
    pub fn new() -> (l: LayerDoc)
        ensures
            l.shape() == empty_layer(),
    {
        LayerDoc {
            mode: LayerMode::Replace,
            weight: F32::one(),
            mask_nodes: List::empty(),
            include_descendants: false,
            strips: List::empty(),
        }
    }
}

/// A layer that overrides everything, at full weight, without strips.
pub open spec fn empty_layer() -> LayerShape {
    LayerShape {
        mode: LayerMode::Replace,
        weight: F32::one(),
        mask_nodes: Seq::empty(),
        include_descendants: false,
        strips: Seq::empty(),
    }
}

/// The shapes of a row of layers.
pub open spec fn layer_shapes(ls: Seq<LayerDoc>) -> Seq<LayerShape> {
    Seq::new(ls.len(), |i: int| ls[i].shape())
}

/// Whether the times of a row never step back in the total order.
pub open spec fn sorted(times: Seq<F64>) -> bool {
    forall|i: int, j: int|
        0 <= i < j < times.len() ==> (#[trigger] times[i]).total_rank() <= (
        #[trigger] times[j]).total_rank()
}

/// Keys put in order of their times, those of one time in the order given.
pub open spec fn by_time(times: Seq<F64>, keys: Seq<Keyframe>) -> (Seq<F64>, Seq<Keyframe>)
    decreases times.len(),
{
    if times.len() == 0 || keys.len() == 0 {
        (Seq::empty(), Seq::empty())
    } else {
        let (ts, ks) = by_time(times.drop_last(), keys.drop_last());
        let i = after_all(ts, times.last());
        (ts.insert(i, times.last()), ks.insert(i, keys.last()))
    }
}

/// The position behind every time that is not later than `t`, in a sorted row.
pub open spec fn after_all(ts: Seq<F64>, t: F64) -> int
    decreases ts.len(),
{
    if ts.len() == 0 {
        0
    } else if ts.last().total_rank() <= t.total_rank() {
        ts.len() as int
    } else {
        after_all(ts.drop_last(), t)
    }
}

proof fn lemma_after_all(ts: Seq<F64>, t: F64)
    requires
        sorted(ts),
    ensures
        0 <= after_all(ts, t) <= ts.len(),
        forall|i: int| 0 <= i < after_all(ts, t) ==> (#[trigger] ts[i]).total_rank()
            <= t.total_rank(),
        forall|i: int| after_all(ts, t) <= i < ts.len() ==> (#[trigger] ts[i]).total_rank()
            > t.total_rank(),
    decreases ts.len(),
{
    if ts.len() > 0 {
        if ts.last().total_rank() <= t.total_rank() {
            assert forall|i: int| 0 <= i < ts.len() implies (#[trigger] ts[i]).total_rank()
                <= t.total_rank() by {
                if i < ts.len() - 1 {
                    assert(ts[i].total_rank() <= ts[ts.len() - 1].total_rank());
                }
            }
        } else {
            let init = ts.drop_last();
            assert(sorted(init)) by {
                assert forall|i: int, j: int| 0 <= i < j < init.len() implies (
                #[trigger] init[i]).total_rank() <= (#[trigger] init[j]).total_rank() by {
                    assert(init[i] == ts[i] && init[j] == ts[j]);
                }
            }
            lemma_after_all(init, t);
            assert forall|i: int| 0 <= i < after_all(ts, t) implies (#[trigger] ts[i]).total_rank()
                <= t.total_rank() by {
                assert(init[i] == ts[i]);
            }
            assert forall|i: int| after_all(ts, t) <= i < ts.len() implies (
            #[trigger] ts[i]).total_rank() > t.total_rank() by {
                if i < ts.len() - 1 {
                    assert(init[i] == ts[i]);
                }
            }
        }
    }
}

proof fn lemma_insert_multiset<T>(s: Seq<T>, i: int, x: T)
    requires
        0 <= i <= s.len(),
    ensures
        s.insert(i, x).to_multiset() == s.to_multiset().insert(x),
{
    broadcast use vstd::seq_lib::group_to_multiset_ensures;

    let out = s.insert(i, x);
    assert(out.remove(i) =~= s);
    assert(out[i] == x);
    assert(out.contains(x));
    assert(out.to_multiset().remove(x).insert(x) =~= out.to_multiset());
}

/// Keys put in order of time are in order, as many as were given, and keys that
/// were in order stay as they are.
pub proof fn law_keys_are_put_in_order(times: Seq<F64>, keys: Seq<Keyframe>)
    requires
        times.len() == keys.len(),
    ensures
        sorted(by_time(times, keys).0),
        by_time(times, keys).0.len() == times.len(),
        by_time(times, keys).1.len() == keys.len(),
        by_time(times, keys).0.to_multiset() == times.to_multiset(),
        by_time(times, keys).1.to_multiset() == keys.to_multiset(),
        sorted(times) ==> by_time(times, keys) == (times, keys),
    decreases times.len(),
{
    broadcast use vstd::seq_lib::group_to_multiset_ensures;

    if times.len() > 0 {
        let t = times.last();
        let k = keys.last();
        law_keys_are_put_in_order(times.drop_last(), keys.drop_last());
        let (ts, ks) = by_time(times.drop_last(), keys.drop_last());
        lemma_after_all(ts, t);
        let i = after_all(ts, t);
        let out = ts.insert(i, t);
        assert forall|a: int, b: int| 0 <= a < b < out.len() implies (#[trigger] out[a]).total_rank()
            <= (#[trigger] out[b]).total_rank() by {
            let a2 = if a < i { a } else { a - 1 };
            let b2 = if b < i { b } else { b - 1 };
            if a != i {
                assert(out[a] == ts[a2]);
            }
            if b != i {
                assert(out[b] == ts[b2]);
            }
        }
        assert(times.drop_last().push(t) =~= times);
        assert(keys.drop_last().push(k) =~= keys);
        lemma_insert_multiset(ts, i, t);
        lemma_insert_multiset(ks, i, k);
        if sorted(times) {
            let init = times.drop_last();
            assert(sorted(init)) by {
                assert forall|a: int, b: int| 0 <= a < b < init.len() implies (
                #[trigger] init[a]).total_rank() <= (#[trigger] init[b]).total_rank() by {
                    assert(init[a] == times[a] && init[b] == times[b]);
                }
            }
            if i < ts.len() {
                assert(ts[i] == times[i]);
                assert(times[i].total_rank() <= times[times.len() - 1].total_rank());
            }
            assert(out =~= times);
            assert(ks.insert(i, k) =~= keys);
        }
    } else {
        assert(times =~= Seq::empty());
        assert(keys =~= Seq::empty());
    }
}

/// Puts keys in order of their times, those of one time in the order given.
pub fn sort_keys(times: &List<F64>, keys: &List<Keyframe>) -> (r: (List<F64>, List<Keyframe>))
    requires
        times@.len() == keys@.len(),
    ensures
        (r.0@, r.1@) == by_time(times@, keys@),
{
    let mut ts: Vec<F64> = Vec::new();
    let mut ks: Vec<Keyframe> = Vec::new();
    let mut n: usize = 0;
    while n < times.len()
        invariant
            times@.len() == keys@.len(),
            n <= times@.len(),
            ts@.len() == n,
            ks@.len() == n,
            (ts@, ks@) == by_time(times@.take(n as int), keys@.take(n as int)),
        decreases times@.len() - n,
    {
        let t: F64 = *times.at(n);
        let k: Keyframe = *keys.at(n);
        let ghost full = ts@;
        let mut i: usize = ts.len();
        assert(full.take(i as int) =~= full);
        while i > 0 && !ts[i - 1].total_le(t)
            invariant
                i <= ts@.len(),
                ts@ == full,
                after_all(full, t) == after_all(full.take(i as int), t),
            decreases i,
        {
            assert(full.take(i as int).drop_last() =~= full.take(i - 1));
            i -= 1;
        }
        assert(after_all(full, t) == i) by {
            if i > 0 {
                assert(full.take(i as int).last() == full[i - 1]);
            }
        }
        ts.insert(i, t);
        ks.insert(i, k);
        proof {
            assert(times@.take(n + 1).drop_last() =~= times@.take(n as int));
            assert(keys@.take(n + 1).drop_last() =~= keys@.take(n as int));
        }
        n += 1;
    }
    assert(times@.take(n as int) =~= times@);
    assert(keys@.take(n as int) =~= keys@);
    (List::from_vec(ts), List::from_vec(ks))
}

} // verus!

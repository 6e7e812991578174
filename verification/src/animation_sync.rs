//! Clips on their way to the renderer: which clips are played, what each of their
//! tracks drives there, and how the mixer combines them.
use crate::clips::{
    clip_at, find_clip, layer_shapes, CameraParamKind, Clip, ClipShape, LayerDoc, LayerMode,
    LayerShape, LoopStyle, PlayDirection, StripDoc, Track, TrackShape, TrackTarget,
};
use crate::custom_material::{find_material, material_at, CustomMaterial};
use crate::dynamic::{MaterialShaderId, Registry, RegistryView};
use crate::find::{first, lemma_first_is};
use crate::ids::{AssetId, NodeId};
use crate::list::List;
use crate::node::LightParamKind;
use crate::palette::BuiltinParamKind;
use crate::table::Table;
use crate::text::same_text;
use crate::timeline::Timeline;
use crate::tree::{collect_ids, find, find_by_id, forest, has_node, ids, lemma_model, within, Node, Tree};
use crate::values::{Trs, F32, F64};
use vstd::prelude::*;

verus! {

/// How long edits are gathered before the clips are lowered again, in
/// milliseconds.
pub const RELOWER_MS: u32 = 200;

/// What the renderer has for a node.
pub struct RenderNode {
    pub transform_key: u64,
    pub material_keys: List<u64>,
    pub light_key: Option<u64>,
    pub camera_key: Option<u64>,
    pub model_meshes: List<u64>,
}

/// A material of the renderer; a custom one has a shader of its own.
#[derive(Clone, Copy, PartialEq, Eq, Structural, Debug)]
pub struct LiveMaterial {
    pub key: u64,
    pub shader: Option<MaterialShaderId>,
}

/// What the renderer has.
pub struct RenderState {
    /// What was made for each node.
    pub nodes: Table<RenderNode>,
    /// The morph targets of each mesh.
    pub geometry_morphs: Table<u64>,
    /// The names of the uniforms of each registered shader, in order.
    pub uniforms: Table<List<String>>,
    pub materials: Vec<LiveMaterial>,
}

/// What a channel drives in the renderer.
#[allow(inconsistent_fields)]
#[derive(Clone, Copy, PartialEq, Eq, Structural, Debug)]
pub enum AnimationTarget {
    Transform(u64),
    BuiltinParam { material: u64, param: BuiltinParamKind },
    Light { light: u64, param: LightParamKind },
    Morph(u64),
    Uniform { material: u64, slot: usize },
    Camera { camera: u64, param: CameraParamKind },
}

/// What became of the target of a track.
#[derive(Clone, Copy, PartialEq, Eq, Structural, Debug)]
pub enum Resolution {
    Live(AnimationTarget),
    /// The renderer does not have it yet.
    Pending,
    /// There is no such node, material or uniform.
    Missing,
}

/// What stands for a key that a node lacks: it is pending where the node exists.
pub open spec fn absent(f: Seq<Tree>, node: NodeId) -> Resolution {
    if find(f, node) is Some {
        Resolution::Pending
    } else {
        Resolution::Missing
    }
}

/// What the renderer has for a node, where it has been made.
pub open spec fn made(r: RenderState, node: NodeId) -> Option<RenderNode> {
    if r.nodes@.contains_key(node.0) {
        Some(r.nodes@[node.0])
    } else {
        None
    }
}

/// The first of a row, where there is one.
pub open spec fn head(row: Seq<u64>) -> Option<u64> {
    if row.len() > 0 {
        Some(row[0])
    } else {
        None
    }
}

/// Whether a material renders with a shader.
pub open spec fn renders_with(shader: MaterialShaderId) -> spec_fn(LiveMaterial) -> bool {
    |m: LiveMaterial| m.shader == Some(shader)
}

/// The first material that renders with a shader, where there is one.
pub open spec fn key_for_shader(ms: Seq<LiveMaterial>, shader: MaterialShaderId) -> Option<u64> {
    let i = first(ms, renders_with(shader));
    if 0 <= i < ms.len() {
        Some(ms[i].key)
    } else {
        None
    }
}

/// The first material that renders with a shader. It is pending until a mesh has
/// been made that uses it.
pub fn material_key_for_shader(ms: &Vec<LiveMaterial>, shader: MaterialShaderId) -> (r: Option<u64>)
    ensures
        r == key_for_shader(ms@, shader),
{
    let mut i: usize = 0;
    while i < ms.len()
        invariant
            i <= ms@.len(),
            forall|j: int| 0 <= j < i ==> !renders_with(shader)(#[trigger] ms@[j]),
        decreases ms@.len() - i,
    {
        if let Some(s) = ms[i].shader {
            if s == shader {
                proof {
                    lemma_first_is(ms@, renders_with(shader), i as int);
                }
                return Some(ms[i].key);
            }
        }
        i += 1;
    }
    proof {
        lemma_first_is(ms@, renders_with(shader), i as int);
    }
    None
}

/// Whether a text is a name.
pub open spec fn is_name(name: Seq<char>) -> spec_fn(String) -> bool {
    |s: String| s@ == name
}

/// The place of a name, or the number of names.
pub open spec fn name_at(names: Seq<String>, name: Seq<char>) -> int {
    first(names, is_name(name))
}

pub(crate) fn find_name(names: &List<String>, name: &str) -> (r: Option<usize>)
    ensures
        match r {
            Some(i) => i < names@.len() && name_at(names@, name@) == i,
            None => name_at(names@, name@) == names@.len(),
        },
{
    let mut i: usize = 0;
    while i < names.len()
        invariant
            i <= names@.len(),
            forall|j: int| 0 <= j < i ==> !is_name(name@)(#[trigger] names@[j]),
        decreases names@.len() - i,
    {
        if same_text(names.at(i), name) {
            proof {
                lemma_first_is(names@, is_name(name@), i as int);
            }
            return Some(i);
        }
        i += 1;
    }
    proof {
        lemma_first_is(names@, is_name(name@), i as int);
    }
    None
}

/// What a uniform is in the renderer: a slot of the shader that its material was
/// registered with, on the first material that renders with it.
pub open spec fn uniform_resolved(
    material: AssetId,
    name: Seq<char>,
    r: RenderState,
    reg: RegistryView,
    ms: Seq<CustomMaterial>,
) -> Resolution {
    if !reg.shaders.contains_key(material.0) {
        if material_at(ms, material) < ms.len() {
            Resolution::Pending
        } else {
            Resolution::Missing
        }
    } else {
        let shader = reg.shaders[material.0];
        if !r.uniforms@.contains_key(shader.0 as u128) {
            Resolution::Pending
        } else {
            let names = r.uniforms@[shader.0 as u128]@;
            let slot = name_at(names, name);
            if slot >= names.len() {
                Resolution::Missing
            } else {
                match key_for_shader(r.materials@, shader) {
                    Some(key) => Resolution::Live(
                        AnimationTarget::Uniform { material: key, slot: slot as usize },
                    ),
                    None => Resolution::Pending,
                }
            }
        }
    }
}

/// What the target of a track is in the renderer.
pub open spec fn resolved(
    target: TrackTarget,
    r: RenderState,
    reg: RegistryView,
    f: Seq<Tree>,
    ms: Seq<CustomMaterial>,
) -> Resolution {
    match target {
        TrackTarget::Transform { node, .. } => match made(r, node) {
            Some(n) => Resolution::Live(AnimationTarget::Transform(n.transform_key)),
            None => absent(f, node),
        },
        TrackTarget::BuiltinParam { node, param } => match made(r, node) {
            Some(n) => match head(n.material_keys@) {
                Some(material) => Resolution::Live(
                    AnimationTarget::BuiltinParam { material, param },
                ),
                None => Resolution::Pending,
            },
            None => Resolution::Pending,
        },
        TrackTarget::Light { node, param } => match made(r, node) {
            Some(n) => match n.light_key {
                Some(light) => Resolution::Live(AnimationTarget::Light { light, param }),
                None => Resolution::Pending,
            },
            None => Resolution::Pending,
        },
        TrackTarget::Morph { node, .. } => match made(r, node) {
            Some(n) => match head(n.model_meshes@) {
                Some(mesh) => if r.geometry_morphs@.contains_key(mesh as u128) {
                    Resolution::Live(AnimationTarget::Morph(r.geometry_morphs@[mesh as u128]))
                } else {
                    Resolution::Pending
                },
                None => absent(f, node),
            },
            None => absent(f, node),
        },
        TrackTarget::Uniform { material, name } => uniform_resolved(material, name@, r, reg, ms),
        TrackTarget::Camera { node, param } => match made(r, node) {
            Some(n) => match n.camera_key {
                Some(camera) => Resolution::Live(AnimationTarget::Camera { camera, param }),
                None => absent(f, node),
            },
            None => absent(f, node),
        },
        TrackTarget::TextureTransform { .. } => Resolution::Pending,
    }
}

fn absence(nodes: &Vec<Node>, node: NodeId) -> (r: Resolution)
    ensures
        r == absent(forest(nodes@), node),
{
    if find_by_id(nodes, node).is_some() {
        Resolution::Pending
    } else {
        Resolution::Missing
    }
}

fn resolve_uniform(
    material: AssetId,
    name: &str,
    r: &RenderState,
    reg: &Registry,
    ms: &Vec<CustomMaterial>,
) -> (res: Resolution)
    ensures
        res == uniform_resolved(material, name@, *r, reg@, ms@),
{
    let shader = match reg.shader_id_for_asset(material) {
        Some(s) => s,
        None => {
            return if find_material(ms, material).is_some() {
                Resolution::Pending
            } else {
                Resolution::Missing
            };
        },
    };
    match r.uniforms.get(shader.0 as u128) {
        None => Resolution::Pending,
        Some(names) => match find_name(names, name) {
            None => Resolution::Missing,
            Some(slot) => match material_key_for_shader(&r.materials, shader) {
                Some(key) => Resolution::Live(AnimationTarget::Uniform { material: key, slot }),
                None => Resolution::Pending,
            },
        },
    }
}

/// Finds what the target of a track is in the renderer. A node or material that
/// the renderer has not made yet is pending; one that does not exist is missing.
pub fn resolve_target(
    target: &TrackTarget,
    r: &RenderState,
    reg: &Registry,
    nodes: &Vec<Node>,
    ms: &Vec<CustomMaterial>,
) -> (res: Resolution)
    ensures
        res == resolved(*target, *r, reg@, forest(nodes@), ms@),
{
    match target {
        TrackTarget::Transform { node, .. } => match r.nodes.get(node.0) {
            Some(n) => Resolution::Live(AnimationTarget::Transform(n.transform_key)),
            None => absence(nodes, *node),
        },
        TrackTarget::BuiltinParam { node, param } => match r.nodes.get(node.0) {
            Some(n) => if n.material_keys.len() > 0 {
                Resolution::Live(
                    AnimationTarget::BuiltinParam { material: *n.material_keys.at(0), param: *param },
                )
            } else {
                Resolution::Pending
            },
            None => Resolution::Pending,
        },
        TrackTarget::Light { node, param } => match r.nodes.get(node.0) {
            Some(n) => match n.light_key {
                Some(light) => Resolution::Live(AnimationTarget::Light { light, param: *param }),
                None => Resolution::Pending,
            },
            None => Resolution::Pending,
        },
        TrackTarget::Morph { node, .. } => match r.nodes.get(node.0) {
            Some(n) => if n.model_meshes.len() > 0 {
                match r.geometry_morphs.get(*n.model_meshes.at(0) as u128) {
                    Some(key) => Resolution::Live(AnimationTarget::Morph(*key)),
                    None => Resolution::Pending,
                }
            } else {
                absence(nodes, *node)
            },
            None => absence(nodes, *node),
        },
        TrackTarget::Uniform { material, name } => resolve_uniform(*material, name, r, reg, ms),
        TrackTarget::Camera { node, param } => match r.nodes.get(node.0) {
            Some(n) => match n.camera_key {
                Some(camera) => Resolution::Live(AnimationTarget::Camera { camera, param: *param }),
                None => absence(nodes, *node),
            },
            None => absence(nodes, *node),
        },
        TrackTarget::TextureTransform { .. } => Resolution::Pending,
    }
}

/// A target that the renderer has is never taken for missing while its node
/// stands in the scene: a track waits for a node, it does not fail on it.
pub proof fn law_present_node_is_never_missing(
    target: TrackTarget,
    r: RenderState,
    reg: RegistryView,
    f: Seq<Tree>,
    ms: Seq<CustomMaterial>,
)
    requires
        target.node_of() is Some,
        find(f, target.node_of()->0) is Some,
    ensures
        resolved(target, r, reg, f, ms) != Resolution::Missing,
{
}

/// Whether a node stands below another.
pub open spec fn below(f: Seq<Tree>, root: NodeId, target: NodeId) -> bool {
    match find(f, root) {
        Some(n) => within(n.children, target),
        None => false,
    }
}

/// Whether a node stands below another.
pub fn node_is_descendant(nodes: &Vec<Node>, root: NodeId, target: NodeId) -> (r: bool)
    ensures
        r == below(forest(nodes@), root, target),
{
    match find_by_id(nodes, root) {
        Some(n) => {
            proof {
                lemma_model(*n);
            }
            has_node(&n.children, target)
        },
        None => false,
    }
}

/// Whether a target belongs to a node or to what is below it. A uniform belongs
/// to no node, and passes.
pub open spec fn under(f: Seq<Tree>, target: TrackTarget, root: NodeId) -> bool {
    match target.node_of() {
        Some(n) => n == root || below(f, root, n),
        None => true,
    }
}

/// Whether a target belongs to a node or to what is below it.
pub fn target_under_subtree(nodes: &Vec<Node>, target: &TrackTarget, root: NodeId) -> (r: bool)
    ensures
        r == under(forest(nodes@), *target, root),
{
    match target.target_node() {
        Some(n) => n == root || node_is_descendant(nodes, root, n),
        None => true,
    }
}

/// Whether any track is played alone.
pub open spec fn any_solo(ts: Seq<TrackShape>) -> bool {
    exists|i: int| 0 <= i < ts.len() && (#[trigger] ts[i]).solo
}

/// Whether a track is played: where tracks are played alone, it is one of them,
/// and where a subtree is, it belongs to it.
pub open spec fn played(t: TrackShape, alone: bool, root: Option<NodeId>, f: Seq<Tree>) -> bool {
    &&& alone ==> t.solo
    &&& root is Some ==> under(f, t.target, root->0)
}

/// A track that is played, and what it drives.
#[derive(Clone, Copy, PartialEq, Eq, Structural, Debug)]
pub struct Channel {
    pub track: usize,
    pub target: AnimationTarget,
}

/// Everything that tells what the targets of tracks are.
pub struct LowerContext<'a> {
    pub render: &'a RenderState,
    pub registry: &'a Registry,
    pub nodes: &'a Vec<Node>,
    pub materials: &'a Vec<CustomMaterial>,
}

impl<'a> LowerContext<'a> {
    /// What the target of a track is in the renderer.
    pub open spec fn resolved(self, target: TrackTarget) -> Resolution {
        resolved(target, *self.render, self.registry@, forest(self.nodes@), self.materials@)
    }
}

/// The channels of the first `k` tracks: one for each that is played and whose
/// target the renderer has.
pub open spec fn channels(ts: Seq<TrackShape>, cx: LowerContext, root: Option<NodeId>, k: nat) -> Seq<
    Channel,
>
    decreases k,
{
    if k == 0 {
        seq![]
    } else {
        let i = k - 1;
        let front = channels(ts, cx, root, i as nat);
        if played(ts[i], any_solo(ts), root, forest(cx.nodes@)) {
            match cx.resolved(ts[i].target) {
                Resolution::Live(target) => front.push(Channel { track: i as usize, target }),
                _ => front,
            }
        } else {
            front
        }
    }
}

/// A clip as the renderer plays it. Its speed is still per second.
pub struct LoweredClip {
    pub name: String,
    pub duration: F64,
    /// How it goes on at its end; one that is played once does not.
    pub loop_style: Option<LoopStyle>,
    pub speed: F64,
    pub direction: PlayDirection,
    pub channels: Vec<Channel>,
}

/// Whether a lowered clip is that of a clip.
pub open spec fn lowers(c: ClipShape, cx: LowerContext, root: Option<NodeId>, l: LoweredClip) -> bool {
    &&& l.name@ == c.name
    &&& l.duration == c.duration
    &&& l.loop_style == if c.loop_style == LoopStyle::Once {
        None
    } else {
        Some(c.loop_style)
    }
    &&& l.speed == c.speed
    &&& l.direction == c.direction
    &&& l.channels@ == channels(c.tracks, cx, root, c.tracks.len())
}

fn has_solo(ts: &List<Track>) -> (r: bool)
    ensures
        r == any_solo(crate::clips::track_shapes(ts@)),
{
    let ghost shapes = crate::clips::track_shapes(ts@);
    let mut i: usize = 0;
    while i < ts.len()
        invariant
            i <= ts@.len(),
            shapes == crate::clips::track_shapes(ts@),
            forall|j: int| 0 <= j < i ==> !(#[trigger] shapes[j]).solo,
        decreases ts@.len() - i,
    {
        if ts.at(i).solo {
            assert(shapes[i as int].solo);
            return true;
        }
        i += 1;
    }
    false
}

/// Lowers a clip for the renderer. Tracks that are not played, and those whose
/// target the renderer lacks, are passed over. Whether a track is
/// muted is not looked at here.
pub fn lower_clip(clip: &Clip, cx: &LowerContext, root: Option<NodeId>) -> (l: LoweredClip)
    ensures
        lowers(clip.shape(), *cx, root, l),
{
    let ghost ts = clip.shape().tracks;
    let alone = has_solo(&clip.tracks);
    let mut out: Vec<Channel> = Vec::new();
    let mut i: usize = 0;
    while i < clip.tracks.len()
        invariant
            i <= clip.tracks@.len(),
            ts == clip.shape().tracks,
            ts.len() == clip.tracks@.len(),
            alone == any_solo(ts),
            out@ == channels(ts, *cx, root, i as nat),
        decreases clip.tracks@.len() - i,
    {
        let t = clip.tracks.at(i);
        assert(ts[i as int] == t.shape());
        let inside = match root {
            Some(n) => target_under_subtree(cx.nodes, &t.target, n),
            None => true,
        };
        if (!alone || t.solo) && inside {
            match resolve_target(&t.target, cx.render, cx.registry, cx.nodes, cx.materials) {
                Resolution::Live(target) => {
                    out.push(Channel { track: i, target });
                },
                _ => {},
            }
        }
        i += 1;
    }
    LoweredClip {
        name: clip.name.clone(),
        duration: clip.duration,
        loop_style: match clip.loop_style {
            LoopStyle::Once => None,
            LoopStyle::Loop => Some(LoopStyle::Loop),
            LoopStyle::PingPong => Some(LoopStyle::PingPong),
        },
        speed: clip.speed,
        direction: clip.direction,
        channels: out,
    }
}

/// While a subtree is played alone, every channel drives something of that
/// subtree, or something that belongs to no node.
pub proof fn law_solo_subtree_is_kept_to(
    ts: Seq<TrackShape>,
    cx: LowerContext,
    root: NodeId,
    k: nat,
)
    requires
        k <= ts.len() <= usize::MAX,
    ensures
        forall|i: int|
            0 <= i < channels(ts, cx, Some(root), k).len() ==> ({
                let c = #[trigger] channels(ts, cx, Some(root), k)[i];
                c.track < k && under(forest(cx.nodes@), ts[c.track as int].target, root)
            }),
    decreases k,
{
    if k > 0 {
        law_solo_subtree_is_kept_to(ts, cx, root, (k - 1) as nat);
    }
}

/// A row with an id at its end, unless it is there.
pub open spec fn with_id(row: Seq<AssetId>, id: AssetId) -> Seq<AssetId> {
    if row.contains(id) {
        row
    } else {
        row.push(id)
    }
}

/// A row with the clips of strips.
pub open spec fn with_strips(row: Seq<AssetId>, strips: Seq<StripDoc>) -> Seq<AssetId>
    decreases strips.len(),
{
    if strips.len() == 0 {
        row
    } else {
        with_id(with_strips(row, strips.drop_last()), strips.last().clip)
    }
}

/// A row with the clips of layers.
pub open spec fn with_layers(row: Seq<AssetId>, layers: Seq<LayerShape>) -> Seq<AssetId>
    decreases layers.len(),
{
    if layers.len() == 0 {
        row
    } else {
        with_strips(with_layers(row, layers.drop_last()), layers.last().strips)
    }
}

/// The clips that are needed: the current one, and those of the mixer's strips.
pub open spec fn needed_clips(current: Option<AssetId>, layers: Seq<LayerShape>) -> Seq<AssetId> {
    with_layers(
        match current {
            Some(id) => seq![id],
            None => seq![],
        },
        layers,
    )
}

proof fn lemma_strips_once(row: Seq<AssetId>, strips: Seq<StripDoc>)
    requires
        row.no_duplicates(),
    ensures
        with_strips(row, strips).no_duplicates(),
    decreases strips.len(),
{
    if strips.len() > 0 {
        lemma_strips_once(row, strips.drop_last());
    }
}

proof fn lemma_layers_once(row: Seq<AssetId>, layers: Seq<LayerShape>)
    requires
        row.no_duplicates(),
    ensures
        with_layers(row, layers).no_duplicates(),
    decreases layers.len(),
{
    if layers.len() > 0 {
        lemma_layers_once(row, layers.drop_last());
        lemma_strips_once(with_layers(row, layers.drop_last()), layers.last().strips);
    }
}

/// A clip is lowered once, however many strips play it.
pub proof fn law_clip_is_lowered_once(current: Option<AssetId>, layers: Seq<LayerShape>)
    ensures
        needed_clips(current, layers).no_duplicates(),
{
    let row = match current {
        Some(id) => seq![id],
        None => seq![],
    };
    assert(row.no_duplicates());
    lemma_layers_once(row, layers);
}

fn has_asset(row: &Vec<AssetId>, id: AssetId) -> (r: bool)
    ensures
        r == row@.contains(id),
{
    let mut i: usize = 0;
    while i < row.len()
        invariant
            i <= row@.len(),
            forall|j: int| 0 <= j < i ==> row@[j] != id,
        decreases row@.len() - i,
    {
        if row[i] == id {
            assert(row@[i as int] == id);
            return true;
        }
        i += 1;
    }
    false
}

/// The clips that are needed, each once: the current one first.
pub fn clips_to_lower(current: Option<AssetId>, layers: &Vec<LayerDoc>) -> (r: Vec<AssetId>)
    ensures
        r@ == needed_clips(current, layer_shapes(layers@)),
{
    let mut out: Vec<AssetId> = Vec::new();
    if let Some(id) = current {
        out.push(id);
    }
    let ghost start = out@;
    assert(start =~= match current {
        Some(id) => seq![id],
        None => seq![],
    });
    let ghost shapes = layer_shapes(layers@);
    let mut i: usize = 0;
    while i < layers.len()
        invariant
            i <= layers@.len(),
            shapes == layer_shapes(layers@),
            out@ == with_layers(start, shapes.take(i as int)),
        decreases layers@.len() - i,
    {
        let l = &layers[i];
        let ghost before = out@;
        let mut k: usize = 0;
        while k < l.strips.len()
            invariant
                k <= l.strips@.len(),
                out@ == with_strips(before, l.strips@.take(k as int)),
            decreases l.strips@.len() - k,
        {
            let id = l.strips.at(k).clip;
            if !has_asset(&out, id) {
                out.push(id);
            }
            k += 1;
            assert(l.strips@.take(k as int).drop_last() =~= l.strips@.take(k - 1));
        }
        assert(l.strips@.take(k as int) =~= l.strips@);
        i += 1;
        assert(shapes.take(i as int).drop_last() =~= shapes.take(i - 1));
        assert(shapes.take(i as int).last() == l.shape());
    }
    assert(shapes.take(i as int) =~= shapes);
    out
}

/// The clips of a row that exist.
pub open spec fn existing(row: Seq<AssetId>, clips: Seq<ClipShape>) -> Seq<AssetId>
    decreases row.len(),
{
    if row.len() == 0 {
        seq![]
    } else {
        let front = existing(row.drop_last(), clips);
        if clip_at(clips, row.last()) < clips.len() {
            front.push(row.last())
        } else {
            front
        }
    }
}

/// A clip of the library, lowered.
pub struct LoweredEntry {
    pub id: AssetId,
    pub clip: LoweredClip,
}

/// The ids of lowered clips.
pub open spec fn entry_ids(row: Seq<LoweredEntry>) -> Seq<AssetId> {
    Seq::new(row.len(), |i: int| row[i].id)
}

/// Lowers the clips that are needed: the current one, and those of the mixer's
/// strips. One that no longer exists is passed over.
pub fn relower(timeline: &Timeline, cx: &LowerContext) -> (r: Vec<LoweredEntry>)
    ensures
        entry_ids(r@) == existing(
            needed_clips(timeline@.current_clip, timeline@.layers),
            timeline@.clips,
        ),
        forall|i: int|
            0 <= i < r@.len() ==> lowers(
                timeline@.clips[clip_at(timeline@.clips, (#[trigger] r@[i]).id)],
                *cx,
                timeline@.solo_root,
                r@[i].clip,
            ),
{
    let row = clips_to_lower(timeline.current_clip, &timeline.layers);
    let ghost clips = timeline@.clips;
    let mut out: Vec<LoweredEntry> = Vec::new();
    let mut i: usize = 0;
    assert(entry_ids(out@) =~= existing(row@.take(0), clips));
    while i < row.len()
        invariant
            i <= row@.len(),
            clips == timeline@.clips,
            entry_ids(out@) == existing(row@.take(i as int), clips),
            forall|j: int|
                0 <= j < out@.len() ==> lowers(
                    clips[clip_at(clips, (#[trigger] out@[j]).id)],
                    *cx,
                    timeline@.solo_root,
                    out@[j].clip,
                ),
        decreases row@.len() - i,
    {
        let ghost was = out@;
        assert(row@.take(i + 1).drop_last() =~= row@.take(i as int));
        if let Some(k) = find_clip(&timeline.clips, row[i]) {
            assert(clips[k as int] == timeline.clips@[k as int].shape());
            let clip = lower_clip(&timeline.clips[k], cx, timeline.solo_root);
            out.push(LoweredEntry { id: row[i], clip });
            assert(entry_ids(out@) =~= entry_ids(was).push(row@[i as int]));
        }
        i += 1;
    }
    assert(row@.take(i as int) =~= row@);
    out
}

/// Nodes and everything below each of them.
pub open spec fn with_descendants(f: Seq<Tree>, roots: Seq<NodeId>) -> Seq<NodeId>
    decreases roots.len(),
{
    if roots.len() == 0 {
        seq![]
    } else {
        let r = roots.last();
        with_descendants(f, roots.drop_last()).push(r) + match find(f, r) {
            Some(n) => ids(n.children),
            None => seq![],
        }
    }
}

/// Nodes and everything below each of them, in pre-order.
pub fn expand_descendants(nodes: &Vec<Node>, roots: &List<NodeId>) -> (r: Vec<NodeId>)
    ensures
        r@ == with_descendants(forest(nodes@), roots@),
{
    let mut out: Vec<NodeId> = Vec::new();
    let mut i: usize = 0;
    while i < roots.len()
        invariant
            i <= roots@.len(),
            out@ == with_descendants(forest(nodes@), roots@.take(i as int)),
        decreases roots@.len() - i,
    {
        let ghost before = out@;
        let r = *roots.at(i);
        out.push(r);
        if let Some(n) = find_by_id(nodes, r) {
            proof {
                lemma_model(*n);
            }
            let mut more = collect_ids(&n.children);
            out.append(&mut more);
        }
        i += 1;
        assert(roots@.take(i as int).drop_last() =~= roots@.take(i - 1));
        assert(out@ =~= with_descendants(forest(nodes@), roots@.take(i as int)));
    }
    assert(roots@.take(i as int) =~= roots@);
    out
}

/// A clip and its key in the renderer.
#[derive(Clone, Copy, PartialEq, Eq, Structural, Debug)]
pub struct ClipKey {
    pub clip: AssetId,
    pub key: u64,
}

/// Whether a key is that of a clip.
pub open spec fn is_key_of(clip: AssetId) -> spec_fn(ClipKey) -> bool {
    |k: ClipKey| k.clip == clip
}

/// The key of a clip, where it has one.
pub open spec fn key_for(keys: Seq<ClipKey>, clip: AssetId) -> Option<u64> {
    let i = first(keys, is_key_of(clip));
    if 0 <= i < keys.len() {
        Some(keys[i].key)
    } else {
        None
    }
}

fn find_key(keys: &Vec<ClipKey>, clip: AssetId) -> (r: Option<u64>)
    ensures
        r == key_for(keys@, clip),
{
    let mut i: usize = 0;
    while i < keys.len()
        invariant
            i <= keys@.len(),
            forall|j: int| 0 <= j < i ==> !is_key_of(clip)(#[trigger] keys@[j]),
        decreases keys@.len() - i,
    {
        if keys[i].clip == clip {
            proof {
                lemma_first_is(keys@, is_key_of(clip), i as int);
            }
            return Some(keys[i].key);
        }
        i += 1;
    }
    proof {
        lemma_first_is(keys@, is_key_of(clip), i as int);
    }
    None
}

/// How the renderer combines a layer with those below it.
#[derive(Clone, Copy, PartialEq, Eq, Structural, Debug)]
pub enum RenderMode {
    Replace,
    Additive { base_clip: Option<u64> },
}

/// A stretch of a clip, by its key.
#[derive(Clone, Copy, PartialEq, Eq, Structural, Debug)]
pub struct RenderStrip {
    pub clip: u64,
    pub start: F64,
    pub len: F64,
    pub scale: F64,
    pub repeat: bool,
}

/// A layer as the renderer plays it.
pub struct RenderLayer {
    pub mode: RenderMode,
    pub weight: F32,
    /// The transforms that the layer is limited to.
    pub mask: Option<Vec<u64>>,
    pub strips: Vec<RenderStrip>,
}

/// The mode of a layer, over keys.
pub open spec fn mode_of(m: LayerMode, keys: Seq<ClipKey>) -> RenderMode {
    match m {
        LayerMode::Replace => RenderMode::Replace,
        LayerMode::Additive { base_clip } => RenderMode::Additive {
            base_clip: match base_clip {
                Some(id) => key_for(keys, id),
                None => None,
            },
        },
    }
}

/// The strips whose clips have keys.
pub open spec fn strips_of(strips: Seq<StripDoc>, keys: Seq<ClipKey>) -> Seq<RenderStrip>
    decreases strips.len(),
{
    if strips.len() == 0 {
        seq![]
    } else {
        let s = strips.last();
        let front = strips_of(strips.drop_last(), keys);
        match key_for(keys, s.clip) {
            Some(clip) => front.push(
                RenderStrip { clip, start: s.start, len: s.len, scale: s.scale, repeat: s.repeat },
            ),
            None => front,
        }
    }
}

/// The transforms of the nodes that the renderer has.
pub open spec fn transforms_of(row: Seq<NodeId>, nodes: Map<u128, RenderNode>) -> Seq<u64>
    decreases row.len(),
{
    if row.len() == 0 {
        seq![]
    } else {
        let front = transforms_of(row.drop_last(), nodes);
        if nodes.contains_key(row.last().0) {
            front.push(nodes[row.last().0].transform_key)
        } else {
            front
        }
    }
}

/// The nodes that a layer is limited to.
pub open spec fn masked(l: LayerShape, f: Seq<Tree>) -> Seq<NodeId> {
    if l.include_descendants {
        with_descendants(f, l.mask_nodes)
    } else {
        l.mask_nodes
    }
}

/// Whether a layer of the renderer is that of a layer: limited where it names
/// nodes, and with the strips whose clips the renderer has.
pub open spec fn lowers_layer(
    l: LayerShape,
    f: Seq<Tree>,
    nodes: Map<u128, RenderNode>,
    keys: Seq<ClipKey>,
    r: RenderLayer,
) -> bool {
    &&& r.mode == mode_of(l.mode, keys)
    &&& r.weight == l.weight
    &&& r.strips@ == strips_of(l.strips, keys)
    &&& if l.mask_nodes.len() == 0 {
        r.mask is None
    } else {
        r.mask is Some && r.mask->0@ == transforms_of(masked(l, f), nodes)
    }
}

fn lower_strips(strips: &List<StripDoc>, keys: &Vec<ClipKey>) -> (r: Vec<RenderStrip>)
    ensures
        r@ == strips_of(strips@, keys@),
{
    let mut out: Vec<RenderStrip> = Vec::new();
    let mut i: usize = 0;
    while i < strips.len()
        invariant
            i <= strips@.len(),
            out@ == strips_of(strips@.take(i as int), keys@),
        decreases strips@.len() - i,
    {
        let s = *strips.at(i);
        if let Some(clip) = find_key(keys, s.clip) {
            out.push(
                RenderStrip { clip, start: s.start, len: s.len, scale: s.scale, repeat: s.repeat },
            );
        }
        i += 1;
        assert(strips@.take(i as int).drop_last() =~= strips@.take(i - 1));
    }
    assert(strips@.take(i as int) =~= strips@);
    out
}

fn lower_mask(row: &Vec<NodeId>, nodes: &Table<RenderNode>) -> (r: Vec<u64>)
    ensures
        r@ == transforms_of(row@, nodes@),
{
    let mut out: Vec<u64> = Vec::new();
    let mut i: usize = 0;
    while i < row.len()
        invariant
            i <= row@.len(),
            out@ == transforms_of(row@.take(i as int), nodes@),
        decreases row@.len() - i,
    {
        if let Some(n) = nodes.get(row[i].0) {
            out.push(n.transform_key);
        }
        i += 1;
        assert(row@.take(i as int).drop_last() =~= row@.take(i - 1));
    }
    assert(row@.take(i as int) =~= row@);
    out
}

/// Lowers the mixer for the renderer. `keys` are those of the clips that were
/// lowered before.
pub fn lower_mixer(
    layers: &Vec<LayerDoc>,
    nodes: &Vec<Node>,
    made: &Table<RenderNode>,
    keys: &Vec<ClipKey>,
) -> (r: Vec<RenderLayer>)
    ensures
        r@.len() == layers@.len(),
        forall|i: int|
            0 <= i < r@.len() ==> lowers_layer(
                layer_shapes(layers@)[i],
                forest(nodes@),
                made@,
                keys@,
                #[trigger] r@[i],
            ),
{
    let mut out: Vec<RenderLayer> = Vec::new();
    let mut i: usize = 0;
    while i < layers.len()
        invariant
            i <= layers@.len(),
            out@.len() == i,
            forall|j: int|
                0 <= j < i ==> lowers_layer(
                    layer_shapes(layers@)[j],
                    forest(nodes@),
                    made@,
                    keys@,
                    #[trigger] out@[j],
                ),
        decreases layers@.len() - i,
    {
        let l = &layers[i];
        let mask = if l.mask_nodes.is_empty() {
            None
        } else {
            let row = if l.include_descendants {
                expand_descendants(nodes, &l.mask_nodes)
            } else {
                l.mask_nodes.to_vec()
            };
            Some(lower_mask(&row, made))
        };
        let mode = match l.mode {
            LayerMode::Replace => RenderMode::Replace,
            LayerMode::Additive { base_clip } => RenderMode::Additive {
                base_clip: match base_clip {
                    Some(id) => find_key(keys, id),
                    None => None,
                },
            },
        };
        out.push(
            RenderLayer { mode, weight: l.weight, mask, strips: lower_strips(&l.strips, keys) },
        );
        i += 1;
    }
    out
}

/// The pose of a transform when nothing drives it.
#[derive(Clone, Copy, PartialEq, Eq, Structural, Debug)]
pub struct RestPose {
    pub transform: u64,
    pub pose: Trs,
}

/// The poses that the tracks of a clip start from: for each that drives a
/// placement, how its node stands in the scene, whatever the renderer shows.
pub open spec fn track_rests(ts: Seq<TrackShape>, nodes: Map<u128, RenderNode>, f: Seq<Tree>) -> Seq<
    RestPose,
>
    decreases ts.len(),
{
    if ts.len() == 0 {
        seq![]
    } else {
        let front = track_rests(ts.drop_last(), nodes, f);
        match ts.last().target {
            TrackTarget::Transform { node, .. } => if nodes.contains_key(node.0) && find(
                f,
                node,
            ) is Some {
                front.push(
                    RestPose {
                        transform: nodes[node.0].transform_key,
                        pose: find(f, node)->0.data.transform,
                    },
                )
            } else {
                front
            },
            _ => front,
        }
    }
}

/// The poses that the tracks of a clip start from, in the order of the tracks.
pub fn seed_transform_rests(clip: &Clip, made: &Table<RenderNode>, nodes: &Vec<Node>) -> (r: Vec<
    RestPose,
>)
    ensures
        r@ == track_rests(clip.shape().tracks, made@, forest(nodes@)),
{
    let ghost ts = clip.shape().tracks;
    let mut out: Vec<RestPose> = Vec::new();
    let mut i: usize = 0;
    while i < clip.tracks.len()
        invariant
            i <= clip.tracks@.len(),
            ts == clip.shape().tracks,
            ts.len() == clip.tracks@.len(),
            out@ == track_rests(ts.take(i as int), made@, forest(nodes@)),
        decreases clip.tracks@.len() - i,
    {
        let t = clip.tracks.at(i);
        assert(ts[i as int] == t.shape());
        if let TrackTarget::Transform { node, .. } = &t.target {
            if let Some(m) = made.get(node.0) {
                if let Some(n) = find_by_id(nodes, *node) {
                    out.push(RestPose { transform: m.transform_key, pose: n.data.transform });
                }
            }
        }
        i += 1;
        assert(ts.take(i as int).drop_last() =~= ts.take(i - 1));
    }
    assert(ts.take(i as int) =~= ts);
    out
}

/// Whether the clips are about to be lowered again.
pub struct Relower {
    pub pending: bool,
}

impl Relower {
    /// Nothing is due.
    pub fn new() -> (r: Relower)
        ensures
            !r.pending,
    {
        Relower { pending: false }
    }

    /// Asks for the clips to be lowered. Whether a timer is to be started: a
    /// request while one runs joins it.
    pub fn schedule_relower(&mut self) -> (start: bool)
        ensures
            start == !old(self).pending,
            final(self).pending,
    {
        let start = !self.pending;
        self.pending = true;
        start
    }

    /// The timer has run out: the clips are lowered now.
    pub fn due(&mut self)
        ensures
            !final(self).pending,
    {
        self.pending = false;
    }
}

} // verus!

//! The state of the editor, told to whoever looks at it from outside.
use crate::assets::{AssetEntry, AssetSource, TextureDef};
use crate::clips::{clip_shapes, Clip, ClipShape, TrackTarget, TransformProp};
use crate::custom_material::{CompileError, CustomMaterial, Slot};
use crate::ids::{hyphenated, id_text, AssetId, NodeId};
use crate::list::{List, Same};
use crate::palette::{BuiltinTextureSlot, MaterialDef};
use crate::readback::{builtin_name, builtin_param_text, camera_name, camera_param_text, light_name, light_param_text};
use crate::clips::TextureTransformProp;
use crate::scene_query::{get_subtree, outlines, NodeOutline};
use crate::session::EditorMode;
use crate::table::Table;
use crate::text::{chars_of, decimal, decimal_text, joined, joined3, last_of, last_position, lowercase, lowercased, text_of};
use crate::timeline::{Timeline, TimelineView};
use crate::values::{Vec3, F64};
use crate::workspace::{WorkView, Workspace};
use crate::world::{EnvSlot, EnvironmentConfig};
use vstd::prelude::*;

verus! {

/// Whether texts are the ids of a row.
pub open spec fn tells_ids(row: Seq<u128>, texts: Seq<String>) -> bool {
    &&& texts.len() == row.len()
    &&& forall|i: int| 0 <= i < row.len() ==> (#[trigger] texts[i])@ == hyphenated(row[i])
}

/// Whether a text is that of an id, where there is one.
pub open spec fn tells_id(id: Option<u128>, text: Option<String>) -> bool {
    match (id, text) {
        (Some(n), Some(t)) => t@ == hyphenated(n),
        (None, None) => true,
        _ => false,
    }
}

/// What fills a slot of the environment.
#[derive(Clone, Copy, PartialEq, Eq, Structural, Debug)]
pub enum EnvSlotKind {
    BuiltIn,
    SkyGradient,
    Ktx,
}

/// A slot of the environment.
pub struct EnvSlotSnapshot {
    pub kind: EnvSlotKind,
    pub asset_id: Option<String>,
    pub label: Option<String>,
    pub gradient: Option<(Vec3, Vec3)>,
}

/// The environment.
pub struct EnvironmentSnapshot {
    pub skybox: EnvSlotSnapshot,
    pub specular: EnvSlotSnapshot,
    pub irradiance: EnvSlotSnapshot,
    pub probe: bool,
}

/// What follows the last slash of a text.
pub open spec fn after_slash(s: Seq<char>) -> Seq<char> {
    s.skip(last_of(s, '/') + 1)
}

/// What an asset of the environment is called: a file by its name, an address by
/// what follows its last slash.
pub open spec fn env_label(assets: Map<u128, AssetEntry>, id: AssetId) -> Option<Seq<char>> {
    if assets.contains_key(id.0) {
        match assets[id.0].source {
            AssetSource::Filename(s) => Some(s@),
            AssetSource::Url(s) => Some(after_slash(s@)),
            _ => None,
        }
    } else {
        None
    }
}

/// Whether an answer tells a slot of the environment.
pub open spec fn tells_slot(s: EnvSlot, assets: Map<u128, AssetEntry>, r: EnvSlotSnapshot) -> bool {
    match s {
        EnvSlot::BuiltInDefault => {
            &&& r.kind == EnvSlotKind::BuiltIn
            &&& r.asset_id is None
            &&& r.label is None
            &&& r.gradient is None
        },
        EnvSlot::SkyGradient { zenith, nadir } => {
            &&& r.kind == EnvSlotKind::SkyGradient
            &&& r.asset_id is None
            &&& r.label is None
            &&& r.gradient == Some((zenith, nadir))
        },
        EnvSlot::Ktx { asset_id } => {
            &&& r.kind == EnvSlotKind::Ktx
            &&& tells_id(Some(asset_id.0), r.asset_id)
            &&& r.gradient is None
            &&& match env_label(assets, asset_id) {
                Some(l) => r.label is Some && r.label->0@ == l,
                None => r.label is None,
            }
        },
    }
}

fn last_segment(url: &str) -> (r: String)
    ensures
        r@ == after_slash(url@),
{
    let chars = chars_of(url);
    let len: usize = chars.len();
    match last_position(&chars, '/') {
        Some(i) => {
            assert(i < len);
            assert(chars@.subrange(i + 1, chars@.len() as int) =~= url@.skip(i + 1));
            text_of(&chars, i + 1, len)
        },
        None => {
            assert(url@.skip(0) =~= url@);
            url.to_owned()
        },
    }
}

fn slot_snapshot(s: EnvSlot, assets: &Table<AssetEntry>) -> (r: EnvSlotSnapshot)
    ensures
        tells_slot(s, assets@, r),
{
    match s {
        EnvSlot::BuiltInDefault => EnvSlotSnapshot {
            kind: EnvSlotKind::BuiltIn,
            asset_id: None,
            label: None,
            gradient: None,
        },
        EnvSlot::SkyGradient { zenith, nadir } => EnvSlotSnapshot {
            kind: EnvSlotKind::SkyGradient,
            asset_id: None,
            label: None,
            gradient: Some((zenith, nadir)),
        },
        EnvSlot::Ktx { asset_id } => {
            let label = match assets.get(asset_id.0) {
                Some(e) => match &e.source {
                    AssetSource::Filename(name) => Some(name.clone()),
                    AssetSource::Url(url) => Some(last_segment(url)),
                    _ => None,
                },
                None => None,
            };
            EnvSlotSnapshot {
                kind: EnvSlotKind::Ktx,
                asset_id: Some(id_text(asset_id.0)),
                label,
                gradient: None,
            }
        },
    }
}

/// Whether an answer tells the environment.
pub open spec fn tells_environment(
    env: EnvironmentConfig,
    assets: Map<u128, AssetEntry>,
    r: EnvironmentSnapshot,
) -> bool {
    &&& tells_slot(env.skybox, assets, r.skybox)
    &&& tells_slot(env.specular, assets, r.specular)
    &&& tells_slot(env.irradiance, assets, r.irradiance)
    &&& r.probe == env.probe
}

/// The environment, slot by slot.
pub fn environment_snapshot(env: EnvironmentConfig, assets: &Table<AssetEntry>) -> (r:
    EnvironmentSnapshot)
    ensures
        tells_environment(env, assets@, r),
{
    EnvironmentSnapshot {
        skybox: slot_snapshot(env.skybox, assets),
        specular: slot_snapshot(env.specular, assets),
        irradiance: slot_snapshot(env.irradiance, assets),
        probe: env.probe,
    }
}

/// A texture asset.
pub struct TextureSnapshot {
    pub id: String,
    pub name: String,
    pub kind: &'static str,
}

/// Whether an entry is that of a texture.
pub open spec fn is_texture(e: AssetEntry) -> bool {
    e.source is Texture
}

/// Whether an answer tells a texture asset.
pub open spec fn tells_texture(id: u128, e: AssetEntry, r: TextureSnapshot) -> bool {
    &&& r.id@ == hyphenated(id)
    &&& match e.source {
        AssetSource::Texture(TextureDef::Procedural(_)) => r.kind@ == "procedural"@ && r.name@
            == "texture "@ + hyphenated(id),
        AssetSource::Texture(TextureDef::Raster { display_name, .. }) => r.kind@ == "raster"@
            && r.name@ == display_name@,
        _ => false,
    }
}

/// Whether answers tell the texture assets: each of them once.
pub open spec fn tells_textures(assets: Map<u128, AssetEntry>, keys: Seq<u128>, r: Seq<TextureSnapshot>) -> bool {
    &&& keys.no_duplicates()
    &&& keys.len() == r.len()
    &&& forall|k: u128|
        #[trigger] keys.contains(k) <==> assets.contains_key(k) && is_texture(assets[k])
    &&& forall|i: int|
        0 <= i < r.len() ==> tells_texture(keys[i], assets[keys[i]], #[trigger] r[i])
}

/// The texture assets, each once, in no particular order.
pub fn texture_snapshots(assets: &Table<AssetEntry>) -> (r: Vec<TextureSnapshot>)
    ensures
        exists|keys: Seq<u128>| #[trigger] tells_textures(assets@, keys, r@),
{
    let all = assets.keys();
    let ghost mut keys: Seq<u128> = Seq::empty();
    let mut out: Vec<TextureSnapshot> = Vec::new();
    let mut i: usize = 0;
    while i < all.len()
        invariant
            i <= all@.len(),
            all@.no_duplicates(),
            forall|k: u128| all@.contains(k) == #[trigger] assets@.dom().contains(k),
            keys.no_duplicates(),
            keys.len() == out@.len(),
            forall|k: u128|
                #[trigger] keys.contains(k) <==> all@.take(i as int).contains(k) && is_texture(
                    assets@[k],
                ),
            forall|j: int|
                0 <= j < out@.len() ==> tells_texture(
                    keys[j],
                    assets@[keys[j]],
                    #[trigger] out@[j],
                ),
        decreases all@.len() - i,
    {
        let k: u128 = all[i];
        let ghost had = all@.take(i as int);
        let ghost now = all@.take(i + 1);
        let ghost was = keys;
        assert(all@.contains(k));
        proof {
            assert(!had.contains(k)) by {
                if had.contains(k) {
                    let j = choose|j: int| 0 <= j < had.len() && had[j] == k;
                    assert(all@[j] == all@[i as int]);
                }
            }
            assert forall|x: u128| now.contains(x) == (had.contains(x) || x == k) by {
                if had.contains(x) {
                    let j = choose|j: int| 0 <= j < had.len() && had[j] == x;
                    assert(now[j] == x);
                }
                assert(now[i as int] == k);
                if now.contains(x) && x != k {
                    let j = choose|j: int| 0 <= j < now.len() && now[j] == x;
                    assert(had[j] == x);
                }
            }
        }
        if let Some(e) = assets.get(k) {
            if let AssetSource::Texture(def) = &e.source {
                let id = id_text(k);
                let t = match def {
                    TextureDef::Procedural(_) => TextureSnapshot {
                        name: joined("texture ", &id),
                        id,
                        kind: "procedural",
                    },
                    TextureDef::Raster { display_name, .. } => TextureSnapshot {
                        name: display_name.clone(),
                        id,
                        kind: "raster",
                    },
                };
                out.push(t);
                proof {
                    assert(!was.contains(k));
                    keys = was.push(k);
                    assert forall|x: u128| #[trigger] keys.contains(x) <==> (was.contains(x) || x
                        == k) by {
                        if was.contains(x) {
                            let j = choose|j: int| 0 <= j < was.len() && was[j] == x;
                            assert(keys[j] == x);
                        }
                        assert(keys[was.len() as int] == k);
                        if keys.contains(x) && x != k {
                            let j = choose|j: int| 0 <= j < keys.len() && keys[j] == x;
                            assert(was[j] == x);
                        }
                    }
                }
            }
        }
        i += 1;
        proof {
            assert forall|x: u128| #[trigger] keys.contains(x) <==> now.contains(x) && is_texture(
                assets@[x],
            ) by {
                assert(was.contains(x) <==> had.contains(x) && is_texture(assets@[x]));
            }
        }
    }
    proof {
        assert(all@.take(i as int) =~= all@);
        assert forall|k: u128| #[trigger] keys.contains(k) <==> assets@.contains_key(k)
            && is_texture(assets@[k]) by {
            assert(all@.contains(k) == assets@.dom().contains(k));
        }
        assert(tells_textures(assets@, keys, out@));
    }
    out
}

/// The name of a property of a placement.
pub open spec fn prop_name(p: TransformProp) -> Seq<char> {
    match p {
        TransformProp::Translation => "Translation"@,
        TransformProp::Rotation => "Rotation"@,
        TransformProp::Scale => "Scale"@,
    }
}

/// The name of a property of a texture's placement.
pub open spec fn uv_prop_name(p: TextureTransformProp) -> Seq<char> {
    match p {
        TextureTransformProp::Offset => "Offset"@,
        TextureTransformProp::Scale => "Scale"@,
        TextureTransformProp::Rotation => "Rotation"@,
    }
}

/// What a track drives, in words, before they are put in lower case.
pub open spec fn target_words(t: TrackTarget) -> Seq<char> {
    match t {
        TrackTarget::Transform { prop, .. } => "transform:"@ + prop_name(prop),
        TrackTarget::Morph { index, .. } => "morph:"@ + decimal(index as nat),
        TrackTarget::Uniform { name, .. } => "uniform:"@ + name@,
        TrackTarget::BuiltinParam { param, .. } => "builtin:"@ + builtin_name(param),
        TrackTarget::Light { param, .. } => "light:"@ + light_name(param),
        TrackTarget::Camera { param, .. } => "camera:"@ + camera_name(param),
        TrackTarget::TextureTransform { slot, prop, .. } => "texuv:"@ + crate::errors::slot_text(slot)
            + ":"@ + uv_prop_name(prop),
    }
}

/// What a track drives, in words.
pub fn target_text(t: &TrackTarget) -> (r: String)
    ensures
        r@ == lowercase(target_words(*t)),
{
    let words = match t {
        TrackTarget::Transform { prop, .. } => joined(
            "transform:",
            match prop {
                TransformProp::Translation => "Translation",
                TransformProp::Rotation => "Rotation",
                TransformProp::Scale => "Scale",
            },
        ),
        TrackTarget::Morph { index, .. } => joined("morph:", &decimal_text(*index as u64)),
        TrackTarget::Uniform { name, .. } => joined("uniform:", name),
        TrackTarget::BuiltinParam { param, .. } => joined("builtin:", builtin_param_text(*param)),
        TrackTarget::Light { param, .. } => joined("light:", light_param_text(*param)),
        TrackTarget::Camera { param, .. } => joined("camera:", camera_param_text(*param)),
        TrackTarget::TextureTransform { slot, prop, .. } => {
            let front = joined3(
                "texuv:",
                match slot {
                    BuiltinTextureSlot::BaseColor => "BaseColor",
                    BuiltinTextureSlot::MetallicRoughness => "MetallicRoughness",
                    BuiltinTextureSlot::Normal => "Normal",
                    BuiltinTextureSlot::Occlusion => "Occlusion",
                    BuiltinTextureSlot::Emissive => "Emissive",
                },
                ":",
            );
            joined(
                &front,
                match prop {
                    TextureTransformProp::Offset => "Offset",
                    TextureTransformProp::Scale => "Scale",
                    TextureTransformProp::Rotation => "Rotation",
                },
            )
        },
    };
    lowercased(&words)
}

/// A track of a clip: what it drives, and how many keys it has.
pub struct TrackSnapshot {
    pub target: String,
    pub keys: usize,
}

/// A clip.
pub struct ClipSnapshot {
    pub id: String,
    pub name: String,
    pub duration: F64,
    pub tracks: Vec<TrackSnapshot>,
}

/// Clips and transport.
pub struct AnimationSnapshot {
    pub clips: Vec<ClipSnapshot>,
    pub current_clip: Option<String>,
    pub playhead: F64,
    pub playing: bool,
    pub fps: u32,
    pub solo_root: Option<String>,
    pub mixer_layers: usize,
}

/// Whether an answer tells a clip.
pub open spec fn tells_clip(c: ClipShape, r: ClipSnapshot) -> bool {
    &&& r.id@ == hyphenated(c.id.0)
    &&& r.name@ == c.name
    &&& r.duration == c.duration
    &&& r.tracks@.len() == c.tracks.len()
    &&& forall|i: int|
        0 <= i < r.tracks@.len() ==> (#[trigger] r.tracks@[i]).target@ == lowercase(
            target_words(c.tracks[i].target),
        ) && r.tracks@[i].keys == c.tracks[i].keys.len()
}

/// Whether an answer tells the clips and the transport.
pub open spec fn tells_animation(v: TimelineView, r: AnimationSnapshot) -> bool {
    &&& r.clips@.len() == v.clips.len()
    &&& forall|i: int| 0 <= i < r.clips@.len() ==> tells_clip(v.clips[i], #[trigger] r.clips@[i])
    &&& tells_id(
        match v.current_clip {
            Some(id) => Some(id.0),
            None => None,
        },
        r.current_clip,
    )
    &&& r.playhead == v.playhead
    &&& r.playing == v.playing
    &&& r.fps == v.fps
    &&& tells_id(
        match v.solo_root {
            Some(id) => Some(id.0),
            None => None,
        },
        r.solo_root,
    )
    &&& r.mixer_layers == v.layers.len()
}

fn clip_snapshot(c: &Clip) -> (r: ClipSnapshot)
    ensures
        tells_clip(c.shape(), r),
{
    let mut tracks: Vec<TrackSnapshot> = Vec::new();
    let ghost ts = c.shape().tracks;
    let mut i: usize = 0;
    while i < c.tracks.len()
        invariant
            i <= c.tracks@.len(),
            tracks@.len() == i,
            ts == c.shape().tracks,
            forall|j: int|
                0 <= j < i ==> (#[trigger] tracks@[j]).target@ == lowercase(
                    target_words(ts[j].target),
                ) && tracks@[j].keys == ts[j].keys.len(),
        decreases c.tracks@.len() - i,
    {
        let t = c.tracks.at(i);
        assert(ts[i as int] == t.shape());
        tracks.push(TrackSnapshot { target: target_text(&t.target), keys: t.keys.len() });
        i += 1;
    }
    ClipSnapshot { id: id_text(c.id.0), name: c.name.clone(), duration: c.duration, tracks }
}

/// The clips and the transport.
pub fn animation_snapshot(t: &Timeline) -> (r: AnimationSnapshot)
    ensures
        tells_animation(t@, r),
{
    let mut clips: Vec<ClipSnapshot> = Vec::new();
    let mut i: usize = 0;
    while i < t.clips.len()
        invariant
            i <= t.clips@.len(),
            clips@.len() == i,
            forall|j: int|
                0 <= j < i ==> tells_clip(clip_shapes(t.clips@)[j], #[trigger] clips@[j]),
        decreases t.clips@.len() - i,
    {
        clips.push(clip_snapshot(&t.clips[i]));
        i += 1;
    }
    AnimationSnapshot {
        clips,
        current_clip: match t.current_clip {
            Some(id) => Some(id_text(id.0)),
            None => None,
        },
        playhead: t.playhead,
        playing: t.playing,
        fps: t.fps,
        solo_root: match t.solo_root {
            Some(id) => Some(id_text(id.0)),
            None => None,
        },
        mixer_layers: t.layers.len(),
    }
}

/// A material of the library.
pub struct MaterialSnapshot {
    pub id: String,
    pub name: String,
    pub registered: bool,
    pub builtin: bool,
    pub builtin_def: Option<MaterialDef>,
    pub uniforms: Vec<String>,
    pub compile_ok: bool,
    pub errors: List<CompileError>,
}

/// Whether an answer tells a material.
pub open spec fn tells_library_material(m: CustomMaterial, r: MaterialSnapshot) -> bool {
    &&& r.id@ == hyphenated(m.id.0)
    &&& r.name == m.name
    &&& r.registered == m.registered
    &&& r.builtin == m.builtin is Some
    &&& r.builtin_def == m.builtin
    &&& r.uniforms@ == Seq::new(m.uniforms@.len(), |i: int| m.uniforms@[i].name)
    &&& r.compile_ok == (m.last_diagnostics@.len() == 0)
    &&& r.errors == m.last_diagnostics
}

fn slot_names(slots: &List<Slot>) -> (r: Vec<String>)
    ensures
        r@ == Seq::new(slots@.len(), |i: int| slots@[i].name),
{
    let mut out: Vec<String> = Vec::new();
    let mut i: usize = 0;
    while i < slots.len()
        invariant
            i <= slots@.len(),
            out@ == Seq::new(i as nat, |j: int| slots@[j].name),
        decreases slots@.len() - i,
    {
        out.push(slots.at(i).name.clone());
        i += 1;
        assert(out@ =~= Seq::new(i as nat, |j: int| slots@[j].name));
    }
    out
}

/// A material of the library.
pub fn material_snapshot(m: &CustomMaterial) -> (r: MaterialSnapshot)
    ensures
        tells_library_material(*m, r),
{
    MaterialSnapshot {
        id: id_text(m.id.0),
        name: m.name.clone(),
        registered: m.registered,
        builtin: m.builtin.is_some(),
        builtin_def: match &m.builtin {
            Some(d) => Some(d.same()),
            None => None,
        },
        uniforms: slot_names(&m.uniforms),
        compile_ok: m.last_diagnostics.is_empty(),
        errors: m.last_diagnostics.clone(),
    }
}

/// The project.
pub struct ProjectSnapshot {
    pub name: String,
    pub dirty: bool,
    /// Whether the environment differs from the one that was last saved.
    pub env_unsaved: bool,
    pub missing_assets: Vec<String>,
    pub environment: EnvironmentSnapshot,
    pub coordinate_system: &'static str,
    pub units: String,
}

/// The state of the editor.
pub struct EditorSnapshot {
    pub mode: EditorMode,
    pub project: ProjectSnapshot,
    pub scene_tree: Vec<NodeOutline>,
    pub selection: Vec<String>,
    pub undo_depth: usize,
    pub redo_depth: usize,
    pub animation: AnimationSnapshot,
    pub materials: Vec<MaterialSnapshot>,
    pub textures: Vec<TextureSnapshot>,
}

/// The numbers of node ids.
pub open spec fn node_numbers(row: Seq<NodeId>) -> Seq<u128> {
    Seq::new(row.len(), |i: int| row[i].0)
}

/// The numbers of asset ids.
pub open spec fn asset_numbers(row: Seq<AssetId>) -> Seq<u128> {
    Seq::new(row.len(), |i: int| row[i].0)
}

/// Whether an answer tells the project.
pub open spec fn tells_project(v: WorkView, r: ProjectSnapshot) -> bool {
    &&& r.name@ == v.project_name
    &&& r.dirty == v.dirty
    &&& r.env_unsaved == (v.world.environment != v.baseline)
    &&& tells_ids(asset_numbers(v.missing_assets), r.missing_assets@)
    &&& tells_environment(v.world.environment, v.store.assets, r.environment)
    &&& r.coordinate_system@ == "right-handed, Y-up, -Z forward"@
    &&& r.units@ == v.session.settings.units@
}

/// Whether an answer tells the state of the editor.
pub open spec fn tells_state(v: WorkView, undo: nat, redo: nat, r: EditorSnapshot) -> bool {
    &&& r.mode == v.session.mode
    &&& tells_project(v, r.project)
    &&& r.scene_tree@.len() == v.nodes.len()
    &&& forall|i: int|
        0 <= i < r.scene_tree@.len() ==> outlines(v.nodes[i], #[trigger] r.scene_tree@[i])
    &&& tells_ids(node_numbers(v.session.selected), r.selection@)
    &&& r.undo_depth == undo
    &&& r.redo_depth == redo
    &&& tells_animation(v.timeline, r.animation)
    &&& r.materials@.len() == v.library.materials.len()
    &&& forall|i: int|
        0 <= i < r.materials@.len() ==> tells_library_material(
            v.library.materials[i],
            #[trigger] r.materials@[i],
        )
    &&& exists|keys: Seq<u128>| #[trigger] tells_textures(v.store.assets, keys, r.textures@)
}

fn node_texts(row: &Vec<NodeId>) -> (r: Vec<String>)
    ensures
        tells_ids(node_numbers(row@), r@),
{
    let mut out: Vec<String> = Vec::new();
    let mut i: usize = 0;
    while i < row.len()
        invariant
            i <= row@.len(),
            out@.len() == i,
            forall|j: int| 0 <= j < i ==> (#[trigger] out@[j])@ == hyphenated(row@[j].0),
        decreases row@.len() - i,
    {
        out.push(id_text(row[i].0));
        i += 1;
    }
    out
}

fn asset_texts(row: &Vec<AssetId>) -> (r: Vec<String>)
    ensures
        tells_ids(asset_numbers(row@), r@),
{
    let mut out: Vec<String> = Vec::new();
    let mut i: usize = 0;
    while i < row.len()
        invariant
            i <= row@.len(),
            out@.len() == i,
            forall|j: int| 0 <= j < i ==> (#[trigger] out@[j])@ == hyphenated(row@[j].0),
        decreases row@.len() - i,
    {
        out.push(id_text(row[i].0));
        i += 1;
    }
    out
}

fn material_snapshots(ms: &Vec<CustomMaterial>) -> (r: Vec<MaterialSnapshot>)
    ensures
        r@.len() == ms@.len(),
        forall|i: int|
            0 <= i < r@.len() ==> tells_library_material(ms@[i], #[trigger] r@[i]),
{
    let mut out: Vec<MaterialSnapshot> = Vec::new();
    let mut i: usize = 0;
    while i < ms.len()
        invariant
            i <= ms@.len(),
            out@.len() == i,
            forall|j: int| 0 <= j < i ==> tells_library_material(ms@[j], #[trigger] out@[j]),
        decreases ms@.len() - i,
    {
        out.push(material_snapshot(&ms[i]));
        i += 1;
    }
    out
}

fn project_snapshot(w: &Workspace) -> (r: ProjectSnapshot)
    ensures
        tells_project(w@, r),
{
    ProjectSnapshot {
        name: w.project_name.clone(),
        dirty: w.dirty,
        env_unsaved: w.world.environment != w.env_saved_baseline,
        missing_assets: asset_texts(&w.missing_assets),
        environment: environment_snapshot(w.world.environment, &w.store.assets),
        coordinate_system: "right-handed, Y-up, -Z forward",
        units: w.session.settings.units.clone(),
    }
}

fn outline_all(w: &Workspace) -> (r: Vec<NodeOutline>)
    ensures
        r@.len() == w@.nodes.len(),
        forall|i: int| 0 <= i < r@.len() ==> outlines(w@.nodes[i], #[trigger] r@[i]),
{
    match get_subtree(&w.nodes, None) {
        Ok(row) => row,
        Err(_) => Vec::new(),
    }
}

/// The state of the editor. `undo_depth` and `redo_depth` count the steps that can
/// be undone and redone.
pub fn snapshot(w: &Workspace, undo_depth: usize, redo_depth: usize) -> (r: EditorSnapshot)
    ensures
        tells_state(w@, undo_depth as nat, redo_depth as nat, r),
{
    let textures = texture_snapshots(&w.store.assets);
    let ghost keys = choose|keys: Seq<u128>|
        #[trigger] tells_textures(w.store.assets@, keys, textures@);
    let r = EditorSnapshot {
        mode: w.session.mode,
        project: project_snapshot(w),
        scene_tree: outline_all(w),
        selection: node_texts(&w.session.selected),
        undo_depth,
        redo_depth,
        animation: animation_snapshot(&w.timeline),
        materials: material_snapshots(&w.library.materials),
        textures,
    };
    assert(tells_textures(w@.store.assets, keys, r.textures@));
    r
}

} // verus!

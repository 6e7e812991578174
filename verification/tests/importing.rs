//! Bringing models into a project.
use scene_editor::asset_template::{
    assemble_skin_joints, build_from_context, hide_template_meshes, light_config_from_gltf,
    remove_template_meshes, template_needs_default_material, AssetTemplate, AssetTemplateNode,
    Primitive, Removal, SnapshotLookups, SourceLight, SourceLightKind, SourceNode,
};
use scene_editor::assets::{
    content_hash, AssetSource, CapturedSource, MeshData, TextureColorKind, TextureDef,
};
use scene_editor::bundle::{BundleResources, Leftover};
use scene_editor::clips::{Interp, SamplerKind, TrackTarget, TrackValue, TransformProp};
use scene_editor::errors::EditorError;
use scene_editor::ids::{AssetId, NodeId};
use scene_editor::import_clips::{
    AnimationData, ExtractedAnimation, ExtractedChannel, ExtractedProperty, PartialTransform,
    CLIP_PLACE,
};
use scene_editor::import_library::{
    ensure_import_texture, BakedTexture, ExportImage, ExtTexture, ExtractedMaterial, ImportTexture,
    TexBinding, MATERIAL_PLACE, TEXTURE_PLACE,
};
use scene_editor::import_scene::{id_after, map_nodes, NodeMesh};
use scene_editor::library_edit::ValidKeys;
use scene_editor::list::List;
use scene_editor::material::{ClearcoatExt, MaterialShading, PbrExtensions};
use scene_editor::model_import::{finish_model_import, ModelImport, FILE_PLACE};
use scene_editor::node::{LightConfig, NodeKind};
use scene_editor::palette::MaterialDef;
use scene_editor::table::Table;
use scene_editor::tree::find_by_id;
use scene_editor::values::{Trs, Vec3, Vec4, F32, F64};
use scene_editor::workspace::Workspace;

const BASE: u128 = 1000;

fn n(x: f32) -> F32 {
    F32 { bits: x.to_bits() }
}

fn d(x: f64) -> F64 {
    F64 { bits: x.to_bits() }
}

fn v3(x: f32, y: f32, z: f32) -> Vec3 {
    Vec3 { x: n(x), y: n(y), z: n(z) }
}

fn primitive(mesh_key: u64, material: Option<usize>) -> Primitive {
    Primitive {
        mesh_key,
        material_key: mesh_key + 100,
        material_index: material,
        skinned: false,
        morphs: false,
    }
}

fn node(index: u32, label: Option<&str>, primitives: Vec<Primitive>) -> AssetTemplateNode {
    AssetTemplateNode {
        gltf_node_index: index,
        baked_transform_key: 500 + index as u64,
        is_skin_joint: false,
        label: label.map(|s| s.to_string()),
        local: Trs { translation: v3(index as f32, 0.0, 0.0), ..Trs::identity() },
        primitives: List::from_vec(primitives),
        morph_target_names: List::empty(),
        light: None,
        children: Vec::new(),
    }
}

fn triangle() -> MeshData {
    MeshData {
        positions: List::from_vec(vec![v3(0.0, 0.0, 0.0), v3(1.0, 0.0, 0.0), v3(0.0, 1.0, 0.0)]),
        normals: None,
        uvs: List::empty(),
        uvs1: None,
        colors: None,
        tangents: None,
        indices: List::from_vec(vec![0, 1, 2]),
    }
}

fn geometry(node_index: u32, primitive: Option<u32>) -> NodeMesh {
    NodeMesh { node_index, primitive, mesh: triangle(), tangents: None }
}

fn binding(uv_index: u32) -> TexBinding {
    TexBinding { uv_index, transform: None, sampler: None }
}

fn baked(key: u64, uv_index: u32) -> Option<BakedTexture> {
    Some(BakedTexture { key, binding: binding(uv_index) })
}

fn material(label: &str) -> ExtractedMaterial {
    ExtractedMaterial {
        def: MaterialDef::plain(label.to_string(), MaterialShading::Pbr),
        color: "#ff8000".to_string(),
        base_color: None,
        metallic_roughness: None,
        normal: None,
        occlusion: None,
        emissive: None,
        ext_textures: Vec::new(),
    }
}

fn model(name: &str, roots: Vec<AssetTemplateNode>) -> ModelImport {
    ModelImport {
        display_name: name.to_string(),
        roots,
        materials: Vec::new(),
        images: Table::new(),
        meshes: Vec::new(),
        rig: Table::new(),
        animations: Vec::new(),
    }
}

fn fresh() -> Workspace {
    Workspace::new(ValidKeys { includes: Vec::new(), inputs: Vec::new() })
}

fn move_channel(node_index: u32, duration: f64) -> ExtractedChannel {
    let at = |x: f32| {
        AnimationData::Transform(PartialTransform {
            translation: Some(v3(x, 0.0, 0.0)),
            rotation: None,
            scale: None,
        })
    };
    ExtractedChannel {
        node_index,
        property: ExtractedProperty::Translation,
        sampler: SamplerKind::Linear,
        times: List::from_vec(vec![d(0.0), d(duration)]),
        values: vec![at(0.0), at(2.0)],
        in_tangents: Vec::new(),
        out_tangents: Vec::new(),
        duration: d(duration),
    }
}

#[test]
fn model_without_nodes_is_refused() {
    let mut w = fresh();
    match finish_model_import(&mut w, model("empty.glb", Vec::new()), BASE) {
        Err(EditorError::EmptyModel) => {}
        _ => panic!("refused"),
    }
    assert_eq!(EditorError::EmptyModel.message(), "this model contains no nodes to insert");
    assert!(w.nodes.is_empty() && !w.dirty);
}

#[test]
fn nodes_follow_in_preorder_and_are_named() {
    let mut top = node(4, None, Vec::new());
    top.children.push(node(7, None, Vec::new()));
    top.children.push(node(8, Some("Arm"), Vec::new()));
    let mut w = fresh();
    let done = match finish_model_import(&mut w, model("robot.glb", vec![top, node(9, None, Vec::new())]), BASE) {
        Ok(d) => d,
        Err(_) => panic!("imported"),
    };
    assert_eq!(w.nodes.len(), 2);
    assert_eq!(w.nodes[0].id, NodeId(BASE));
    assert_eq!(w.nodes[0].data.name, "robot.glb");
    assert_eq!(w.nodes[0].children[0].id, NodeId(BASE + 1));
    assert_eq!(w.nodes[0].children[0].data.name, "Node 7");
    assert_eq!(w.nodes[0].children[1].data.name, "Arm");
    assert_eq!(w.nodes[1].id, NodeId(BASE + 3));
    assert!(w.dirty);
    assert_eq!(w.scene_revision, 1);
    assert_eq!(done.node_count, 4);
    assert_eq!(done.roots.len(), 2);
    assert_eq!(done.roots[0].name, "robot.glb");
    assert_eq!(
        done.instances,
        vec![NodeId(BASE), NodeId(BASE + 1), NodeId(BASE + 2), NodeId(BASE + 3)]
    );
    assert_eq!(done.source, AssetId(BASE + FILE_PLACE));
    match w.store.assets.get(done.source.0).map(|e| &e.source) {
        Some(AssetSource::Filename(s)) => assert_eq!(s, "robot.glb"),
        _ => panic!("a file"),
    }
}

#[test]
fn one_material_makes_one_mesh() {
    let mut imp = model("a.glb", vec![node(0, Some("Box"), vec![primitive(1, Some(0)), primitive(2, Some(0))])]);
    imp.materials.push(material("Steel"));
    imp.meshes.push(geometry(0, None));
    let mut w = fresh();
    assert!(finish_model_import(&mut w, imp, BASE).is_ok());
    assert_eq!(w.nodes[0].children.len(), 0);
    match &w.nodes[0].data.kind {
        NodeKind::Mesh { mesh, palette, .. } => {
            assert_eq!(*mesh, AssetId(BASE));
            assert_eq!(palette.variants.len(), 1);
            assert_eq!(palette.variants.at(0).name, "Steel");
            assert_eq!(palette.variants.at(0).instance.asset, AssetId(BASE + MATERIAL_PLACE));
            assert_eq!(palette.selected, Some(palette.variants.at(0).id));
        }
        _ => panic!("a mesh"),
    }
    assert_eq!(w.store.geometry.get(BASE).unwrap().indices.len(), 3);
    match w.store.assets.get(BASE).map(|e| &e.source) {
        Some(AssetSource::Mesh(def)) => {
            assert_eq!(def.label, "Box");
            assert!(def.editable);
            assert_eq!(
                def.source,
                Some(CapturedSource::Imported { source: AssetId(BASE + FILE_PLACE) })
            );
        }
        _ => panic!("a mesh asset"),
    }
    assert_eq!(w.library.materials[0].color, "#ff8000");
}

#[test]
fn several_materials_split_a_node() {
    let mut top = node(0, Some("Car"), vec![primitive(1, Some(0)), primitive(2, Some(1)), primitive(3, None)]);
    top.children.push(node(1, Some("Wheel"), Vec::new()));
    let mut imp = model("car.glb", vec![top]);
    imp.materials.push(material("Paint"));
    imp.materials.push(material(""));
    imp.meshes.push(geometry(0, Some(0)));
    imp.meshes.push(geometry(0, Some(1)));
    let mut w = fresh();
    assert!(finish_model_import(&mut w, imp, BASE).is_ok());
    let car = &w.nodes[0];
    assert!(matches!(car.data.kind, NodeKind::Group));
    assert_eq!(car.children.len(), 4);
    assert_eq!(car.children[0].data.name, "Paint");
    assert_eq!(car.children[0].data.transform, Trs::identity());
    assert_eq!(car.children[1].data.name, "Material");
    assert_eq!(car.children[2].data.name, "Default");
    assert!(matches!(car.children[2].data.kind, NodeKind::Group), "no geometry");
    assert_eq!(car.children[3].data.name, "Wheel");
    assert_eq!(car.children[3].id, NodeId(BASE + 1));
    assert_eq!(car.children[0].id, NodeId(BASE + (1u128 << 64)));
    // The last material is the one for meshes without a material.
    let last = w.library.materials.last().unwrap();
    assert_eq!(last.name, "Default");
    let def = last.builtin.as_ref().unwrap();
    assert_eq!(def.metallic, F32::one());
    assert_eq!(def.roughness, F32::one());
    assert_eq!(def.base_color, Vec4::white());
}

#[test]
fn deformed_meshes_keep_their_rig() {
    let mut p = primitive(1, Some(0));
    p.skinned = true;
    let mut body = node(2, Some("Body"), vec![p]);
    let mut bone = node(5, Some("Hip"), Vec::new());
    bone.is_skin_joint = true;
    body.children.push(bone);
    let mut imp = model("man.glb", vec![body]);
    imp.materials.push(material("Skin"));
    imp.meshes.push(geometry(2, None));
    imp.rig.insert(2, 20);
    imp.rig.insert(5, 50);
    let mut w = fresh();
    let done = match finish_model_import(&mut w, imp, BASE) {
        Ok(d) => d,
        Err(_) => panic!("imported"),
    };
    match &w.nodes[0].data.kind {
        NodeKind::SkinnedMesh { skin, .. } => {
            assert_eq!(skin.source, AssetId(BASE + FILE_PLACE));
            assert_eq!((skin.node_index, skin.rig_node_index), (2, 20));
            assert_eq!(skin.primitive_index, None);
            assert_eq!(skin.joints.len(), 1);
            assert_eq!(skin.joints.at(0).node, NodeId(BASE + 1));
            assert_eq!(skin.joints.at(0).index, 50);
        }
        _ => panic!("skinned"),
    }
    assert_eq!(done.poses.len(), 1);
    assert_eq!((done.poses[0].node_index, done.poses[0].primitive), (2, None));
    assert!(w.store.geometry.get(BASE).is_none(), "its geometry stays in the rig");
    assert_eq!(done.skin_joints, 1);
    assert_eq!(done.joints[0].node, NodeId(BASE + 1));
    assert_eq!(done.joints[0].key, 505);
    assert_eq!(w.rest.get(BASE + 1).unwrap().translation, v3(5.0, 0.0, 0.0));
}

#[test]
fn textures_are_brought_once() {
    let mut a = material("A");
    a.base_color = baked(7, 0);
    a.normal = baked(7, 1);
    let mut b = material("B");
    b.base_color = baked(7, 2);
    b.emissive = baked(8, 0);
    let mut imp = model("t.glb", vec![node(0, None, Vec::new())]);
    imp.materials.push(a);
    imp.materials.push(b);
    imp.images.insert(7, ExportImage { bytes: vec![1, 2, 3], ext: "png".to_string() });
    let mut w = fresh();
    let done = match finish_model_import(&mut w, imp, BASE) {
        Ok(d) => d,
        Err(_) => panic!("imported"),
    };
    assert_eq!(done.textures.len(), 2);
    let first = AssetId(BASE + TEXTURE_PLACE);
    let def = w.library.materials[0].builtin.as_ref().unwrap();
    assert_eq!(def.base_color_texture.unwrap().asset, first);
    assert_eq!(def.normal_texture.unwrap().asset, first);
    assert_eq!(def.normal_texture.unwrap().uv_index, 1);
    let def = w.library.materials[1].builtin.as_ref().unwrap();
    assert_eq!(def.base_color_texture.unwrap().asset, first);
    assert_eq!(def.emissive_texture.unwrap().asset, AssetId(BASE + TEXTURE_PLACE + 1));
    let e = w.store.assets.get(first.0).unwrap();
    assert_eq!(e.content_hash, content_hash(&vec![1, 2, 3]));
    match &e.source {
        AssetSource::Texture(TextureDef::Raster { display_name, color_kind }) => {
            assert_eq!(display_name, "A \u{b7} base color.png");
            assert_eq!(*color_kind, Some(TextureColorKind::Albedo));
        }
        _ => panic!("a picture"),
    }
    match w.store.assets.get(BASE + TEXTURE_PLACE + 1).map(|e| &e.source) {
        Some(AssetSource::Texture(TextureDef::Raster { display_name, .. })) => {
            assert_eq!(display_name, "B \u{b7} emissive");
        }
        _ => panic!("a picture"),
    }
    let file = w.store.assets.get(done.source.0).unwrap();
    assert_eq!(file.gltf_image_asset_ids.len(), 2);
    assert_eq!(*file.gltf_material_asset_ids.at(1), AssetId(BASE + MATERIAL_PLACE + 1));
}

#[test]
fn extension_textures_reach_their_slots() {
    let mut m = material("Lacquer");
    m.def.extensions = PbrExtensions {
        clearcoat: Some(ClearcoatExt { tex: None, roughness_tex: None, normal_tex: None }),
        ..PbrExtensions::none()
    };
    m.ext_textures.push(ExtTexture {
        slot: "clearcoat.normal_tex".to_string(),
        baked: BakedTexture { key: 3, binding: binding(0) },
    });
    let mut imp = model("t.glb", vec![node(0, None, Vec::new())]);
    imp.materials.push(m);
    let mut w = fresh();
    assert!(finish_model_import(&mut w, imp, BASE).is_ok());
    let ext = w.library.materials[0].builtin.as_ref().unwrap().extensions;
    assert_eq!(ext.clearcoat.unwrap().normal_tex.unwrap().asset, AssetId(BASE + TEXTURE_PLACE));
}

#[test]
fn slot_without_texture_brings_none() {
    let mut rows: Vec<ImportTexture> = Vec::new();
    let images: Table<ExportImage> = Table::new();
    let r = ensure_import_texture(
        &mut rows,
        &images,
        None,
        "x".to_string(),
        TextureColorKind::Albedo,
        BASE,
    );
    assert!(r.is_none() && rows.is_empty());
}

#[test]
fn animations_become_clips() {
    let mut imp = model("CesiumMan.glb", vec![node(3, None, Vec::new())]);
    imp.animations.push(ExtractedAnimation {
        name: None,
        channels: vec![move_channel(3, 1.5), move_channel(99, 9.0)],
    });
    imp.animations.push(ExtractedAnimation { name: Some("Wave".to_string()), channels: Vec::new() });
    let mut w = fresh();
    let done = match finish_model_import(&mut w, imp, BASE) {
        Ok(d) => d,
        Err(_) => panic!("imported"),
    };
    assert_eq!(done.clips, 2);
    let c = &w.timeline.clips[0];
    assert_eq!(c.name, "CesiumMan 1");
    assert_eq!(c.color, "#7aa2f7");
    assert_eq!(c.id, AssetId(BASE + CLIP_PLACE));
    assert_eq!(c.duration, d(1.5), "the channel of a node that is not there counts for nothing");
    assert_eq!(c.tracks.len(), 1);
    let t = c.tracks.at(0);
    match &t.target {
        TrackTarget::Transform { node, prop } => {
            assert_eq!(*node, NodeId(BASE));
            assert_eq!(*prop, TransformProp::Translation);
        }
        _ => panic!("a placement"),
    }
    assert_eq!(t.keys.len(), 2);
    assert_eq!(t.keys.at(1).value, TrackValue::Vec3(v3(2.0, 0.0, 0.0)));
    assert_eq!(t.keys.at(1).interp, Interp::Linear);
    assert_eq!(t.keys.at(1).in_tangent, TrackValue::Vec3(Vec3::zero()));
    let wave = &w.timeline.clips[1];
    assert_eq!(wave.name, "Wave");
    assert_eq!(wave.color, "#9ece6a");
    assert_eq!(wave.duration, F64::one());
    assert_eq!(w.timeline.current_clip, Some(AssetId(BASE + CLIP_PLACE)));
}

#[test]
fn single_clip_is_named_after_the_model() {
    for (file, want) in [("walk.gltf", "walk"), ("walk.glb", "walk"), ("walk.obj", "walk.obj")] {
        let mut imp = model(file, vec![node(3, None, Vec::new())]);
        imp.animations.push(ExtractedAnimation { name: Some(String::new()), channels: Vec::new() });
        let mut w = fresh();
        assert!(finish_model_import(&mut w, imp, BASE).is_ok());
        assert_eq!(w.timeline.clips[0].name, want);
    }
}

#[test]
fn missing_values_stand_still() {
    let weights = |v: Vec<f32>| AnimationData::Weights(List::from_vec(v.into_iter().map(n).collect()));
    let mut rotate = move_channel(3, 1.0);
    rotate.property = ExtractedProperty::Rotation;
    let mut grow = move_channel(3, 1.0);
    grow.property = ExtractedProperty::Scale;
    let mut morph = move_channel(3, 1.0);
    morph.property = ExtractedProperty::MorphWeights;
    morph.sampler = SamplerKind::Cubic;
    morph.values = vec![weights(vec![0.25, 0.5])];
    morph.in_tangents = vec![weights(vec![2.0])];
    let mut imp = model("m.glb", vec![node(3, None, Vec::new())]);
    imp.animations.push(ExtractedAnimation { name: None, channels: vec![rotate, grow, morph] });
    let mut w = fresh();
    assert!(finish_model_import(&mut w, imp, BASE).is_ok());
    let c = &w.timeline.clips[0];
    assert_eq!(c.tracks.at(0).keys.at(0).value, TrackValue::Quat(Vec4::no_rotation()));
    assert_eq!(c.tracks.at(1).keys.at(0).value, TrackValue::Vec3(Vec3::one()));
    let m = c.tracks.at(2);
    assert!(matches!(m.target, TrackTarget::Morph { index: 0, .. }));
    assert_eq!(m.keys.at(0).value, TrackValue::Scalar(n(0.25)));
    assert_eq!(m.keys.at(0).in_tangent, TrackValue::Scalar(n(2.0)));
    assert_eq!(m.keys.at(0).out_tangent, TrackValue::Scalar(F32::zero()));
    assert_eq!(m.keys.at(1).value, TrackValue::Scalar(F32::zero()), "no value at its time");
    assert_eq!(m.keys.at(0).interp, Interp::Cubic);
}

#[test]
fn ids_wrap_around() {
    assert_eq!(id_after(5, 7), 12);
    assert_eq!(id_after(u128::MAX, 1), 0);
    assert_ne!(id_after(u128::MAX, TEXTURE_PLACE), id_after(u128::MAX, MATERIAL_PLACE));
}

#[test]
fn later_index_wins_in_the_map() {
    let roots = vec![node(3, None, Vec::new()), node(3, None, Vec::new())];
    let map = map_nodes(&roots, BASE);
    assert_eq!(map.len(), 1);
    assert_eq!(*map.get(3).unwrap(), NodeId(BASE + 1));
}

#[test]
fn import_joins_what_is_there() {
    let mut w = fresh();
    assert!(finish_model_import(&mut w, model("a.glb", vec![node(0, None, Vec::new())]), 10).is_ok());
    assert!(finish_model_import(&mut w, model("b.glb", vec![node(0, None, Vec::new())]), 90).is_ok());
    assert_eq!(w.nodes.len(), 2);
    assert_eq!(w.nodes[0].id, NodeId(10));
    assert!(find_by_id(&w.nodes, NodeId(90)).is_some());
    assert!(w.store.assets.get(10 + FILE_PLACE).is_some());
}

#[test]
fn template_is_read_from_the_populated_tree() {
    let mut lk = SnapshotLookups {
        node_index: Table::new(),
        label: Table::new(),
        skin_joints: Table::new(),
        lights: Table::new(),
        morph_names: Table::new(),
    };
    lk.node_index.insert(41, 6);
    lk.label.insert(41, "Lamp".to_string());
    lk.skin_joints.insert(41, true);
    let leaf = SourceNode {
        key: 41,
        local: Trs::identity(),
        primitives: List::from_vec(vec![primitive(77, None)]),
        children: Vec::new(),
    };
    let t = build_from_context(&vec![leaf], &lk);
    let found = t.find_by_node_index(6).unwrap();
    assert_eq!(found.label.as_deref(), Some("Lamp"));
    assert_eq!(found.baked_transform_key, 41);
    assert!(t.find_by_node_index(5).is_none());
    assert!(template_needs_default_material(found));
    assert_eq!(hide_template_meshes(&t).contains(&77), true);
    assert!(!remove_template_meshes(&t).is_empty());
}

#[test]
fn joints_need_a_node_and_a_rig_index() {
    let mut a = node(1, None, Vec::new());
    a.is_skin_joint = true;
    let mut b = node(2, None, Vec::new());
    b.is_skin_joint = true;
    let mut ids: Table<NodeId> = Table::new();
    ids.insert(1, NodeId(11));
    ids.insert(2, NodeId(12));
    let mut rig: Table<u32> = Table::new();
    rig.insert(2, 5);
    let joints = assemble_skin_joints(&vec![a, b], &ids, &rig);
    assert_eq!(joints.len(), 1);
    assert_eq!((joints[0].node, joints[0].index), (NodeId(12), 5));
}

#[test]
fn lights_of_the_file_become_lights() {
    let sun = SourceLight {
        kind: SourceLightKind::Directional,
        color: Vec3::one(),
        intensity: n(3.0),
        range: None,
    };
    assert_eq!(
        light_config_from_gltf(sun),
        LightConfig::Directional { color: Vec3::one(), intensity: n(3.0) }
    );
    let mut lamp = node(0, Some("Lamp"), vec![primitive(1, None)]);
    lamp.light = Some(LightConfig::Directional { color: Vec3::one(), intensity: n(3.0) });
    let mut w = fresh();
    assert!(finish_model_import(&mut w, model("l.glb", vec![lamp]), BASE).is_ok());
    assert!(matches!(w.nodes[0].data.kind, NodeKind::Light(_)));
}

#[test]
fn reset_gives_up_what_no_node_stands_for() {
    let mut last = BundleResources::new();
    assert!(last.clear_untracked_renderer_resources(&Vec::new()).is_empty());

    last.set_bundle_resources(vec![1, 2], vec![3], Vec::new());
    assert_eq!(
        last.clear_untracked_renderer_resources(&Vec::new()),
        vec![Leftover::Mesh(1), Leftover::Mesh(2), Leftover::Light(3)],
        "without clips the mixer is kept"
    );

    let mesh = Primitive {
        mesh_key: 7,
        material_key: 8,
        material_index: None,
        skinned: false,
        morphs: false,
    };
    let templates = vec![AssetTemplate { roots: vec![node(0, None, vec![mesh])] }];
    last.set_bundle_resources(Vec::new(), Vec::new(), vec![4]);
    assert_eq!(
        last.clear_untracked_renderer_resources(&templates),
        vec![
            Leftover::Template(Removal::Mesh(7)),
            Leftover::Template(Removal::Material(8)),
            Leftover::Template(Removal::Transform(500)),
            Leftover::Clip(4),
            Leftover::ClearMixer,
        ]
    );
    assert!(last.clear_untracked_renderer_resources(&Vec::new()).is_empty());
}

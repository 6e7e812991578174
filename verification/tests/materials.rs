//! Materials: on nodes, in the library, and on their way to the renderer.
use scene_editor::assets::{
    ext_slot_color_kind, MeshData, ModifierStack, PrimitiveShape, TextureColorKind,
    VertexOverrides,
};
use scene_editor::buffer_cache::{store, BufferCache};
use scene_editor::command::EditorCommand;
use scene_editor::compiling::{finish_register, may_register, RegisterOutcome, SyntaxError};
use scene_editor::controller::EditorController;
use scene_editor::custom_material::{
    convert_alpha, custom_alpha_of, default_value_for, find_material, mark_material_draft,
    material_definition, parse_field_type, parse_uniform_value, slot_default_value, validate_keys,
    AlphaMode, CustomAlphaMode, CustomMaterial, FieldType, Slot, UniformValue,
};
use scene_editor::dynamic::{
    build_custom, build_custom_for_shader, build_registration, hash_str, inputs_from_keys,
    is_deleted, layout_hash, set_uniform_live, MaterialShaderId, RegisterPlan, Registry,
    SessionBuffers,
};
use scene_editor::errors::EditorError;
use scene_editor::ids::{AssetId, NodeId, VariantId};
use scene_editor::library_edit::{LibraryCommand, ValidKeys};
use scene_editor::list::{List, Same};
use scene_editor::material::{
    ext_slot_enabled, get_ext_texture, set_ext_texture, MaterialAlphaMode, MaterialShading,
    PbrExtensions, SheenExt, TextureRef, TextureUseProfile, TextureWrap,
};
use scene_editor::node::{
    patch_light_param, structure_key, EmitterPatch, LightConfig, LightParamKind, NodeKind,
};
use scene_editor::node_edit::{NodeCommand, NodeEdit};
use scene_editor::palette::{
    builtin_slot, patch_def_param, BuiltinParamKind, BuiltinTextureSlot, MaterialDef,
    MaterialInstance, Palette, TexturePatch,
};
use scene_editor::scene_edit::InsertSpec;
use scene_editor::table::{SlotMap, Table};
use scene_editor::tree::find_by_id;
use scene_editor::text::is_white;
use scene_editor::values::{Vec2, Vec3, F32};
use scene_editor::workspace::Workspace;
use std::collections::hash_map::DefaultHasher;
use std::hash::{Hash, Hasher};

const NODE: NodeId = NodeId(7);

fn n(x: f32) -> F32 {
    F32 { bits: x.to_bits() }
}

fn texts(row: &[&str]) -> List<String> {
    List::from_vec(row.iter().map(|s| s.to_string()).collect())
}

fn nums(row: &[f32]) -> List<F32> {
    List::from_vec(row.iter().map(|x| n(*x)).collect())
}

fn slot(name: &str, ty: &str, val: &str) -> Slot {
    Slot {
        name: name.to_string(),
        ty: ty.to_string(),
        val: val.to_string(),
        debug: String::new(),
        color_kind: None,
    }
}

fn custom(id: u128) -> CustomMaterial {
    let mut m = CustomMaterial::new(AssetId(id), "Lava".to_string());
    m.uniforms = List::from_vec(vec![slot("heat", "f32", "0.5"), slot("tint", "vec3<f32>", "1,2,3")]);
    m.textures = List::from_vec(vec![slot("noise", "texture_2d<f32>", "")]);
    m.buffers = List::from_vec(vec![slot("grid", "array<u32>", "")]);
    m
}

fn lava_nums() -> Vec<List<F32>> {
    vec![nums(&[0.5]), nums(&[1.0, 2.0, 3.0])]
}

fn bare(_: &ModifierStack, _: &VertexOverrides, _: &Table<MeshData>) -> MeshData {
    MeshData {
        positions: List::empty(),
        normals: None,
        uvs: List::empty(),
        uvs1: None,
        colors: None,
        tangents: None,
        indices: List::empty(),
    }
}

fn apply(w: &mut Workspace, cmd: EditorCommand) -> Result<Vec<EditorCommand>, EditorError> {
    w.apply_inner(cmd, &bare)
}

fn ok(w: &mut Workspace, cmd: EditorCommand) -> Vec<EditorCommand> {
    match apply(w, cmd) {
        Ok(row) => row,
        Err(e) => panic!("{}", e.message()),
    }
}

fn refused(w: &mut Workspace, cmd: EditorCommand) -> EditorError {
    match apply(w, cmd) {
        Ok(_) => panic!("refused"),
        Err(e) => e,
    }
}

fn edit(e: NodeEdit) -> EditorCommand {
    EditorCommand::Node(NodeCommand { node: NODE, edit: e })
}

fn library(c: LibraryCommand) -> EditorCommand {
    EditorCommand::Library(c)
}

fn kind(w: &Workspace) -> &NodeKind {
    &find_by_id(&w.nodes, NODE).expect("node").data.kind
}

fn palette(w: &Workspace) -> &Palette {
    kind(w).palette().expect("palette")
}

fn current(w: &Workspace) -> &MaterialInstance {
    kind(w).selected_material().expect("material")
}

fn project() -> Workspace {
    let mut w = Workspace::new(ValidKeys {
        includes: vec!["noise", "color"],
        inputs: vec!["normals", "uv"],
    });
    let spec = InsertSpec::Primitive(PrimitiveShape::Plane { width: n(1.0), depth: n(1.0) });
    ok(&mut w, EditorCommand::Insert { id: NODE, spec, parent: None });
    w
}

/// A node that renders with a material of the library.
fn painted(builtin: bool) -> Workspace {
    let mut w = project();
    let c = if builtin {
        LibraryCommand::AddBuiltinMaterial { id: AssetId(50), shading: MaterialShading::Pbr }
    } else {
        LibraryCommand::AddCustomMaterial { id: AssetId(50) }
    };
    ok(&mut w, library(c));
    ok(
        &mut w,
        edit(NodeEdit::AddMaterialVariant { material: AssetId(50), id: VariantId(1), given: None }),
    );
    ok(&mut w, edit(NodeEdit::SelectMaterialVariant(Some(VariantId(1)))));
    w
}

fn no_texture_patch() -> TexturePatch {
    TexturePatch {
        offset: None,
        scale: None,
        rotation: None,
        flow: None,
        wrap_u: None,
        wrap_v: None,
        uv_set: None,
        mag_filter: None,
        min_filter: None,
        mipmap_filter: None,
    }
}

fn no_emitter_patch() -> EmitterPatch {
    EmitterPatch {
        spawn_rate: None,
        burst_count: None,
        max_alive: None,
        one_shot: None,
        space: None,
        shape: None,
        initial_speed: None,
        lifetime: None,
        size: None,
        forces: None,
        color_over_life: None,
        size_over_life: None,
        blend: None,
        texture: None,
    }
}

#[test]
fn variants_are_added_under_free_names() {
    let mut w = project();
    ok(&mut w, library(LibraryCommand::AddCustomMaterial { id: AssetId(50) }));
    assert_eq!(w.library.materials[0].name, "New Material 1");
    for i in 0..3 {
        ok(
            &mut w,
            edit(NodeEdit::AddMaterialVariant {
                material: AssetId(50),
                id: VariantId(i),
                given: None,
            }),
        );
    }
    let names: Vec<String> =
        (0..3).map(|i| palette(&w).variants.at(i).name.clone()).collect();
    assert_eq!(names[0], "New Material 1");
    assert_ne!(names[1], names[0]);
    assert_ne!(names[2], names[1]);
    assert_ne!(names[2], names[0]);
}

#[test]
fn removed_variant_no_longer_renders() {
    let mut w = painted(true);
    assert!(kind(&w).selected_material().is_some());
    let back = ok(&mut w, edit(NodeEdit::RemoveMaterialVariant(VariantId(1))));
    assert!(kind(&w).selected_material().is_none());
    assert_eq!(palette(&w).selected, None);
    for c in back {
        ok(&mut w, c);
    }
    assert_eq!(current(&w).asset, AssetId(50));
}

#[test]
fn renamed_variant_keeps_its_material() {
    let mut w = painted(true);
    let e = NodeEdit::RenameMaterialVariant { variant: VariantId(1), name: "Wet".to_string() };
    ok(&mut w, edit(e));
    assert_eq!(palette(&w).variants.at(0).name, "Wet");
    assert_eq!(current(&w).asset, AssetId(50));
}

#[test]
fn palette_edits_are_refused() {
    let mut w = project();
    let v = VariantId(9);
    let e = refused(&mut w, edit(NodeEdit::SelectMaterialVariant(Some(v))));
    assert_eq!(
        e.message(),
        "select_material_variant: no variant 00000000-0000-0000-0000-000000000009 on this mesh"
    );
    let e = refused(&mut w, edit(NodeEdit::RemoveMaterialVariant(v)));
    assert!(e.message().starts_with("remove_material_variant: no variant"));
    let rename = || NodeEdit::RenameMaterialVariant { variant: v, name: "x".to_string() };
    let e = refused(&mut w, edit(rename()));
    assert!(e.message().starts_with("rename_material_variant: no variant"));
    let add = || NodeEdit::AddMaterialVariant { material: AssetId(3), id: v, given: None };
    let e = refused(&mut w, edit(add()));
    assert_eq!(
        e.message(),
        "add_material_variant: no library material with id 00000000-0000-0000-0000-000000000003"
    );
    ok(&mut w, library(LibraryCommand::AddCustomMaterial { id: AssetId(3) }));
    ok(&mut w, edit(NodeEdit::SetKind(NodeKind::Group)));
    for (e, op) in [
        (NodeEdit::SelectMaterialVariant(None), "select"),
        (add(), "add"),
        (NodeEdit::RemoveMaterialVariant(v), "remove"),
        (rename(), "rename"),
    ] {
        assert_eq!(
            refused(&mut w, edit(e)).message(),
            format!("{op}_material_variant: node has no material palette")
        );
    }
}

#[test]
fn node_edits_are_refused() {
    let mut w = project();
    let e = refused(&mut w, edit(NodeEdit::SetParticleEmitter(no_emitter_patch())));
    assert_eq!(e.message(), "node is not a particle emitter");
    let e = refused(&mut w, edit(NodeEdit::PatchKind(Err("bad kind".to_string()))));
    assert_eq!(e.message(), "bad kind");
    let e = refused(
        &mut w,
        edit(NodeEdit::SetNodeMaterialUniform {
            name: "heat".to_string(),
            value: UniformValue::Bool(true),
        }),
    );
    assert!(matches!(e, EditorError::NoMaterialInstance));
    assert!(e.message().starts_with("node has no material instance"));
    let e = refused(
        &mut w,
        edit(NodeEdit::SetNodeTextureTransform {
            slot: BuiltinTextureSlot::Normal,
            patch: no_texture_patch(),
        }),
    );
    assert!(e.message().starts_with("node has no built-in material"));
    let e = refused(
        &mut w,
        edit(NodeEdit::SetTextureUseProfile { named: "normal".to_string(), profile: None }),
    );
    assert!(e.message().starts_with("node has no material assigned"));
    let missing = EditorCommand::Node(NodeCommand {
        node: NodeId(99),
        edit: NodeEdit::Rename("x".to_string()),
    });
    let e = refused(&mut w, missing);
    assert!(matches!(e, EditorError::TargetNotFound));
    assert!(e.message().starts_with("target id not found"));
}

#[test]
fn texture_slots_must_be_bound() {
    let mut w = painted(true);
    let e = refused(
        &mut w,
        edit(NodeEdit::SetNodeTextureTransform {
            slot: BuiltinTextureSlot::Normal,
            patch: no_texture_patch(),
        }),
    );
    assert_eq!(
        e.message(),
        "texture slot `Normal` has no texture bound \u{2014} bind one with set_node_texture first"
    );
    let e = refused(
        &mut w,
        edit(NodeEdit::SetTextureUseProfile { named: "odd".to_string(), profile: None }),
    );
    assert!(e.message().starts_with("texture slot `odd` has no texture bound"));
}

#[test]
fn textures_are_bound_and_moved() {
    let mut w = painted(true);
    let bind = NodeEdit::SetBuiltinTexture {
        slot: BuiltinTextureSlot::Normal,
        texture: Some(AssetId(77)),
    };
    ok(&mut w, edit(bind));
    let patch = TexturePatch {
        offset: Some(Vec2 { x: n(0.25), y: n(0.5) }),
        wrap_u: Some(TextureWrap::ClampToEdge),
        uv_set: Some(1),
        ..no_texture_patch()
    };
    ok(
        &mut w,
        edit(NodeEdit::SetNodeTextureTransform { slot: BuiltinTextureSlot::Normal, patch }),
    );
    let t = current(&w).inline.normal_texture.unwrap();
    assert_eq!(t.asset, AssetId(77));
    assert_eq!(t.uv_index, 1);
    let profile = NodeEdit::SetTextureUseProfile {
        named: "normal".to_string(),
        profile: Some(TextureUseProfile::Compact),
    };
    ok(&mut w, edit(profile));
    assert_eq!(current(&w).inline.normal_texture.unwrap().export_profile, Some(TextureUseProfile::Compact));
}

#[test]
fn parameters_of_a_built_in_material_are_set() {
    let mut w = painted(true);
    let set = |p: BuiltinParamKind, v: &[f32]| {
        edit(NodeEdit::SetBuiltinParam {
            param: p,
            numbers: v.iter().map(|x| n(*x)).collect(),
            count: 1,
        })
    };
    ok(&mut w, set(BuiltinParamKind::Roughness, &[0.25]));
    ok(&mut w, set(BuiltinParamKind::Emissive, &[1.0, 0.5, 0.0]));
    assert_eq!(current(&w).inline.roughness, n(0.25));
    assert_eq!(current(&w).inline.emissive, Vec3 { x: n(1.0), y: n(0.5), z: n(0.0) });
}

#[test]
fn parameters_do_not_reach_a_custom_material() {
    let mut w = painted(false);
    let e = NodeEdit::SetBuiltinParam {
        param: BuiltinParamKind::Metallic,
        numbers: vec![n(1.0)],
        count: 1,
    };
    let e = refused(&mut w, edit(e));
    assert!(e.message().starts_with("this node's selected variant is a CUSTOM material"));
    ok(
        &mut w,
        edit(NodeEdit::SetNodeMaterialUniform {
            name: "heat".to_string(),
            value: UniformValue::F32(n(2.0)),
        }),
    );
    assert!(matches!(
        current(&w).uniform_overrides.get("heat"),
        Some(UniformValue::F32(v)) if v == n(2.0)
    ));
    ok(
        &mut w,
        edit(NodeEdit::SetMaterialBuffer { named: "grid".to_string(), buffer: Some(AssetId(4)) }),
    );
    assert_eq!(current(&w).buffer_overrides.get("grid"), Some(AssetId(4)));
    ok(
        &mut w,
        edit(NodeEdit::SetMaterialBuffer { named: "grid".to_string(), buffer: None }),
    );
    assert_eq!(current(&w).buffer_overrides.get("grid"), None);
}

#[test]
fn library_edits_are_taken_back() {
    let mut w = project();
    let id = AssetId(50);
    ok(&mut w, library(LibraryCommand::AddCustomMaterial { id }));
    ok(
        &mut w,
        library(LibraryCommand::SetCustomMaterialWgsl { id, wgsl: "first".to_string() }),
    );
    let back = ok(
        &mut w,
        library(LibraryCommand::SetCustomMaterialWgsl { id, wgsl: "second".to_string() }),
    );
    assert_eq!(w.library.materials[0].wgsl, "second");
    for c in back {
        ok(&mut w, c);
    }
    assert_eq!(w.library.materials[0].wgsl, "first");
    let back = ok(
        &mut w,
        library(LibraryCommand::SetCustomMaterialAlphaMode {
            id,
            mode: CustomAlphaMode::Mask { cutoff: n(0.75) },
        }),
    );
    assert_eq!(w.library.materials[0].alpha, AlphaMode::Mask);
    assert_eq!(w.library.materials[0].cutoff, n(0.75));
    for c in back {
        ok(&mut w, c);
    }
    assert_eq!(w.library.materials[0].alpha, AlphaMode::Opaque);
}

#[test]
fn library_keeps_valid_keys_only() {
    let mut w = project();
    let id = AssetId(50);
    ok(&mut w, library(LibraryCommand::AddCustomMaterial { id }));
    ok(
        &mut w,
        library(LibraryCommand::SetCustomMaterialShaderIncludes {
            id,
            includes: texts(&["color", "nothing", "noise"]),
        }),
    );
    assert_eq!(w.library.materials[0].shader_includes.to_vec(), vec!["color", "noise"]);
    let kept = validate_keys(&texts(&["uv", "x"]), &vec!["uv"]);
    assert_eq!(kept.to_vec(), vec!["uv"]);
    assert_eq!(validate_keys(&kept, &vec!["uv"]).to_vec(), vec!["uv"]);
}

#[test]
fn library_edits_are_refused() {
    let mut w = project();
    let id = AssetId(50);
    let e = refused(
        &mut w,
        library(LibraryCommand::SetBuiltinAlphaMode { id, surface: MaterialAlphaMode::Blend }),
    );
    assert_eq!(e.message(), "no material 00000000-0000-0000-0000-000000000032");
    ok(&mut w, library(LibraryCommand::AddCustomMaterial { id }));
    let e = refused(
        &mut w,
        library(LibraryCommand::SetBuiltinAlphaMode { id, surface: MaterialAlphaMode::Blend }),
    );
    assert!(matches!(e, EditorError::NotBuiltinAlpha(_)));
    assert!(e.message().contains("set_material_alpha_wgsl"));
    let def = MaterialDef::plain("x".to_string(), MaterialShading::Pbr);
    let e = refused(&mut w, library(LibraryCommand::UpdateBuiltinMaterial { id, def }));
    assert!(matches!(e, EditorError::NotBuiltin(_)));
    assert!(e.message().contains("SetCustomMaterial*"));
    let e = refused(
        &mut w,
        library(LibraryCommand::SetMaterialUniform {
            id,
            name: "heat".to_string(),
            value: "1".to_string(),
        }),
    );
    assert_eq!(
        e.message(),
        "material has no uniform named `heat` \u{2014} check the layout"
    );
}

#[test]
fn uniform_default_is_set_in_the_library() {
    let mut w = project();
    let id = AssetId(50);
    ok(&mut w, library(LibraryCommand::AddCustomMaterial { id }));
    ok(
        &mut w,
        library(LibraryCommand::SetCustomMaterialLayout {
            id,
            uniforms: List::from_vec(vec![slot("heat", "f32", "0")]),
            textures: List::empty(),
            buffers: List::empty(),
        }),
    );
    let set = LibraryCommand::SetMaterialUniform {
        id,
        name: "heat".to_string(),
        value: "3.5".to_string(),
    };
    ok(&mut w, library(set));
    assert_eq!(w.library.materials[0].uniforms.at(0).val, "3.5");
}

#[test]
fn deleted_material_leaves_the_library() {
    let mut w = project();
    ok(&mut w, library(LibraryCommand::AddCustomMaterial { id: AssetId(50) }));
    ok(
        &mut w,
        library(LibraryCommand::AddBuiltinMaterial {
            id: AssetId(51),
            shading: MaterialShading::Unlit,
        }),
    );
    assert_eq!(w.library.materials[1].name, "Unlit Material 2");
    assert_eq!(find_material(&w.library.materials, AssetId(51)), Some(1));
    ok(&mut w, library(LibraryCommand::DeleteCustomMaterial { id: AssetId(50) }));
    assert_eq!(w.library.materials.len(), 1);
    assert_eq!(find_material(&w.library.materials, AssetId(50)), None);
}

#[test]
fn slot_types_are_read() {
    for (s, ty) in [
        ("f32", FieldType::F32),
        ("u32", FieldType::U32),
        ("i32", FieldType::U32),
        ("vec2<f32>", FieldType::Vec2),
        ("mat4x4<f32>", FieldType::Mat4),
        ("color3", FieldType::F32),
        ("vec3<i32>", FieldType::F32),
    ] {
        assert_eq!(parse_field_type(s), ty, "{s}");
    }
}

#[test]
fn slot_defaults_are_read() {
    assert!(matches!(
        parse_uniform_value(FieldType::U32, " 42 ", &List::empty()),
        UniformValue::U32(42)
    ));
    assert!(matches!(
        parse_uniform_value(FieldType::U32, "-1", &List::empty()),
        UniformValue::U32(0)
    ));
    match parse_uniform_value(FieldType::Vec3, "1,2", &nums(&[1.0, 2.0])) {
        UniformValue::Vec3(v) => assert_eq!(v, Vec3 { x: n(1.0), y: n(2.0), z: n(0.0) }),
        _ => panic!("a vector"),
    }
    match default_value_for(FieldType::Mat3) {
        UniformValue::Mat3(l) => assert_eq!(l.to_vec(), vec![n(0.0); 9]),
        _ => panic!("a matrix"),
    }
    match slot_default_value(&slot("heat", "f32", "0.5"), &nums(&[0.5])) {
        UniformValue::F32(v) => assert_eq!(v, n(0.5)),
        _ => panic!("a number"),
    }
}

#[test]
fn definition_holds_the_layout() {
    let mut m = custom(1);
    m.uniforms = List::from_vec(vec![
        slot("a", "bool", " true "),
        slot("b", "vec2<i32>", "3, -4"),
        slot("c", "color3", "1,1,1"),
    ]);
    m.alpha = AlphaMode::Mask;
    m.cutoff = n(0.25);
    let d = material_definition(&m, &vec![nums(&[]), nums(&[]), nums(&[1.0, 1.0, 1.0])]);
    assert_eq!((d.name.as_str(), d.version), ("Lava", 1));
    assert_eq!(d.alpha_mode, MaterialAlphaMode::Mask { cutoff: n(0.25) });
    assert!(matches!(d.uniforms[0].default, UniformValue::Bool(true)));
    assert!(matches!(d.uniforms[1].default, UniformValue::IVec2(3, -4)));
    assert!(matches!(d.uniforms[2].default, UniformValue::Color3(v) if v == Vec3::one()));
    assert_eq!(d.textures, vec!["noise"]);
    assert_eq!(d.buffers, vec!["grid"]);
}

#[test]
fn surface_modes_are_converted() {
    assert_eq!(convert_alpha(AlphaMode::Blend, n(0.5)), MaterialAlphaMode::Blend);
    let mut m = custom(1);
    assert_eq!(custom_alpha_of(&m), CustomAlphaMode::Opaque);
    m.alpha = AlphaMode::Mask;
    assert_eq!(custom_alpha_of(&m), CustomAlphaMode::Mask { cutoff: n(0.5) });
}

#[test]
fn draft_is_due_for_compiling() {
    let mut m = custom(1);
    m.registered = true;
    mark_material_draft(&mut m);
    assert!(!m.registered);
    assert_eq!(m.recompile_rev, 1);
}

#[test]
fn hash_of_a_text_is_that_of_the_text() {
    for s in ["", "abc", "fn main() { \u{fc} }"] {
        let mut h = DefaultHasher::new();
        s.hash(&mut h);
        assert_eq!(hash_str(s), h.finish());
    }
    assert_ne!(hash_str("a"), hash_str("b"));
}

#[test]
fn registration_tells_edits_apart() {
    let a = build_registration(&custom(1), &lava_nums());
    assert_eq!(a.name, "00000000-0000-0000-0000-000000000001");
    assert_eq!(a.uniforms.len(), 2);
    assert_eq!(a.uniforms[1].ty, FieldType::Vec3);
    assert_eq!(a.alpha_wgsl, None);
    let mut m = custom(1);
    m.color = "#123456".to_string();
    m.registered = true;
    let b = build_registration(&m, &lava_nums());
    assert_eq!((a.layout_hash, a.wgsl_hash), (b.layout_hash, b.wgsl_hash));
    m.shader_includes = List::from_vec(vec!["noise".to_string()]);
    let noisy = build_registration(&m, &lava_nums());
    assert_ne!(noisy.wgsl_hash, a.wgsl_hash);
    m.fragment_inputs = List::from_vec(vec!["uv".to_string()]);
    let mapped = build_registration(&m, &lava_nums());
    assert_ne!(mapped.wgsl_hash, noisy.wgsl_hash);
    m.double_sided = true;
    assert_ne!(build_registration(&m, &lava_nums()).wgsl_hash, mapped.wgsl_hash);
    m.textures = List::empty();
    assert_ne!(layout_hash(&m), a.layout_hash);
    m.alpha = AlphaMode::Mask;
    m.alpha_wgsl = " \n".to_string();
    assert_eq!(build_registration(&m, &lava_nums()).alpha_wgsl, None);
    m.alpha_wgsl = "return 1;".to_string();
    assert_eq!(build_registration(&m, &lava_nums()).alpha_wgsl.as_deref(), Some("return 1;"));
}

#[test]
fn inputs_are_asked_for_by_key() {
    let i = inputs_from_keys(&texts(&["uv", "lights", "other"]));
    assert!(i.uv && i.lights);
    assert!(!i.normals && !i.tangents && !i.view_dir && !i.vertex_color);
}

#[test]
fn deleted_material_is_not_registered_again() {
    let reg = build_registration(&custom(1), &lava_nums());
    let mut r = Registry::new();
    let id = AssetId(1);
    assert_eq!(r.plan(id, &reg), RegisterPlan::Replace(None));
    r.register(id, MaterialShaderId(9), &reg);
    assert_eq!(r.shader_id_for_asset(id), Some(MaterialShaderId(9)));
    assert_eq!(r.plan(id, &reg), RegisterPlan::Keep(MaterialShaderId(9)));
    let mut m = custom(1);
    m.wgsl = "other".to_string();
    let changed = build_registration(&m, &lava_nums());
    assert_eq!(r.plan(id, &changed), RegisterPlan::Replace(Some(MaterialShaderId(9))));
    let mut m = custom(1);
    m.fragment_inputs = texts(&["uv", "lights"]);
    let changed = build_registration(&m, &lava_nums());
    assert_eq!(r.plan(id, &changed), RegisterPlan::Replace(Some(MaterialShaderId(9))));
    let mut m = custom(1);
    m.uniforms = List::from_vec(vec![slot("other", "f32", "1")]);
    let changed = build_registration(&m, &lava_nums());
    assert_eq!(r.plan(id, &changed), RegisterPlan::Replace(Some(MaterialShaderId(9))));
    assert!(!is_deleted(&r, id));
    assert_eq!(r.unregister(id), Some(MaterialShaderId(9)));
    assert!(is_deleted(&r, id));
    assert_eq!(r.plan(id, &reg), RegisterPlan::Refuse);
    assert_eq!(r.unregister(AssetId(5)), None);
}

#[test]
fn instance_overrides_what_fits() {
    let reg = build_registration(&custom(1), &lava_nums());
    let fresh = build_custom_for_shader(&reg, MaterialShaderId(3));
    assert!(matches!(fresh.values[0], UniformValue::F32(v) if v == n(0.5)));
    assert!(fresh.textures[0].is_none() && fresh.buffers[0].is_none());
    let mut inst = MaterialInstance::fresh(
        AssetId(1),
        MaterialDef::plain(String::new(), MaterialShading::Pbr),
    );
    inst.uniform_overrides = SlotMap::empty()
        .insert("heat", UniformValue::F32(n(4.0)))
        .insert("tint", UniformValue::Bool(true));
    inst.texture_overrides = SlotMap::empty().insert("noise", TextureRef::new(AssetId(8)));
    inst.buffer_overrides = SlotMap::empty().insert("grid", AssetId(6));
    let mut words = BufferCache::new();
    store(&mut words, AssetId(6), List::from_vec(vec![1, 2]));
    let m = build_custom(&reg, MaterialShaderId(3), &inst, &words);
    assert!(matches!(m.values[0], UniformValue::F32(v) if v == n(4.0)));
    assert!(matches!(m.values[1], UniformValue::Vec3(_)), "an override of another type is no use");
    assert_eq!(m.textures[0].unwrap().asset, AssetId(8));
    assert_eq!(m.buffers[0].as_ref().unwrap().to_vec(), vec![1, 2]);
}

#[test]
fn live_uniform_is_written() {
    let reg = build_registration(&custom(1), &lava_nums());
    let mut m = build_custom_for_shader(&reg, MaterialShaderId(3));
    set_uniform_live(&mut m, &reg, "heat", "2", &nums(&[2.0]));
    assert!(matches!(m.values[0], UniformValue::F32(v) if v == n(2.0)));
    set_uniform_live(&mut m, &reg, "cold", "9", &nums(&[9.0]));
    assert!(matches!(m.values[0], UniformValue::F32(v) if v == n(2.0)));
}

#[test]
fn session_buffers_have_a_path() {
    let mut b = SessionBuffers::new();
    let path = b.store_buffer_words(AssetId(0xab), List::from_vec(vec![5]));
    assert_eq!(path, "session://buffer/00000000-0000-0000-0000-0000000000ab");
    assert_eq!(b.buffer_words_for(&path).unwrap().to_vec(), vec![5]);
    assert!(b.buffer_words_for("elsewhere").is_none());
}

#[test]
fn only_clean_sources_are_registered() {
    let mut m = custom(1);
    m.registered = true;
    let wrong = vec![SyntaxError { line: 3, message: "expected `;`".to_string() }];
    assert!(!may_register(&mut m, true, &wrong));
    assert!(m.registered, "a deleted material stays as it was");
    assert!(!may_register(&mut m, false, &wrong));
    assert!(!m.registered);
    assert_eq!(m.last_diagnostics.at(0).line, Some(3));
    assert_eq!(m.last_diagnostics.at(0).message, "expected `;`");
    assert!(may_register(&mut m, false, &Vec::new()));
    assert!(!finish_register(&mut m, RegisterOutcome::Rejected("no slot left".to_string())));
    assert_eq!(m.last_diagnostics.at(0).message, "no slot left");
    assert!(!finish_register(&mut m, RegisterOutcome::Checked(vec!["bad type".to_string()])));
    assert_eq!(m.last_diagnostics.at(0).line, None);
    assert!(finish_register(&mut m, RegisterOutcome::Checked(Vec::new())));
    assert!(m.registered && m.last_diagnostics.is_empty());
}

#[test]
fn extension_textures_are_read_back() {
    let mut e = PbrExtensions::none();
    assert!(!ext_slot_enabled(&e, "sheen.color_tex"));
    set_ext_texture(&mut e, "sheen.color_tex", Some(TextureRef::new(AssetId(1))));
    assert!(get_ext_texture(&e, "sheen.color_tex").is_none(), "the extension is off");
    e.sheen = Some(SheenExt { color_tex: None, roughness_tex: None });
    assert!(ext_slot_enabled(&e, "sheen.color_tex"));
    set_ext_texture(&mut e, "sheen.color_tex", Some(TextureRef::new(AssetId(1))));
    assert_eq!(get_ext_texture(&e, "sheen.color_tex").unwrap().asset, AssetId(1));
    assert!(get_ext_texture(&e, "sheen.roughness_tex").is_none());
    set_ext_texture(&mut e, "sheen.color_tex", None);
    assert!(get_ext_texture(&e, "sheen.color_tex").is_none());
    assert!(!ext_slot_enabled(&e, "unheard_of"));
}

#[test]
fn built_in_slots_have_names() {
    assert_eq!(builtin_slot("base_color"), Some(BuiltinTextureSlot::BaseColor));
    assert_eq!(builtin_slot("nothing"), None);
}

#[test]
fn light_parameters_are_set() {
    let mut l = LightConfig::Point { color: Vec3::one(), intensity: n(1.0), range: n(5.0) };
    assert!(patch_light_param(&mut l, LightParamKind::Range, &vec![n(9.0)]));
    assert!(matches!(l, LightConfig::Point { range, .. } if range == n(9.0)));
    assert!(!patch_light_param(&mut l, LightParamKind::InnerAngle, &vec![n(1.0)]));
}

#[test]
fn numbers_do_not_change_the_controls() {
    let a = NodeKind::Light(LightConfig::Directional { color: Vec3::one(), intensity: n(1.0) });
    let b = NodeKind::Light(LightConfig::Directional { color: Vec3::one(), intensity: n(7.0) });
    let c = NodeKind::Light(LightConfig::Point {
        color: Vec3::one(),
        intensity: n(1.0),
        range: n(0.0),
    });
    assert_eq!(structure_key(&a), structure_key(&b));
    assert_ne!(structure_key(&a), structure_key(&c));
}

#[test]
fn words_are_bound_to_a_slot() {
    let mut c = EditorController::new(painted(false));
    let words = || Some(List::from_vec(vec![4u32, 5]));
    let bind = |c: &mut EditorController, slot: &str, data: Option<List<u32>>, fresh: u128| {
        if let Err(e) = c.set_material_buffer(NODE, slot.to_string(), data, AssetId(fresh), &bare) {
            panic!("{}", e.message());
        }
    };
    bind(&mut c, "grid", words(), 90);
    bind(&mut c, "cells", words(), 91);
    assert_eq!(current(&c.work).buffer_overrides.get("grid"), Some(AssetId(90)));
    assert_eq!(current(&c.work).buffer_overrides.get("cells"), Some(AssetId(90)), "stored once");
    bind(&mut c, "grid", None, 92);
    assert_eq!(current(&c.work).buffer_overrides.get("grid"), None);
    c.undo(&bare);
    assert_eq!(current(&c.work).buffer_overrides.get("grid"), Some(AssetId(90)));
    let r = c.set_material_buffer(NodeId(99), "x".to_string(), words(), AssetId(93), &bare);
    assert!(matches!(r, Err(EditorError::TargetNotFound)));
    assert!(c.work.store.assets.get(93).is_none());
}

#[test]
fn bands_and_steps_are_at_least_one() {
    let mut d = MaterialDef::plain(
        "toon".to_string(),
        MaterialShading::Toon {
            diffuse_bands: 3,
            specular_steps: 2,
            shininess: n(1.0),
            rim_strength: n(0.0),
            rim_power: n(1.0),
        },
    );
    assert!(patch_def_param(&mut d, BuiltinParamKind::ToonDiffuseBands, &vec![n(0.0)], 0));
    assert!(patch_def_param(&mut d, BuiltinParamKind::ToonSpecularSteps, &vec![n(4.0)], 4));
    assert!(matches!(
        d.shading,
        MaterialShading::Toon { diffuse_bands: 1, specular_steps: 4, .. }
    ));
}

#[test]
fn extension_textures_have_their_kinds() {
    let kinds = [
        ("clearcoat.normal_tex", TextureColorKind::Normal),
        ("clearcoat.tex", TextureColorKind::MetallicRoughness),
        ("clearcoat.roughness_tex", TextureColorKind::MetallicRoughness),
        ("specular.color_tex", TextureColorKind::SpecularColor),
        ("specular.tex", TextureColorKind::Specular),
        ("sheen.color_tex", TextureColorKind::SpecularColor),
        ("sheen.roughness_tex", TextureColorKind::Specular),
        ("transmission.tex", TextureColorKind::Transmission),
        ("volume.thickness_tex", TextureColorKind::VolumeThickness),
        ("anisotropy.tex", TextureColorKind::Normal),
        ("iridescence.tex", TextureColorKind::Normal),
        ("unheard_of", TextureColorKind::Albedo),
    ];
    for (slot, kind) in kinds {
        assert_eq!(ext_slot_color_kind(slot), kind, "{slot}");
    }
}

#[test]
fn meshes_follow_their_material() {
    let mut w = painted(true);
    let id = current(&w).asset;
    let before = current(&w).inline.same();
    ok(
        &mut w,
        edit(NodeEdit::SetBuiltinParam {
            param: BuiltinParamKind::Roughness,
            numbers: vec![n(0.25)],
            count: 1,
        }),
    );
    let def = MaterialDef {
        roughness: n(0.75),
        metallic: n(1.0),
        ..before.same()
    };
    let back = ok(&mut w, library(LibraryCommand::UpdateBuiltinMaterial { id, def }));
    assert_eq!(current(&w).inline.metallic, n(1.0), "a slot that was not set follows");
    assert_eq!(current(&w).inline.roughness, n(0.25), "a slot that the mesh set is kept");
    for c in back {
        ok(&mut w, c);
    }
    assert_eq!(current(&w).inline.metallic, before.metallic);
    assert_eq!(current(&w).inline.roughness, n(0.25));
    ok(
        &mut w,
        library(LibraryCommand::SetBuiltinAlphaMode { id, surface: MaterialAlphaMode::Blend }),
    );
    assert_eq!(current(&w).inline.alpha_mode, MaterialAlphaMode::Blend);
}

#[test]
fn white_space_is_that_of_unicode() {
    for c in '\0'..=char::MAX {
        assert_eq!(is_white(c), c.is_whitespace(), "{c:?}");
    }
}

//! What holds of the edits of the material library, of the assets, of the world and of
//! what is put into the scene: each sets what it names, and nothing else.
use crate::asset_edit::{asset_step, interned, is_buffer_of, texture_name, AssetCommand};
use crate::assets::{url_file, word_bytes, AssetEntry, AssetSource, ProceduralKind, TextureDef};
use crate::custom_material::{
    material_at, valid_keys, AlphaMode, CustomAlphaMode, CustomMaterial, Slot,
};
use crate::errors::EditorError;
use crate::find::lemma_first;
use crate::ids::AssetId;
use crate::library_edit::{edited_id, library_step, without_material, LibraryCommand, LibraryView};
use crate::motion_laws::given_or;
use crate::palette::MaterialDef;
use crate::world::{
    environment_patched, post_process_patched, sscs_patched, world_after, EnvironmentConfig,
    EnvironmentPatch, PostProcessConfig, PostProcessPatch, ShadowsConfig, SscsPatch, World,
    WorldCommand,
};
use vstd::prelude::*;

verus! {

/// A patch of the environment sets the slots that it gives and keeps the others.
pub proof fn law_environment_patch_sets_its_slots(c: EnvironmentConfig, p: EnvironmentPatch)
    ensures
        ({
            let r = environment_patched(c, p);
            &&& r.skybox == given_or(p.skybox, c.skybox)
            &&& r.specular == given_or(p.specular, c.specular)
            &&& r.irradiance == given_or(p.irradiance, c.irradiance)
            &&& r.probe == given_or(p.probe, c.probe)
        }),
{
}

/// A patch of the contact shadows sets the settings that it gives, with a step at least,
/// and keeps the others and the shadow maps.
pub proof fn law_shadow_patch_sets_its_parts(c: ShadowsConfig, p: SscsPatch)
    ensures
        ({
            let r = sscs_patched(c, p);
            &&& r.map_size == c.map_size
            &&& r.denoise == c.denoise
            &&& r.sscs_enabled == given_or(p.enabled, c.sscs_enabled)
            &&& p.step_count is None ==> r.sscs_step_count == c.sscs_step_count
            &&& p.step_count matches Some(n) ==> r.sscs_step_count >= 1 && (n >= 1
                ==> r.sscs_step_count == n)
            &&& p.step_count == Some(0u32) ==> r.sscs_step_count == 1
            &&& r.sscs_step_world == given_or(p.step_world, c.sscs_step_world)
            &&& r.sscs_thickness == given_or(p.thickness, c.sscs_thickness)
            &&& r.sscs_directional_darkening == given_or(
                p.directional_darkening,
                c.sscs_directional_darkening,
            )
            &&& r.sscs_punctual_darkening == given_or(
                p.punctual_darkening,
                c.sscs_punctual_darkening,
            )
        }),
{
}

/// A patch of the post-processing sets the settings that it gives and keeps the others.
#[verifier::rlimit(60)]
pub proof fn law_post_process_patch_sets_its_parts(c: PostProcessConfig, p: PostProcessPatch)
    ensures
        ({
            let r = post_process_patched(c, p);
            &&& r.tonemapping == given_or(p.tonemapping, c.tonemapping)
            &&& r.bloom == given_or(p.bloom, c.bloom)
            &&& r.dof == given_or(p.dof, c.dof)
            &&& r.exposure == given_or(p.exposure, c.exposure)
            &&& r.bloom_threshold == given_or(p.bloom_threshold, c.bloom_threshold)
            &&& r.bloom_knee == given_or(p.bloom_knee, c.bloom_knee)
            &&& r.bloom_intensity == given_or(p.bloom_intensity, c.bloom_intensity)
            &&& r.bloom_scatter == given_or(p.bloom_scatter, c.bloom_scatter)
            &&& r.ssr.enabled == given_or(p.ssr_enabled, c.ssr.enabled)
            &&& r.ssr.intensity == given_or(p.ssr_intensity, c.ssr.intensity)
            &&& r.ssr.max_distance == given_or(p.ssr_max_distance, c.ssr.max_distance)
            &&& r.ssr.thickness == given_or(p.ssr_thickness, c.ssr.thickness)
            &&& r.ssr.max_steps == given_or(p.ssr_max_steps, c.ssr.max_steps)
            &&& r.ssr.spread_cutoff == given_or(p.ssr_spread_cutoff, c.ssr.spread_cutoff)
            &&& r.ssr.edge_fade == given_or(p.ssr_edge_fade, c.ssr.edge_fade)
            &&& r.ssr.temporal == given_or(p.ssr_temporal, c.ssr.temporal)
            &&& r.ssr.resolution_scale == given_or(p.ssr_resolution_scale, c.ssr.resolution_scale)
            &&& r.ssr.temporal_weight == given_or(p.ssr_temporal_weight, c.ssr.temporal_weight)
            &&& r.ssr.debug == given_or(p.ssr_debug, c.ssr.debug)
            &&& r.ssr.bvh_reflections == given_or(p.ssr_bvh_reflections, c.ssr.bvh_reflections)
        }),
{
}

/// An edit of the world changes the part that it is about.
pub proof fn law_world_edit_changes_its_part(w: World, cmd: WorldCommand)
    ensures
        ({
            let r = world_after(w, cmd);
            &&& match cmd {
                WorldCommand::SetEnvironment(e) => r.environment == e,
                WorldCommand::PatchEnvironment(p) => r.environment == environment_patched(
                    w.environment,
                    p,
                ),
                _ => r.environment == w.environment,
            }
            &&& match cmd {
                WorldCommand::SetShadows(s) => r.shadows == s,
                WorldCommand::SetShadowsSscs(p) => r.shadows == sscs_patched(w.shadows, p),
                _ => r.shadows == w.shadows,
            }
            &&& match cmd {
                WorldCommand::SetPostProcess(p) => r.post_process == post_process_patched(
                    w.post_process,
                    p,
                ),
                _ => r.post_process == w.post_process,
            }
            &&& match cmd {
                WorldCommand::SetBundleOptions(o) => r.bundle_options == o,
                _ => r.bundle_options == w.bundle_options,
            }
        }),
{
}

/// Whether an edit changes what a material compiles to.
pub open spec fn recompiles(cmd: LibraryCommand) -> bool {
    ||| cmd is SetCustomMaterialWgsl
    ||| cmd is SetCustomMaterialAlphaWgsl
    ||| cmd is SetCustomMaterialVertexWgsl
    ||| cmd is SetCustomMaterialAlphaMode
    ||| cmd is SetCustomMaterialDoubleSided
    ||| cmd is SetCustomMaterialLayout
    ||| cmd is SetCustomMaterialShaderIncludes
    ||| cmd is SetCustomMaterialFragmentInputs
}

/// Whether the source of a material is that after an edit.
pub open spec fn sources_after(m: CustomMaterial, cmd: LibraryCommand, r: CustomMaterial) -> bool {
    &&& match cmd {
        LibraryCommand::SetCustomMaterialWgsl { wgsl, .. } => r.wgsl == wgsl,
        _ => r.wgsl == m.wgsl,
    }
    &&& match cmd {
        LibraryCommand::SetCustomMaterialAlphaWgsl { wgsl, .. } => r.alpha_wgsl == wgsl,
        _ => r.alpha_wgsl == m.alpha_wgsl,
    }
    &&& match cmd {
        LibraryCommand::SetCustomMaterialVertexWgsl { wgsl, .. } => r.vertex_wgsl == wgsl,
        _ => r.vertex_wgsl == m.vertex_wgsl,
    }
}

/// Whether the surface of a material is that after an edit.
pub open spec fn surface_after(m: CustomMaterial, cmd: LibraryCommand, r: CustomMaterial) -> bool {
    &&& match cmd {
        LibraryCommand::SetCustomMaterialAlphaMode { mode, .. } => match mode {
            CustomAlphaMode::Opaque => r.alpha == AlphaMode::Opaque && r.cutoff == m.cutoff,
            CustomAlphaMode::Mask { cutoff } => r.alpha == AlphaMode::Mask && r.cutoff == cutoff,
            CustomAlphaMode::Blend => r.alpha == AlphaMode::Blend && r.cutoff == m.cutoff,
        },
        _ => r.alpha == m.alpha && r.cutoff == m.cutoff,
    }
    &&& match cmd {
        LibraryCommand::SetCustomMaterialDoubleSided { double_sided, .. } => r.double_sided
            == double_sided,
        _ => r.double_sided == m.double_sided,
    }
    &&& match cmd {
        LibraryCommand::SetCustomMaterialDebugColor { hex, .. } => r.color == hex,
        _ => r.color == m.color,
    }
}

/// Whether one slot of a row has another value, and nothing else differs.
pub open spec fn value_is_set(a: Seq<Slot>, b: Seq<Slot>, name: Seq<char>, value: String) -> bool {
    &&& b.len() == a.len()
    &&& exists|i: int|
        0 <= i < a.len() && (#[trigger] a[i]).name@ == name && b[i].val == value && b[i].name
            == a[i].name && b[i].ty == a[i].ty && b[i].debug == a[i].debug && b[i].color_kind
            == a[i].color_kind && (forall|j: int|
            0 <= j < a.len() && j != i ==> #[trigger] b[j] == a[j])
}

/// Whether the slots of a material are those after an edit.
pub open spec fn slots_after(m: CustomMaterial, cmd: LibraryCommand, r: CustomMaterial) -> bool {
    match cmd {
        LibraryCommand::SetCustomMaterialLayout { uniforms, textures, buffers, .. } => r.uniforms
            == uniforms && r.textures == textures && r.buffers == buffers,
        LibraryCommand::SetMaterialUniform { name, value, .. } => value_is_set(
            m.uniforms@,
            r.uniforms@,
            name@,
            value,
        ) && r.textures == m.textures && r.buffers == m.buffers,
        _ => r.uniforms == m.uniforms && r.textures == m.textures && r.buffers == m.buffers,
    }
}

/// Whether what a shader includes and takes in is that after an edit.
pub open spec fn keys_after(
    m: CustomMaterial,
    cmd: LibraryCommand,
    includes: Seq<&'static str>,
    inputs: Seq<&'static str>,
    r: CustomMaterial,
) -> bool {
    &&& match cmd {
        LibraryCommand::SetCustomMaterialShaderIncludes { includes: wanted, .. } => kept_keys(
            wanted@,
            includes,
            r.shader_includes@,
        ),
        _ => r.shader_includes == m.shader_includes,
    }
    &&& match cmd {
        LibraryCommand::SetCustomMaterialFragmentInputs { inputs: wanted, .. } => kept_keys(
            wanted@,
            inputs,
            r.fragment_inputs@,
        ),
        _ => r.fragment_inputs == m.fragment_inputs,
    }
}

/// Whether a key is known.
pub open spec fn is_known(valid: Seq<&'static str>, k: String) -> bool {
    exists|i: int| 0 <= i < valid.len() && (#[trigger] valid[i])@ == k@
}

/// Whether a row holds those of the wanted keys that are known, and no others.
pub open spec fn kept_keys(wanted: Seq<String>, valid: Seq<&'static str>, r: Seq<String>) -> bool {
    forall|k: String| #[trigger] r.contains(k) == (wanted.contains(k) && is_known(valid, k))
}

proof fn lemma_kept_keys(wanted: Seq<String>, valid: Seq<&'static str>)
    ensures
        kept_keys(wanted, valid, valid_keys(wanted, valid)),
    decreases wanted.len(),
{
    if wanted.len() > 0 {
        let less = wanted.drop_last();
        lemma_kept_keys(less, valid);
        let a = valid_keys(less, valid);
        let r = valid_keys(wanted, valid);
        assert forall|k: String| #[trigger] r.contains(k) == (wanted.contains(k) && is_known(
            valid,
            k,
        )) by {
            assert(a.contains(k) == (less.contains(k) && is_known(valid, k)));
            if wanted.contains(k) {
                let j = choose|j: int| 0 <= j < wanted.len() && wanted[j] == k;
                if j < less.len() {
                    assert(less[j] == k);
                }
            }
            if less.contains(k) {
                let j = choose|j: int| 0 <= j < less.len() && less[j] == k;
                assert(wanted[j] == k);
            }
            if a.contains(k) {
                let j = choose|j: int| 0 <= j < a.len() && a[j] == k;
                assert(r[j] == k);
            }
            if r.contains(k) {
                let j = choose|j: int| 0 <= j < r.len() && r[j] == k;
                if j < a.len() {
                    assert(a[j] == k);
                } else {
                    assert(wanted[wanted.len() - 1] == k);
                }
            }
            if wanted.last() == k && is_known(valid, k) {
                assert(r[r.len() - 1] == k);
                assert(wanted[wanted.len() - 1] == k);
            }
        }
    } else {
        assert forall|k: String| !(#[trigger] valid_keys(wanted, valid).contains(k)) by {}
    }
}

/// An edit of a material of the library sets the part that it names of that material,
/// and nothing else; one that changes what the material compiles to makes it a draft
/// that is to be compiled again.
pub proof fn law_library_edit_sets_one_part(
    v: LibraryView,
    cmd: LibraryCommand,
    includes: Seq<&'static str>,
    inputs: Seq<&'static str>,
    w: LibraryView,
    r: Result<Option<LibraryCommand>, EditorError>,
    id: AssetId,
)
    requires
        library_step(v, cmd, includes, inputs, w, r),
        edited_id(cmd) == Some(id),
    ensures
        r is Err ==> w == v,
        r is Ok ==> {
            let at = material_at(v.materials, id);
            let a = v.materials[at];
            let b = w.materials[at];
            &&& 0 <= at < v.materials.len()
            &&& a.id == id
            &&& w.current == v.current
            &&& w.materials.len() == v.materials.len()
            &&& forall|i: int|
                0 <= i < v.materials.len() && i != at ==> #[trigger] w.materials[i]
                    == v.materials[i]
            &&& b.id == a.id
            &&& b.name == a.name
            &&& b.last_diagnostics == a.last_diagnostics
            &&& sources_after(a, cmd, b)
            &&& surface_after(a, cmd, b)
            &&& slots_after(a, cmd, b)
            &&& keys_after(a, cmd, includes, inputs, b)
            &&& recompiles(cmd) ==> !b.registered && b.recompile_rev != a.recompile_rev
            &&& !recompiles(cmd) ==> b.registered == a.registered && b.recompile_rev
                == a.recompile_rev
            &&& match cmd {
                LibraryCommand::UpdateBuiltinMaterial { def, .. } => b.builtin == Some(def),
                LibraryCommand::SetBuiltinAlphaMode { surface, .. } => a.builtin is Some
                    && b.builtin is Some && surface_is_set(a.builtin->0, surface, b.builtin->0),
                _ => b.builtin == a.builtin,
            }
        },
{
    let p = crate::custom_material::is_material(id);
    lemma_first(v.materials, p);
    if r is Ok {
        let at = material_at(v.materials, id);
        assert(p(v.materials[at]));
        let a = v.materials[at];
        if let LibraryCommand::SetCustomMaterialShaderIncludes { includes: wanted, .. } = cmd {
            lemma_kept_keys(wanted@, includes);
        }
        if let LibraryCommand::SetCustomMaterialFragmentInputs { inputs: wanted, .. } = cmd {
            lemma_kept_keys(wanted@, inputs);
        }
        if let LibraryCommand::SetMaterialUniform { name, .. } = cmd {
            let q = crate::library_edit::is_slot(name@);
            lemma_first(a.uniforms@, q);
            let i = crate::library_edit::slot_at(a.uniforms@, name@);
            assert(q(a.uniforms@[i]));
        }
    }
}

/// Whether only how a definition blends differs.
pub open spec fn surface_is_set(
    a: MaterialDef,
    surface: crate::material::MaterialAlphaMode,
    b: MaterialDef,
) -> bool {
    &&& b.alpha_mode == surface
    &&& b.label == a.label
    &&& b.shading == a.shading
    &&& b.base_color == a.base_color
    &&& b.emissive == a.emissive
    &&& b.metallic == a.metallic
    &&& b.roughness == a.roughness
    &&& b.normal_scale == a.normal_scale
    &&& b.occlusion_strength == a.occlusion_strength
    &&& b.ssr_mask == a.ssr_mask
    &&& b.double_sided == a.double_sided
    &&& b.base_color_texture == a.base_color_texture
    &&& b.metallic_roughness_texture == a.metallic_roughness_texture
    &&& b.normal_texture == a.normal_texture
    &&& b.occlusion_texture == a.occlusion_texture
    &&& b.emissive_texture == a.emissive_texture
    &&& b.extensions == a.extensions
}

proof fn lemma_without(ms: Seq<CustomMaterial>, id: AssetId)
    ensures
        forall|i: int|
            0 <= i < without_material(ms, id).len() ==> (#[trigger] without_material(ms, id)[i]).id
                != id && ms.contains(without_material(ms, id)[i]),
        forall|i: int|
            0 <= i < ms.len() && (#[trigger] ms[i]).id != id ==> without_material(ms, id).contains(
                ms[i],
            ),
    decreases ms.len(),
{
    if ms.len() > 0 {
        let less = ms.drop_last();
        lemma_without(less, id);
        let a = without_material(less, id);
        let r = without_material(ms, id);
        assert forall|i: int| 0 <= i < r.len() implies (#[trigger] r[i]).id != id && ms.contains(
            r[i],
        ) by {
            if i < a.len() {
                assert(a[i] == r[i]);
                let j = choose|j: int| 0 <= j < less.len() && less[j] == a[i];
                assert(ms[j] == r[i]);
            } else {
                assert(ms[ms.len() - 1] == r[i]);
            }
        }
        assert forall|i: int| 0 <= i < ms.len() && (#[trigger] ms[i]).id != id implies r.contains(
            ms[i],
        ) by {
            if i < less.len() {
                assert(less[i] == ms[i]);
                let j = choose|j: int| 0 <= j < a.len() && a[j] == less[i];
                assert(r[j] == ms[i]);
            } else {
                assert(r[r.len() - 1] == ms[i]);
            }
        }
    }
}

/// A material is added once, and becomes the current one; a deleted material is gone,
/// with no other, and is not the current one.
pub proof fn law_materials_come_and_go(
    v: LibraryView,
    cmd: LibraryCommand,
    includes: Seq<&'static str>,
    inputs: Seq<&'static str>,
    w: LibraryView,
    r: Result<Option<LibraryCommand>, EditorError>,
    id: AssetId,
)
    requires
        library_step(v, cmd, includes, inputs, w, r),
        cmd matches LibraryCommand::AddCustomMaterial { id: i } ==> i == id,
        cmd matches LibraryCommand::AddBuiltinMaterial { id: i, .. } ==> i == id,
        cmd matches LibraryCommand::DeleteCustomMaterial { id: i } ==> i == id,
    ensures
        cmd is AddCustomMaterial || cmd is AddBuiltinMaterial ==> {
            let n = v.materials.len() as int;
            if exists|i: int| 0 <= i < n && (#[trigger] v.materials[i]).id == id {
                w == v
            } else {
                &&& w.current == Some(id)
                &&& w.materials.len() == n + 1
                &&& forall|i: int| 0 <= i < n ==> #[trigger] w.materials[i] == v.materials[i]
                &&& w.materials[n].id == id
                &&& w.materials[n].wgsl@.len() == 0
                &&& w.materials[n].uniforms@.len() == 0
                &&& !w.materials[n].registered
                &&& match cmd {
                    LibraryCommand::AddBuiltinMaterial { shading, .. } => w.materials[n].builtin
                        is Some && w.materials[n].builtin->0.shading == shading,
                    _ => w.materials[n].builtin is None,
                }
            }
        },
        cmd is DeleteCustomMaterial ==> {
            &&& forall|i: int|
                0 <= i < w.materials.len() ==> (#[trigger] w.materials[i]).id != id
                    && v.materials.contains(w.materials[i])
            &&& forall|i: int|
                0 <= i < v.materials.len() && (#[trigger] v.materials[i]).id != id
                    ==> w.materials.contains(v.materials[i])
            &&& w.current != Some(id)
            &&& v.current != Some(id) ==> w.current == v.current
            &&& v.current == Some(id) && w.materials.len() > 0 ==> w.current == Some(
                w.materials[0].id,
            )
        },
        cmd matches LibraryCommand::SetCurrentMaterial { current } ==> w.current == current
            && w.materials == v.materials,
{
    let n = v.materials.len() as int;
    if cmd is AddCustomMaterial || cmd is AddBuiltinMaterial {
        let p = crate::custom_material::is_material(id);
        lemma_first(v.materials, p);
        if v.has_material(id) {
            assert(p(v.materials[material_at(v.materials, id)]));
        } else {
            assert forall|i: int| 0 <= i < n implies (#[trigger] v.materials[i]).id != id by {
                assert(!p(v.materials[i]));
            }
            assert forall|i: int| 0 <= i < n implies #[trigger] w.materials[i]
                == v.materials[i] by {
                assert(w.materials.drop_last()[i] == v.materials[i]);
            }
        }
    }
    if cmd is DeleteCustomMaterial {
        lemma_without(v.materials, id);
    }
}

/// An asset is added once, under its own id, as what it is asked to be; every other
/// asset stays as it is. A deleted asset is gone and is not selected; a restored one is
/// as it was; the export of a texture is set alone.
pub proof fn law_asset_edit_is_about_one_asset(
    a: Map<u128, AssetEntry>,
    sel: Option<AssetId>,
    cmd: AssetCommand,
    b: Map<u128, AssetEntry>,
    sel2: Option<AssetId>,
    r: Result<Option<AssetCommand>, EditorError>,
    k: u128,
)
    requires
        asset_step(a, sel, cmd, b, sel2, r),
    ensures
        r is Err ==> b == a && sel2 == sel,
        match cmd {
            AssetCommand::AddMaterialAsset { id, shading } => {
                &&& k != id.0 || a.contains_key(k) ==> b.contains_key(k) == a.contains_key(k)
                    && b[k] == a[k]
                &&& !a.contains_key(id.0) ==> {
                    &&& b.contains_key(id.0)
                    &&& b[id.0].source matches AssetSource::Material(d) && d.shading == shading
                    &&& sel2 == Some(id)
                }
            },
            AssetCommand::AddTextureAsset { id, procedural } => {
                &&& k != id.0 || a.contains_key(k) ==> b.contains_key(k) == a.contains_key(k)
                    && b[k] == a[k]
                &&& !a.contains_key(id.0) ==> {
                    &&& b.contains_key(id.0)
                    &&& b[id.0].source matches AssetSource::Texture(TextureDef::Procedural(d))
                        && match procedural {
                        ProceduralKind::Checker => d is Checker,
                        ProceduralKind::Gradient => d is Gradient,
                        ProceduralKind::Noise => d is Noise,
                    }
                    &&& sel2 == Some(id)
                }
            },
            AssetCommand::ImportTextureFromUrl { id, url, ext, bytes } => {
                &&& k != id.0 || a.contains_key(k) ==> b.contains_key(k) == a.contains_key(k)
                    && b[k] == a[k]
                &&& !a.contains_key(id.0) ==> {
                    &&& b.contains_key(id.0)
                    &&& b[id.0].source matches AssetSource::Texture(
                        TextureDef::Raster { display_name, color_kind },
                    ) && display_name@ == texture_name(url@, ext@) && color_kind is None
                    &&& b[id.0].content_hash@ == crate::text::hex(
                        crate::assets::sha256_of(bytes@),
                    )
                    &&& sel2 == Some(id)
                }
            },
            AssetCommand::ImportKtxEnvFromUrl { id, url } => {
                &&& k != id.0 || a.contains_key(k) ==> b.contains_key(k) == a.contains_key(k)
                    && b[k] == a[k]
                &&& sel2 == sel
                &&& !a.contains_key(id.0) ==> {
                    &&& b.contains_key(id.0)
                    &&& b[id.0].source matches AssetSource::Filename(name) && name@ == url_file(
                        url@,
                        "env.ktx2"@,
                    )
                }
            },
            AssetCommand::DeleteAsset { id } => {
                &&& !b.contains_key(id.0)
                &&& k != id.0 ==> b.contains_key(k) == a.contains_key(k) && b[k] == a[k]
                &&& a.contains_key(id.0) ==> r is Ok && sel2 != Some(id)
                &&& sel != Some(id) ==> sel2 == sel
                &&& !a.contains_key(id.0) ==> r is Err
            },
            AssetCommand::RestoreAsset { id, entry } => {
                &&& b.contains_key(id.0) && b[id.0] == entry
                &&& k != id.0 ==> b.contains_key(k) == a.contains_key(k) && b[k] == a[k]
                &&& sel2 == sel
            },
            AssetCommand::SetTextureExport { id, export } => {
                &&& sel2 == sel
                &&& b.contains_key(k) == a.contains_key(k)
                &&& k != id.0 ==> b[k] == a[k]
                &&& a.contains_key(id.0) ==> {
                    &&& r is Ok
                    &&& b[id.0].texture_export == export
                    &&& b[id.0].source == a[id.0].source
                    &&& b[id.0].content_hash == a[id.0].content_hash
                    &&& b[id.0].gltf_material_asset_ids == a[id.0].gltf_material_asset_ids
                    &&& b[id.0].gltf_image_asset_ids == a[id.0].gltf_image_asset_ids
                }
                &&& !a.contains_key(id.0) ==> r is Err
            },
        },
{
}

/// Words are written with their lowest byte first, four bytes each, and words that
/// differ are written differently.
pub proof fn law_words_are_written_lowest_byte_first(words: Seq<u32>, i: int)
    requires
        0 <= i < words.len(),
    ensures
        word_bytes(words).len() == 4 * words.len(),
        words[i] == word_bytes(words)[4 * i] + 256 * word_bytes(words)[4 * i + 1] + 65536
            * word_bytes(words)[4 * i + 2] + 16777216 * word_bytes(words)[4 * i + 3],
    decreases words.len(),
{
    lemma_word_bytes(words);
    let less = words.drop_last();
    lemma_word_bytes(less);
    if i < less.len() {
        law_words_are_written_lowest_byte_first(less, i);
        assert(less[i] == words[i]);
    } else {
        let w = words.last();
        assert(w == w % 256 + 256 * ((w / 256) % 256) + 65536 * ((w / 65536) % 256) + 16777216 * ((w
            / 16777216) % 256)) by (bit_vector);
    }
}

proof fn lemma_word_bytes(words: Seq<u32>)
    ensures
        word_bytes(words).len() == 4 * words.len(),
    decreases words.len(),
{
    if words.len() > 0 {
        lemma_word_bytes(words.drop_last());
    }
}

/// Words are kept as a buffer asset that is found again by what they are; no other asset
/// changes.
pub proof fn law_buffer_is_kept_once(
    a: Map<u128, AssetEntry>,
    words: Seq<u32>,
    fresh: AssetId,
    b: Map<u128, AssetEntry>,
    id: AssetId,
    c: Map<u128, AssetEntry>,
    again: AssetId,
    other: AssetId,
)
    requires
        interned(a, words, fresh, b, id),
        interned(b, words, other, c, again),
    ensures
        b.contains_key(id.0),
        b[id.0].source is Buffer,
        c == b,
        b.contains_key(again.0) && is_buffer_of(b[again.0], b[id.0].content_hash@),
        forall|k: u128|
            #[trigger] a.contains_key(k) && k != fresh.0 ==> b.contains_key(k) && b[k] == a[k],
{
    assert(b.contains_key(id.0) && is_buffer_of(b[id.0], b[id.0].content_hash@));
}

} // verus!

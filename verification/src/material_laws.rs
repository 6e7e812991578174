//! What holds of the edits of a node's material and of lights: each sets what it
//! names, to what it is given, and nothing else.
use crate::custom_material::{material_at, CustomMaterial};
use crate::errors::EditorError;
use crate::find::{lemma_first, lemma_first_is};
use crate::ids::{AssetId, VariantId};
use crate::material::{
    ext_slot_named, slot_bound, MaterialAlphaMode, MaterialShading, PbrExtensions, TextureRef,
    TextureUseProfile,
};
use crate::node::{light_patched, LightConfig, LightParamKind, NodeKind};
use crate::node_edit::{kind_step, NodeEdit};
use crate::palette::{
    has_id, param_patched, texture_patched, BuiltinParamKind, BuiltinTextureSlot, MaterialDef,
    MaterialInstance, Palette, TexturePatch,
};
use crate::values::{F32, Vec3};
use vstd::prelude::*;

verus! {

/// How many numbers set a factor: the parts of a color, or one.
pub open spec fn enough(param: BuiltinParamKind, value: Seq<F32>) -> bool {
    if param == BuiltinParamKind::BaseColor || param == BuiltinParamKind::Emissive {
        value.len() >= 3
    } else {
        value.len() >= 1
    }
}

/// A number that is set by one factor and kept by all others.
pub open spec fn set_by<T>(param: BuiltinParamKind, own: BuiltinParamKind, v: T, kept: T) -> T {
    if param == own {
        v
    } else {
        kept
    }
}

/// A count that is set is the one that is given, or one in place of none.
pub open spec fn counts(n: u32, given: u32) -> bool {
    n >= 1 && (given >= 1 ==> n == given)
}

/// A number kept between zero and one. The bounds are told by the patterns of zero
/// and one, which stand in the order of the numbers.
pub open spec fn keeps_to_unit(r: F32, v: F32) -> bool {
    &&& v.bits <= 0x3F80_0000 ==> r.bits == v.bits
    &&& 0x3F80_0000 < v.bits <= 0x7F80_0000 ==> r.bits == 0x3F80_0000
    &&& 0x8000_0000 < v.bits <= 0xFF80_0000 ==> r.bits == 0
}

/// Setting a factor gives it the numbers that were given, and leaves every other
/// factor, the textures, the label and the faces as they were.
pub proof fn law_one_factor_is_set(
    d: MaterialDef,
    param: BuiltinParamKind,
    value: Seq<F32>,
    count: u32,
)
    requires
        enough(param, value),
    ensures
        ({
            let r = param_patched(d, param, value, count);
            let v = value[0];
            &&& r.metallic == set_by(param, BuiltinParamKind::Metallic, v, d.metallic)
            &&& r.roughness == set_by(param, BuiltinParamKind::Roughness, v, d.roughness)
            &&& r.normal_scale == set_by(param, BuiltinParamKind::NormalScale, v, d.normal_scale)
            &&& r.occlusion_strength == set_by(
                param,
                BuiltinParamKind::OcclusionStrength,
                v,
                d.occlusion_strength,
            )
            &&& if param == BuiltinParamKind::SsrMask {
                keeps_to_unit(r.ssr_mask, v)
            } else {
                r.ssr_mask == d.ssr_mask
            }
            &&& if param == BuiltinParamKind::Emissive {
                r.emissive.x == value[0] && r.emissive.y == value[1] && r.emissive.z == value[2]
            } else {
                r.emissive == d.emissive
            }
            &&& if param == BuiltinParamKind::BaseColor {
                &&& r.base_color.x == value[0]
                &&& r.base_color.y == value[1]
                &&& r.base_color.z == value[2]
                &&& value.len() == 3 ==> r.base_color.w == d.base_color.w
                &&& value.len() > 3 ==> r.base_color.w == value[3]
            } else {
                r.base_color == d.base_color
            }
            &&& r.extensions.emissive_strength == set_by(
                param,
                BuiltinParamKind::EmissiveStrength,
                Some(v),
                d.extensions.emissive_strength,
            )
            &&& r.extensions == (PbrExtensions {
                emissive_strength: r.extensions.emissive_strength,
                ..d.extensions
            })
            &&& match d.alpha_mode {
                MaterialAlphaMode::Mask { cutoff } => r.alpha_mode == (MaterialAlphaMode::Mask {
                    cutoff: set_by(param, BuiltinParamKind::AlphaCutoff, v, cutoff),
                }),
                _ => r.alpha_mode == d.alpha_mode,
            }
            &&& match d.shading {
                MaterialShading::Toon {
                    diffuse_bands: b,
                    specular_steps: s,
                    shininess: h,
                    rim_strength: t,
                    rim_power: p,
                } => r.shading matches MaterialShading::Toon {
                    diffuse_bands,
                    specular_steps,
                    shininess,
                    rim_strength,
                    rim_power,
                } && {
                    &&& if param == BuiltinParamKind::ToonDiffuseBands {
                        counts(diffuse_bands, count)
                    } else {
                        diffuse_bands == b
                    }
                    &&& if param == BuiltinParamKind::ToonSpecularSteps {
                        counts(specular_steps, count)
                    } else {
                        specular_steps == s
                    }
                    &&& shininess == set_by(param, BuiltinParamKind::ToonShininess, v, h)
                    &&& rim_strength == set_by(param, BuiltinParamKind::ToonRimStrength, v, t)
                    &&& rim_power == set_by(param, BuiltinParamKind::ToonRimPower, v, p)
                },
                MaterialShading::FlipBook { fps: f, time_offset: o } => r.shading matches
                    MaterialShading::FlipBook { fps, time_offset } && fps == set_by(
                    param,
                    BuiltinParamKind::FlipbookFps,
                    v,
                    f,
                ) && time_offset == set_by(param, BuiltinParamKind::FlipbookTimeOffset, v, o),
                _ => r.shading == d.shading,
            }
            &&& r.label == d.label
            &&& r.double_sided == d.double_sided
            &&& r.base_color_texture == d.base_color_texture
            &&& r.metallic_roughness_texture == d.metallic_roughness_texture
            &&& r.normal_texture == d.normal_texture
            &&& r.occlusion_texture == d.occlusion_texture
            &&& r.emissive_texture == d.emissive_texture
        }),
{
}

/// Two different factors can be set in either order, and of two values of one factor
/// the later one counts.
pub proof fn law_factors_are_independent(
    d: MaterialDef,
    a: BuiltinParamKind,
    va: Seq<F32>,
    na: u32,
    b: BuiltinParamKind,
    vb: Seq<F32>,
    nb: u32,
)
    requires
        enough(a, va),
        enough(b, vb),
    ensures
        a != b ==> param_patched(param_patched(d, a, va, na), b, vb, nb) == param_patched(
            param_patched(d, b, vb, nb),
            a,
            va,
            na,
        ),
        a == b && (a == BuiltinParamKind::BaseColor ==> vb.len() > 3) ==> param_patched(
            param_patched(d, a, va, na),
            b,
            vb,
            nb,
        ) == param_patched(d, b, vb, nb),
{
}

/// Whether nothing of a kind but its palette differs.
pub open spec fn same_but_palette(k: NodeKind, k2: NodeKind) -> bool {
    match (k, k2) {
        (
            NodeKind::Mesh { mesh: a, palette: _, shadow: b, lod: c },
            NodeKind::Mesh { mesh: x, palette: _, shadow: y, lod: z },
        ) => a == x && b == y && c == z,
        (
            NodeKind::SkinnedMesh { skin: a, palette: _, shadow: b, lod: c },
            NodeKind::SkinnedMesh { skin: x, palette: _, shadow: y, lod: z },
        ) => a == x && b == y && c == z,
        (
            NodeKind::ClusterMesh { source: a, palette: _, shadow: b },
            NodeKind::ClusterMesh { source: x, palette: _, shadow: y },
        ) => a == x && b == y,
        _ => false,
    }
}

/// Whether a kind has a palette.
pub open spec fn has_palette(k: NodeKind, p: Palette) -> bool {
    match k {
        NodeKind::Mesh { mesh: _, palette, shadow: _, lod: _ } => palette == p,
        NodeKind::SkinnedMesh { skin: _, palette, shadow: _, lod: _ } => palette == p,
        NodeKind::ClusterMesh { source: _, palette, shadow: _ } => palette == p,
        _ => false,
    }
}

/// Whether the variant at `i` is the one with an id.
pub open spec fn variant_is(p: Palette, id: VariantId, i: int) -> bool {
    &&& 0 <= i < p.variants@.len()
    &&& p.variants@[i].id == id
    &&& forall|j: int| 0 <= j < i ==> (#[trigger] p.variants@[j]).id != id
}

/// Whether the variant at `i` is the one that renders.
pub open spec fn renders(k: NodeKind, p: Palette, i: int) -> bool {
    has_palette(k, p) && p.selected is Some && variant_is(p, p.selected->0, i)
}

/// Whether only the variant at `i` differs, and of that only how it is set up.
pub open spec fn one_instance_differs(p: Palette, i: int, p2: Palette) -> bool {
    &&& p2.selected == p.selected
    &&& p2.variants@.len() == p.variants@.len()
    &&& forall|j: int|
        0 <= j < p.variants@.len() && j != i ==> #[trigger] p2.variants@[j] == p.variants@[j]
    &&& p2.variants@[i].id == p.variants@[i].id
    &&& p2.variants@[i].name == p.variants@[i].name
    &&& p2.variants@[i].instance.asset == p.variants@[i].instance.asset
}

/// Whether a library material with an id is one that is written in source.
pub open spec fn is_written(ms: Seq<CustomMaterial>, id: AssetId) -> bool {
    exists|q: int|
        0 <= q < ms.len() && (#[trigger] ms[q]).id == id && ms[q].builtin is None && forall|j: int|
            0 <= j < q ==> (#[trigger] ms[j]).id != id
}

proof fn lemma_renders(k: NodeKind, p: Palette, i: int)
    requires
        renders(k, p, i),
    ensures
        k.assigned(),
        k.palette_of() == Some(p),
        p.place(p.selected->0) == i,
        k.current() == p.variants@[i].instance,
{
    lemma_first_is(p.variants@, has_id(p.selected->0), i);
}

proof fn lemma_written(ms: Seq<CustomMaterial>, id: AssetId)
    ensures
        0 <= material_at(ms, id) <= ms.len(),
        is_written(ms, id) == (material_at(ms, id) < ms.len() && ms[material_at(
            ms,
            id,
        )].builtin is None),
{
    let i = material_at(ms, id);
    lemma_first(ms, crate::custom_material::is_material(id));
    assert forall|j: int| 0 <= j < i implies (#[trigger] ms[j]).id != id by {
        assert(!crate::custom_material::is_material(id)(ms[j]));
    }
    if is_written(ms, id) {
        let q = choose|q: int|
            0 <= q < ms.len() && (#[trigger] ms[q]).id == id && ms[q].builtin is None
                && forall|j: int| 0 <= j < q ==> (#[trigger] ms[j]).id != id;
        if q < i {
            assert(ms[q].id != id);
        }
        if i < q {
            assert(ms[i].id != id);
        }
    } else if i < ms.len() && ms[i].builtin is None {
        assert(ms[i].id == id);
    }
}

/// Setting a factor of a node is setting it in the variant that renders: the other
/// variants, the overrides and all else of the node stay. A material that is written
/// in source has no factors; too few numbers set nothing.
pub proof fn law_factor_is_set_where_it_renders(
    k: NodeKind,
    p: Palette,
    i: int,
    param: BuiltinParamKind,
    numbers: Vec<F32>,
    count: u32,
    ms: Seq<CustomMaterial>,
    r: Result<Option<NodeKind>, EditorError>,
)
    requires
        kind_step(k, NodeEdit::SetBuiltinParam { param, numbers, count }, ms, r),
        renders(k, p, i),
    ensures
        is_written(ms, p.variants@[i].instance.asset) == (r is Err),
        !is_written(ms, p.variants@[i].instance.asset) ==> (r->Ok_0 is Some) == enough(
            param,
            numbers@,
        ),
        r matches Ok(Some(k2)) ==> same_but_palette(k, k2) && exists|p2: Palette| #[trigger]
            has_palette(k2, p2) && one_instance_differs(p, i, p2) && {
                let a = p.variants@[i].instance;
                let b = p2.variants@[i].instance;
                &&& b.uniform_overrides == a.uniform_overrides
                &&& b.texture_overrides == a.texture_overrides
                &&& b.buffer_overrides == a.buffer_overrides
                &&& b.inline == param_patched(a.inline, param, numbers@, count)
            },
{
    lemma_renders(k, p, i);
    lemma_written(ms, p.variants@[i].instance.asset);
    if let Ok(Some(k2)) = r {
        let p2 = k2.palette_of()->0;
        assert(has_palette(k2, p2));
        assert(one_instance_differs(p, i, p2));
    }
}

/// A texture as it is bound where only its asset is given.
pub open spec fn bare_texture(t: Option<TextureRef>, asset: Option<AssetId>) -> bool {
    match (t, asset) {
        (Some(t), Some(a)) => {
            &&& t.asset == a
            &&& t.uv_index == 0
            &&& t.transform is None
            &&& t.sampler is None
            &&& t.flow is None
            &&& t.export_profile is None
        },
        (None, None) => true,
        _ => false,
    }
}

/// A texture that a slot is given, or that it keeps.
pub open spec fn slot_kept(
    slot: BuiltinTextureSlot,
    own: BuiltinTextureSlot,
    after: Option<TextureRef>,
    before: Option<TextureRef>,
) -> bool {
    slot != own ==> after == before
}

/// The five textures and what else a definition holds.
pub open spec fn only_slot_differs(d: MaterialDef, e: MaterialDef, slot: BuiltinTextureSlot) -> bool {
    &&& slot_kept(
        slot,
        BuiltinTextureSlot::BaseColor,
        e.base_color_texture,
        d.base_color_texture,
    )
    &&& slot_kept(
        slot,
        BuiltinTextureSlot::MetallicRoughness,
        e.metallic_roughness_texture,
        d.metallic_roughness_texture,
    )
    &&& slot_kept(slot, BuiltinTextureSlot::Normal, e.normal_texture, d.normal_texture)
    &&& slot_kept(slot, BuiltinTextureSlot::Occlusion, e.occlusion_texture, d.occlusion_texture)
    &&& slot_kept(slot, BuiltinTextureSlot::Emissive, e.emissive_texture, d.emissive_texture)
    &&& e == (MaterialDef {
        base_color_texture: e.base_color_texture,
        metallic_roughness_texture: e.metallic_roughness_texture,
        normal_texture: e.normal_texture,
        occlusion_texture: e.occlusion_texture,
        emissive_texture: e.emissive_texture,
        ..d
    })
}

/// Whether a slot of a definition holds a texture.
pub open spec fn slot_holds(d: MaterialDef, slot: BuiltinTextureSlot, t: Option<TextureRef>) -> bool {
    t == if slot == BuiltinTextureSlot::BaseColor {
        d.base_color_texture
    } else if slot == BuiltinTextureSlot::MetallicRoughness {
        d.metallic_roughness_texture
    } else if slot == BuiltinTextureSlot::Normal {
        d.normal_texture
    } else if slot == BuiltinTextureSlot::Occlusion {
        d.occlusion_texture
    } else {
        d.emissive_texture
    }
}

/// Binding a texture puts it into the slot that is named, of the variant that
/// renders, and into no other.
pub proof fn law_texture_is_bound_to_its_slot(
    k: NodeKind,
    p: Palette,
    i: int,
    slot: BuiltinTextureSlot,
    texture: Option<AssetId>,
    ms: Seq<CustomMaterial>,
    r: Result<Option<NodeKind>, EditorError>,
)
    requires
        kind_step(k, NodeEdit::SetBuiltinTexture { slot, texture }, ms, r),
        renders(k, p, i),
    ensures
        r matches Ok(Some(k2)) && same_but_palette(k, k2) && exists|p2: Palette, t: Option<TextureRef>|
            #![trigger has_palette(k2, p2), bare_texture(t, texture)]
            has_palette(k2, p2) && bare_texture(t, texture) && one_instance_differs(p, i, p2) && {
                let a = p.variants@[i].instance;
                let b = p2.variants@[i].instance;
                &&& b == (MaterialInstance { inline: b.inline, ..a })
                &&& slot_holds(b.inline, slot, t)
                &&& only_slot_differs(a.inline, b.inline, slot)
            },
{
    lemma_renders(k, p, i);
    if let Ok(Some(k2)) = r {
        let p2 = k2.palette_of()->0;
        let t: Option<TextureRef> = match texture {
            Some(a) => Some(TextureRef::new(a)),
            None => None,
        };
        assert(has_palette(k2, p2) && bare_texture(t, texture));
        assert(one_instance_differs(p, i, p2));
    }
}

/// A patch of a texture sets the parts that it names and keeps the others.
pub proof fn law_texture_patch_sets_its_parts(t: TextureRef, p: TexturePatch)
    ensures
        ({
            let r = texture_patched(t, p);
            let zero = F32 { bits: 0 };
            let one = F32 { bits: 0x3F80_0000 };
            &&& r.asset == t.asset
            &&& r.export_profile == t.export_profile
            &&& p.uv_set is None ==> r.uv_index == t.uv_index
            &&& p.uv_set is Some ==> r.uv_index == p.uv_set->0
            &&& p.flow is None ==> r.flow == t.flow
            &&& p.flow is Some ==> r.flow == p.flow
            &&& p.offset is None && p.scale is None && p.rotation is None ==> r.transform
                == t.transform
            &&& p.offset is Some || p.scale is Some || p.rotation is Some ==> r.transform is Some
            &&& p.offset is Some ==> r.transform->0.offset == p.offset->0
            &&& p.scale is Some ==> r.transform->0.scale == p.scale->0
            &&& p.rotation is Some ==> r.transform->0.rotation == p.rotation->0
            &&& t.transform is Some && p.offset is None ==> r.transform->0.offset
                == t.transform->0.offset
            &&& t.transform is Some && p.scale is None ==> r.transform->0.scale
                == t.transform->0.scale
            &&& t.transform is Some && p.rotation is None ==> r.transform->0.rotation
                == t.transform->0.rotation
            &&& t.transform is None && r.transform is Some ==> {
                &&& p.offset is None ==> r.transform->0.offset.x == zero
                    && r.transform->0.offset.y == zero
                &&& p.scale is None ==> r.transform->0.scale.x == one && r.transform->0.scale.y
                    == one
                &&& p.rotation is None ==> r.transform->0.rotation == zero
            }
            &&& p.wrap_u is None && p.wrap_v is None && p.mag_filter is None && p.min_filter is None
                && p.mipmap_filter is None ==> r.sampler == t.sampler
            &&& p.wrap_u is Some ==> r.sampler is Some && r.sampler->0.wrap_u == p.wrap_u->0
            &&& p.wrap_v is Some ==> r.sampler is Some && r.sampler->0.wrap_v == p.wrap_v->0
            &&& p.mag_filter is Some ==> r.sampler is Some && r.sampler->0.mag_filter
                == p.mag_filter->0
            &&& p.min_filter is Some ==> r.sampler is Some && r.sampler->0.min_filter
                == p.min_filter->0
            &&& p.mipmap_filter is Some ==> r.sampler is Some && r.sampler->0.mipmap_filter
                == p.mipmap_filter->0
            &&& t.sampler is Some ==> {
                &&& p.wrap_u is None ==> r.sampler->0.wrap_u == t.sampler->0.wrap_u
                &&& p.wrap_v is None ==> r.sampler->0.wrap_v == t.sampler->0.wrap_v
                &&& p.mag_filter is None ==> r.sampler->0.mag_filter == t.sampler->0.mag_filter
                &&& p.min_filter is None ==> r.sampler->0.min_filter == t.sampler->0.min_filter
                &&& p.mipmap_filter is None ==> r.sampler->0.mipmap_filter
                    == t.sampler->0.mipmap_filter
            }
        }),
{
}

/// A patch of a node's texture changes the texture of the slot that is named, of the
/// variant that renders, and no other. A slot without a texture is refused.
pub proof fn law_texture_is_patched_in_its_slot(
    k: NodeKind,
    p: Palette,
    i: int,
    slot: BuiltinTextureSlot,
    patch: TexturePatch,
    t: Option<TextureRef>,
    ms: Seq<CustomMaterial>,
    r: Result<Option<NodeKind>, EditorError>,
)
    requires
        kind_step(k, NodeEdit::SetNodeTextureTransform { slot, patch }, ms, r),
        renders(k, p, i),
        slot_holds(p.variants@[i].instance.inline, slot, t),
    ensures
        t is None ==> r == Err::<Option<NodeKind>, EditorError>(EditorError::SlotUnbound(slot)),
        t is Some ==> (r matches Ok(Some(k2)) && same_but_palette(k, k2) && exists|p2: Palette|
            #[trigger] has_palette(k2, p2) && one_instance_differs(p, i, p2) && {
                let a = p.variants@[i].instance;
                let b = p2.variants@[i].instance;
                &&& b == (MaterialInstance { inline: b.inline, ..a })
                &&& slot_holds(b.inline, slot, Some(texture_patched(t->0, patch)))
                &&& only_slot_differs(a.inline, b.inline, slot)
            }),
{
    lemma_renders(k, p, i);
    if let Ok(Some(k2)) = r {
        let p2 = k2.palette_of()->0;
        assert(has_palette(k2, p2));
        assert(one_instance_differs(p, i, p2));
    }
}

/// An override of the variant that renders is found under its name, and the overrides
/// of other names stay; what is taken away is gone.
pub proof fn law_override_is_found_under_its_name(
    k: NodeKind,
    p: Palette,
    i: int,
    edit: NodeEdit,
    ms: Seq<CustomMaterial>,
    r: Result<Option<NodeKind>, EditorError>,
    other: Seq<char>,
)
    requires
        kind_step(k, edit, ms, r),
        renders(k, p, i),
        edit is SetNodeMaterialUniform || edit is SetMaterialTexture || edit is SetMaterialBuffer,
    ensures
        r matches Ok(Some(k2)) && same_but_palette(k, k2) && exists|p2: Palette| #[trigger]
            has_palette(k2, p2) && one_instance_differs(p, i, p2) && {
                let a = p.variants@[i].instance;
                let b = p2.variants@[i].instance;
                &&& b.inline == a.inline
                &&& !(edit is SetNodeMaterialUniform) ==> b.uniform_overrides
                    == a.uniform_overrides
                &&& !(edit is SetMaterialTexture) ==> b.texture_overrides == a.texture_overrides
                &&& !(edit is SetMaterialBuffer) ==> b.buffer_overrides == a.buffer_overrides
                &&& edit matches NodeEdit::SetNodeMaterialUniform { name, value } ==> {
                    let x = a.uniform_overrides@;
                    let y = b.uniform_overrides@;
                    &&& y.contains_key(name@) && y[name@] == value
                    &&& other != name@ ==> y.contains_key(other) == x.contains_key(other)
                        && y[other] == x[other]
                }
                &&& edit matches NodeEdit::SetMaterialTexture { named, texture } ==> {
                    let x = a.texture_overrides@;
                    let y = b.texture_overrides@;
                    &&& y.contains_key(named@) == (texture is Some)
                    &&& texture is Some ==> bare_texture(Some(y[named@]), texture)
                    &&& other != named@ ==> y.contains_key(other) == x.contains_key(other) && (
                    x.contains_key(other) ==> y[other] == x[other])
                }
                &&& edit matches NodeEdit::SetMaterialBuffer { named, buffer } ==> {
                    let x = a.buffer_overrides@;
                    let y = b.buffer_overrides@;
                    &&& y.contains_key(named@) == (buffer is Some)
                    &&& buffer is Some ==> y[named@] == buffer->0
                    &&& other != named@ ==> y.contains_key(other) == x.contains_key(other) && (
                    x.contains_key(other) ==> y[other] == x[other])
                }
            },
{
    lemma_renders(k, p, i);
    if let Ok(Some(k2)) = r {
        let p2 = k2.palette_of()->0;
        assert(has_palette(k2, p2));
        assert(one_instance_differs(p, i, p2));
    }
}

/// Whether a name is that of a built-in slot.
pub open spec fn names_slot(name: Seq<char>, slot: BuiltinTextureSlot) -> bool {
    name == if slot == BuiltinTextureSlot::BaseColor {
        "base_color"@
    } else if slot == BuiltinTextureSlot::MetallicRoughness {
        "metallic_roughness"@
    } else if slot == BuiltinTextureSlot::Normal {
        "normal"@
    } else if slot == BuiltinTextureSlot::Occlusion {
        "occlusion"@
    } else {
        "emissive"@
    }
}

/// The export profile of a texture is set where the texture is bound: in a built-in
/// slot by its name. All else of the texture, and every other slot, stays.
pub proof fn law_profile_is_set_on_the_bound_texture(
    k: NodeKind,
    p: Palette,
    i: int,
    named: String,
    slot: BuiltinTextureSlot,
    profile: Option<TextureUseProfile>,
    t: TextureRef,
    ms: Seq<CustomMaterial>,
    r: Result<Option<NodeKind>, EditorError>,
)
    requires
        kind_step(k, NodeEdit::SetTextureUseProfile { named, profile }, ms, r),
        renders(k, p, i),
        names_slot(named@, slot),
        slot_holds(p.variants@[i].instance.inline, slot, Some(t)),
    ensures
        r matches Ok(Some(k2)) && same_but_palette(k, k2) && exists|p2: Palette| #[trigger]
            has_palette(k2, p2) && one_instance_differs(p, i, p2) && {
                let a = p.variants@[i].instance;
                let b = p2.variants@[i].instance;
                &&& b == (MaterialInstance { inline: b.inline, ..a })
                &&& slot_holds(
                    b.inline,
                    slot,
                    Some(TextureRef { export_profile: profile, ..t }),
                )
                &&& only_slot_differs(a.inline, b.inline, slot)
            },
{
    lemma_renders(k, p, i);
    reveal_strlit("base_color");
    reveal_strlit("metallic_roughness");
    reveal_strlit("normal");
    reveal_strlit("occlusion");
    reveal_strlit("emissive");
    assert("base_color"@.len() == 10 && "metallic_roughness"@.len() == 18);
    assert("normal"@.len() == 6 && "occlusion"@.len() == 9 && "emissive"@.len() == 8);
    if let Ok(Some(k2)) = r {
        let p2 = k2.palette_of()->0;
        assert(has_palette(k2, p2));
        assert(one_instance_differs(p, i, p2));
    }
}

/// Of a kind with a palette, an edit of the variants changes nothing but the palette:
/// a selection selects a variant that is there, a removal takes one away and the
/// selection with it, a new name is that of one variant, and a new variant comes last
/// and renders with the material that it was made from.
pub proof fn law_variant_edit_does_what_it_says(
    k: NodeKind,
    p: Palette,
    edit: NodeEdit,
    ms: Seq<CustomMaterial>,
    r: Result<Option<NodeKind>, EditorError>,
    i: int,
)
    requires
        kind_step(k, edit, ms, r),
        has_palette(k, p),
    ensures
        r matches Ok(Some(k2)) ==> (edit is SelectMaterialVariant || edit is AddMaterialVariant
            || edit is RemoveMaterialVariant || edit is RenameMaterialVariant)
            ==> same_but_palette(k, k2) && exists|p2: Palette| #[trigger] has_palette(k2, p2) && {
            let a = p.variants@;
            let b = p2.variants@;
            &&& edit matches NodeEdit::SelectMaterialVariant(v) ==> p2.selected == v && b == a
            &&& edit matches NodeEdit::AddMaterialVariant { material, id, given } ==> {
                &&& p2.selected == p.selected
                &&& b.len() == a.len() + 1
                &&& 0 <= i < a.len() ==> b[i] == a[i]
                &&& b.last().id == id
                &&& given is Some ==> b.last().name@ == given->0@
                &&& b.last().instance.asset == material
                &&& ms[material_at(ms, material)].builtin is Some ==> b.last().instance.inline
                    == ms[material_at(ms, material)].builtin->0
                &&& ms[material_at(ms, material)].builtin is None ==> b.last().instance.inline.shading
                    is Pbr
                &&& b.last().instance.uniform_overrides@.dom() =~= Set::empty()
                &&& b.last().instance.texture_overrides@.dom() =~= Set::empty()
                &&& b.last().instance.buffer_overrides@.dom() =~= Set::empty()
            }
            &&& edit matches NodeEdit::RemoveMaterialVariant(v) ==> variant_is(p, v, i) ==> {
                &&& b.len() == a.len() - 1
                &&& forall|j: int| 0 <= j < i ==> #[trigger] b[j] == a[j]
                &&& forall|j: int| i <= j < b.len() ==> #[trigger] b[j] == a[j + 1]
                &&& p2.selected != Some(v)
                &&& p.selected != Some(v) ==> p2.selected == p.selected
                &&& p.selected == Some(v) ==> p2.selected is None
            }
            &&& edit matches NodeEdit::RenameMaterialVariant { variant, name } ==> variant_is(
                p,
                variant,
                i,
            ) ==> {
                &&& b.len() == a.len()
                &&& p2.selected == p.selected
                &&& forall|j: int| 0 <= j < a.len() && j != i ==> #[trigger] b[j] == a[j]
                &&& b[i].name == name
                &&& b[i].id == a[i].id
                &&& b[i].instance == a[i].instance
            }
        },
        edit matches NodeEdit::SelectMaterialVariant(Some(v)) ==> variant_is(p, v, i) ==> r is Ok,
        edit matches NodeEdit::SelectMaterialVariant(Some(v)) ==> (forall|j: int|
            0 <= j < p.variants@.len() ==> (#[trigger] p.variants@[j]).id != v) ==> r is Err,
        edit matches NodeEdit::RemoveMaterialVariant(v) ==> variant_is(p, v, i) ==> r is Ok,
        edit matches NodeEdit::RenameMaterialVariant { variant, .. } ==> variant_is(p, variant, i)
            ==> r is Ok,
        edit is SelectMaterialVariant || edit is AddMaterialVariant || edit is RemoveMaterialVariant
            || edit is RenameMaterialVariant ==> !(r matches Ok(None)),
{
    if let Ok(Some(k2)) = r {
        if edit is SelectMaterialVariant || edit is AddMaterialVariant
            || edit is RemoveMaterialVariant || edit is RenameMaterialVariant {
            let p2 = k2.palette_of()->0;
            assert(has_palette(k2, p2));
            if let NodeEdit::AddMaterialVariant { material, .. } = edit {
                lemma_first(ms, crate::custom_material::is_material(material));
            }
        }
    }
    match edit {
        NodeEdit::SelectMaterialVariant(Some(v)) => {
            lemma_first(p.variants@, has_id(v));
            if variant_is(p, v, i) {
                lemma_first_is(p.variants@, has_id(v), i);
            }
        },
        NodeEdit::RemoveMaterialVariant(v) => {
            if variant_is(p, v, i) {
                lemma_first_is(p.variants@, has_id(v), i);
            }
        },
        NodeEdit::RenameMaterialVariant { variant, name } => {
            if variant_is(p, variant, i) {
                lemma_first_is(p.variants@, has_id(variant), i);
            }
        },
        _ => {},
    }
}

/// What a light is set to, part by part. A part that its kind does not have is
/// `None`.
pub open spec fn light_parts(l: LightConfig) -> (
    Vec3,
    F32,
    Option<F32>,
    Option<F32>,
    Option<F32>,
) {
    match l {
        LightConfig::Directional { color, intensity } => (color, intensity, None, None, None),
        LightConfig::Point { color, intensity, range } => (
            color,
            intensity,
            Some(range),
            None,
            None,
        ),
        LightConfig::Spot { color, intensity, range, inner_angle, outer_angle } => (
            color,
            intensity,
            Some(range),
            Some(inner_angle),
            Some(outer_angle),
        ),
    }
}

/// Setting a part of a light gives that part the numbers, and keeps its kind and its
/// other parts. A part that its kind does not have cannot be set.
pub proof fn law_one_part_of_a_light_is_set(l: LightConfig, param: LightParamKind, value: Seq<F32>)
    ensures
        ({
            let r = light_patched(l, param, value);
            let (color, intensity, range, inner, outer) = light_parts(l);
            let (color2, intensity2, range2, inner2, outer2) = light_parts(r->0);
            let has = match param {
                LightParamKind::Color => value.len() >= 3,
                LightParamKind::Intensity => value.len() >= 1,
                LightParamKind::Range => value.len() >= 1 && range is Some,
                LightParamKind::InnerAngle => value.len() >= 1 && inner is Some,
                LightParamKind::OuterAngle => value.len() >= 1 && outer is Some,
            };
            &&& (r is Some) == has
            &&& r is Some ==> {
                &&& if param == LightParamKind::Color {
                    color2.x == value[0] && color2.y == value[1] && color2.z == value[2]
                } else {
                    color2 == color
                }
                &&& intensity2 == if param == LightParamKind::Intensity {
                    value[0]
                } else {
                    intensity
                }
                &&& range2 == if param == LightParamKind::Range {
                    Some(value[0])
                } else {
                    range
                }
                &&& inner2 == if param == LightParamKind::InnerAngle {
                    Some(value[0])
                } else {
                    inner
                }
                &&& outer2 == if param == LightParamKind::OuterAngle {
                    Some(value[0])
                } else {
                    outer
                }
            }
        }),
{
}

/// A part of a light is set on a node that is a light, and on no other.
pub proof fn law_light_edit_sets_the_light(
    k: NodeKind,
    light: LightParamKind,
    numbers: Vec<F32>,
    ms: Seq<CustomMaterial>,
    r: Result<Option<NodeKind>, EditorError>,
)
    requires
        kind_step(k, NodeEdit::SetLightParam { light, numbers }, ms, r),
    ensures
        r is Ok,
        r matches Ok(Some(k2)) ==> (k matches NodeKind::Light(l) && k2 matches NodeKind::Light(m)
            && light_patched(l, light, numbers@) == Some(m)),
        k matches NodeKind::Light(l) ==> light_patched(l, light, numbers@) is Some ==> r->Ok_0
            is Some,
{
}

/// A texture of an extension stands in the part of the extension that its key names,
/// and binding it changes that part alone.
pub proof fn law_extension_keys_name_their_parts(ext: PbrExtensions, tref: Option<TextureRef>, key: Seq<char>)
    ensures
        ({
            let r = match ext_slot_named(key) {
                Some(s) => slot_bound(ext, s, tref),
                None => ext,
            };
            &&& r.emissive_strength == ext.emissive_strength
            &&& (r.specular is Some) == (ext.specular is Some)
            &&& (r.transmission is Some) == (ext.transmission is Some)
            &&& (r.diffuse_transmission is Some) == (ext.diffuse_transmission is Some)
            &&& (r.volume is Some) == (ext.volume is Some)
            &&& (r.clearcoat is Some) == (ext.clearcoat is Some)
            &&& (r.sheen is Some) == (ext.sheen is Some)
            &&& (r.anisotropy is Some) == (ext.anisotropy is Some)
            &&& (r.iridescence is Some) == (ext.iridescence is Some)
            &&& ext.specular is Some ==> {
                &&& part_set(key, "specular.tex"@, r.specular->0.tex, tref, ext.specular->0.tex)
                &&& part_set(
                    key,
                    "specular.color_tex"@,
                    r.specular->0.color_tex,
                    tref,
                    ext.specular->0.color_tex,
                )
            }
            &&& ext.transmission is Some ==> part_set(
                key,
                "transmission.tex"@,
                r.transmission->0.tex,
                tref,
                ext.transmission->0.tex,
            )
            &&& ext.diffuse_transmission is Some ==> {
                &&& part_set(
                    key,
                    "diffuse_transmission.tex"@,
                    r.diffuse_transmission->0.tex,
                    tref,
                    ext.diffuse_transmission->0.tex,
                )
                &&& part_set(
                    key,
                    "diffuse_transmission.color_tex"@,
                    r.diffuse_transmission->0.color_tex,
                    tref,
                    ext.diffuse_transmission->0.color_tex,
                )
            }
            &&& ext.volume is Some ==> part_set(
                key,
                "volume.thickness_tex"@,
                r.volume->0.thickness_tex,
                tref,
                ext.volume->0.thickness_tex,
            )
            &&& ext.clearcoat is Some ==> {
                &&& part_set(key, "clearcoat.tex"@, r.clearcoat->0.tex, tref, ext.clearcoat->0.tex)
                &&& part_set(
                    key,
                    "clearcoat.roughness_tex"@,
                    r.clearcoat->0.roughness_tex,
                    tref,
                    ext.clearcoat->0.roughness_tex,
                )
                &&& part_set(
                    key,
                    "clearcoat.normal_tex"@,
                    r.clearcoat->0.normal_tex,
                    tref,
                    ext.clearcoat->0.normal_tex,
                )
            }
            &&& ext.sheen is Some ==> {
                &&& part_set(
                    key,
                    "sheen.color_tex"@,
                    r.sheen->0.color_tex,
                    tref,
                    ext.sheen->0.color_tex,
                )
                &&& part_set(
                    key,
                    "sheen.roughness_tex"@,
                    r.sheen->0.roughness_tex,
                    tref,
                    ext.sheen->0.roughness_tex,
                )
            }
            &&& ext.anisotropy is Some ==> part_set(
                key,
                "anisotropy.tex"@,
                r.anisotropy->0.tex,
                tref,
                ext.anisotropy->0.tex,
            )
            &&& ext.iridescence is Some ==> {
                &&& part_set(
                    key,
                    "iridescence.tex"@,
                    r.iridescence->0.tex,
                    tref,
                    ext.iridescence->0.tex,
                )
                &&& part_set(
                    key,
                    "iridescence.thickness_tex"@,
                    r.iridescence->0.thickness_tex,
                    tref,
                    ext.iridescence->0.thickness_tex,
                )
            }
        }),
{
    lemma_keys_apart();
}

/// A part is set by its own key, and kept under any other.
pub open spec fn part_set(
    key: Seq<char>,
    own: Seq<char>,
    after: Option<TextureRef>,
    tref: Option<TextureRef>,
    before: Option<TextureRef>,
) -> bool {
    after == if key == own {
        tref
    } else {
        before
    }
}

proof fn lemma_keys_apart()
    ensures
        "specular.tex"@.len() == 12,
        "specular.color_tex"@.len() == 18,
        "transmission.tex"@.len() == 16,
        "diffuse_transmission.tex"@.len() == 24,
        "diffuse_transmission.color_tex"@.len() == 30,
        "volume.thickness_tex"@.len() == 20,
        "clearcoat.tex"@.len() == 13,
        "clearcoat.roughness_tex"@.len() == 23,
        "clearcoat.normal_tex"@.len() == 20,
        "sheen.color_tex"@.len() == 15,
        "sheen.roughness_tex"@.len() == 19,
        "anisotropy.tex"@.len() == 14,
        "iridescence.tex"@.len() == 15,
        "iridescence.thickness_tex"@.len() == 25,
        "volume.thickness_tex"@ != "clearcoat.normal_tex"@,
        "sheen.color_tex"@ != "iridescence.tex"@,
{
    reveal_strlit("specular.tex");
    reveal_strlit("specular.color_tex");
    reveal_strlit("transmission.tex");
    reveal_strlit("diffuse_transmission.tex");
    reveal_strlit("diffuse_transmission.color_tex");
    reveal_strlit("volume.thickness_tex");
    reveal_strlit("clearcoat.tex");
    reveal_strlit("clearcoat.roughness_tex");
    reveal_strlit("clearcoat.normal_tex");
    reveal_strlit("sheen.color_tex");
    reveal_strlit("sheen.roughness_tex");
    reveal_strlit("anisotropy.tex");
    reveal_strlit("iridescence.tex");
    reveal_strlit("iridescence.thickness_tex");
    assert("volume.thickness_tex"@[0] == 'v');
    assert("clearcoat.normal_tex"@[0] == 'c');
    assert("sheen.color_tex"@[0] == 's');
    assert("iridescence.tex"@[0] == 'i');
}

} // verus!

//! An edit of a built-in material, carried to the meshes that render with it. Each
//! mesh has a copy of the definition of its own: a slot that still holds what the
//! definition held follows it, and one that the mesh has changed is kept.
use crate::ids::AssetId;
use crate::list::{List, Same};
use crate::material::{PbrExtensions, TextureRef};
use crate::node::NodeKind;
use crate::palette::{MaterialDef, MaterialInstance, MaterialVariant, Palette};
use crate::tree::{forest, lemma_model, Node, NodeData, Tree};
use crate::values::F32;
use vstd::prelude::*;

verus! {

/// What a slot holds after the definition changed.
pub open spec fn followed<T>(own: T, before: T, after: T) -> T {
    if own == before {
        after
    } else {
        own
    }
}

/// The extensions after the definition changed, each one a slot.
pub open spec fn extensions_followed(
    own: PbrExtensions,
    before: PbrExtensions,
    after: PbrExtensions,
) -> PbrExtensions {
    PbrExtensions {
        emissive_strength: followed(
            own.emissive_strength,
            before.emissive_strength,
            after.emissive_strength,
        ),
        specular: followed(own.specular, before.specular, after.specular),
        transmission: followed(own.transmission, before.transmission, after.transmission),
        diffuse_transmission: followed(
            own.diffuse_transmission,
            before.diffuse_transmission,
            after.diffuse_transmission,
        ),
        volume: followed(own.volume, before.volume, after.volume),
        clearcoat: followed(own.clearcoat, before.clearcoat, after.clearcoat),
        sheen: followed(own.sheen, before.sheen, after.sheen),
        anisotropy: followed(own.anisotropy, before.anisotropy, after.anisotropy),
        iridescence: followed(own.iridescence, before.iridescence, after.iridescence),
    }
}

/// The definition that a mesh renders with after that of its material changed.
pub open spec fn def_followed(
    own: MaterialDef,
    before: MaterialDef,
    after: MaterialDef,
) -> MaterialDef {
    MaterialDef {
        label: own.label,
        shading: followed(own.shading, before.shading, after.shading),
        base_color: followed(own.base_color, before.base_color, after.base_color),
        emissive: followed(own.emissive, before.emissive, after.emissive),
        metallic: followed(own.metallic, before.metallic, after.metallic),
        roughness: followed(own.roughness, before.roughness, after.roughness),
        normal_scale: followed(own.normal_scale, before.normal_scale, after.normal_scale),
        occlusion_strength: followed(
            own.occlusion_strength,
            before.occlusion_strength,
            after.occlusion_strength,
        ),
        ssr_mask: followed(own.ssr_mask, before.ssr_mask, after.ssr_mask),
        alpha_mode: followed(own.alpha_mode, before.alpha_mode, after.alpha_mode),
        double_sided: followed(own.double_sided, before.double_sided, after.double_sided),
        base_color_texture: followed(
            own.base_color_texture,
            before.base_color_texture,
            after.base_color_texture,
        ),
        metallic_roughness_texture: followed(
            own.metallic_roughness_texture,
            before.metallic_roughness_texture,
            after.metallic_roughness_texture,
        ),
        normal_texture: followed(own.normal_texture, before.normal_texture, after.normal_texture),
        occlusion_texture: followed(
            own.occlusion_texture,
            before.occlusion_texture,
            after.occlusion_texture,
        ),
        emissive_texture: followed(
            own.emissive_texture,
            before.emissive_texture,
            after.emissive_texture,
        ),
        extensions: extensions_followed(own.extensions, before.extensions, after.extensions),
    }
}

/// An entry of a palette after a material changed.
pub open spec fn variant_followed(
    v: MaterialVariant,
    id: AssetId,
    before: MaterialDef,
    after: MaterialDef,
) -> MaterialVariant {
    if v.instance.asset == id {
        MaterialVariant {
            instance: MaterialInstance {
                inline: def_followed(v.instance.inline, before, after),
                ..v.instance
            },
            ..v
        }
    } else {
        v
    }
}

/// The entries of a palette after a material changed.
pub open spec fn variants_followed(
    row: Seq<MaterialVariant>,
    id: AssetId,
    before: MaterialDef,
    after: MaterialDef,
) -> Seq<MaterialVariant> {
    row.map_values(|v: MaterialVariant| variant_followed(v, id, before, after))
}

/// Whether a kind has a palette entry of a material.
pub open spec fn renders_with(k: NodeKind, id: AssetId) -> bool {
    k.palette_of() is Some && exists|i: int|
        0 <= i < k.palette_of()->0.variants@.len() && (
        #[trigger] k.palette_of()->0.variants@[i]).instance.asset == id
}

/// Whether a kind is another one with other entries in its palette.
pub open spec fn repainted(k: NodeKind, row: Seq<MaterialVariant>, k2: NodeKind) -> bool {
    let p2 = k2.palette_of()->0;
    &&& k2.palette_of() is Some
    &&& k2 == k.with_palette(p2)
    &&& p2.selected == k.palette_of()->0.selected
    &&& p2.variants@ == row
}

/// Whether a kind is what another is after a material changed.
pub open spec fn kind_followed(
    k: NodeKind,
    id: AssetId,
    before: MaterialDef,
    after: MaterialDef,
    k2: NodeKind,
) -> bool {
    if renders_with(k, id) {
        repainted(k, variants_followed(k.palette_of()->0.variants@, id, before, after), k2)
    } else {
        k2 == k
    }
}

/// Whether a tree is what another is after a material changed.
pub open spec fn tree_followed(
    t: Tree,
    id: AssetId,
    before: MaterialDef,
    after: MaterialDef,
    t2: Tree,
) -> bool
    decreases t,
{
    &&& t2.id == t.id
    &&& t2.data == (NodeData { kind: t2.data.kind, ..t.data })
    &&& kind_followed(t.data.kind, id, before, after, t2.data.kind)
    &&& t2.children.len() == t.children.len()
    &&& forall|i: int|
        0 <= i < t.children.len() ==> tree_followed(
            #[trigger] t.children[i],
            id,
            before,
            after,
            t2.children[i],
        )
}

/// Whether the trees of a scene are what they are after a material changed.
pub open spec fn scene_followed(
    f: Seq<Tree>,
    id: AssetId,
    before: MaterialDef,
    after: MaterialDef,
    g: Seq<Tree>,
) -> bool {
    &&& g.len() == f.len()
    &&& forall|i: int| 0 <= i < f.len() ==> tree_followed(#[trigger] f[i], id, before, after, g[i])
}

fn follow_extensions(own: PbrExtensions, before: PbrExtensions, after: PbrExtensions) -> (r:
    PbrExtensions)
    ensures
        r == extensions_followed(own, before, after),
{
    let mut r = own;
    if own.emissive_strength == before.emissive_strength {
        r.emissive_strength = after.emissive_strength;
    }
    if own.specular == before.specular {
        r.specular = after.specular;
    }
    if own.transmission == before.transmission {
        r.transmission = after.transmission;
    }
    if own.diffuse_transmission == before.diffuse_transmission {
        r.diffuse_transmission = after.diffuse_transmission;
    }
    if own.volume == before.volume {
        r.volume = after.volume;
    }
    if own.clearcoat == before.clearcoat {
        r.clearcoat = after.clearcoat;
    }
    if own.sheen == before.sheen {
        r.sheen = after.sheen;
    }
    if own.anisotropy == before.anisotropy {
        r.anisotropy = after.anisotropy;
    }
    if own.iridescence == before.iridescence {
        r.iridescence = after.iridescence;
    }
    r
}

fn follow_number(own: F32, before: F32, after: F32) -> (r: F32)
    ensures
        r == followed(own, before, after),
{
    if own == before {
        after
    } else {
        own
    }
}

fn follow_texture(
    own: Option<TextureRef>,
    before: Option<TextureRef>,
    after: Option<TextureRef>,
) -> (r: Option<TextureRef>)
    ensures
        r == followed(own, before, after),
{
    if own == before {
        after
    } else {
        own
    }
}

/// The definition that a mesh renders with after that of its material changed.
pub fn follow_def(own: &MaterialDef, before: &MaterialDef, after: &MaterialDef) -> (r: MaterialDef)
    ensures
        r == def_followed(*own, *before, *after),
{
    MaterialDef {
        label: own.label.clone(),
        shading: if own.shading == before.shading {
            after.shading
        } else {
            own.shading
        },
        base_color: if own.base_color == before.base_color {
            after.base_color
        } else {
            own.base_color
        },
        emissive: if own.emissive == before.emissive {
            after.emissive
        } else {
            own.emissive
        },
        metallic: follow_number(own.metallic, before.metallic, after.metallic),
        roughness: follow_number(own.roughness, before.roughness, after.roughness),
        normal_scale: follow_number(own.normal_scale, before.normal_scale, after.normal_scale),
        occlusion_strength: follow_number(own.occlusion_strength, before.occlusion_strength, after.occlusion_strength),
        ssr_mask: follow_number(own.ssr_mask, before.ssr_mask, after.ssr_mask),
        alpha_mode: if own.alpha_mode == before.alpha_mode {
            after.alpha_mode
        } else {
            own.alpha_mode
        },
        double_sided: if own.double_sided == before.double_sided {
            after.double_sided
        } else {
            own.double_sided
        },
        base_color_texture: follow_texture(
            own.base_color_texture,
            before.base_color_texture,
            after.base_color_texture,
        ),
        metallic_roughness_texture: follow_texture(
            own.metallic_roughness_texture,
            before.metallic_roughness_texture,
            after.metallic_roughness_texture,
        ),
        normal_texture: follow_texture(
            own.normal_texture,
            before.normal_texture,
            after.normal_texture,
        ),
        occlusion_texture: follow_texture(
            own.occlusion_texture,
            before.occlusion_texture,
            after.occlusion_texture,
        ),
        emissive_texture: follow_texture(
            own.emissive_texture,
            before.emissive_texture,
            after.emissive_texture,
        ),
        extensions: follow_extensions(own.extensions, before.extensions, after.extensions),
    }
}

fn follow_kind(kind: &mut NodeKind, id: AssetId, before: &MaterialDef, after: &MaterialDef)
    ensures
        kind_followed(*old(kind), id, *before, *after, *final(kind)),
{
    let ghost k = *kind;
    let mut out: Vec<MaterialVariant> = Vec::new();
    let mut any = false;
    let selected = match kind.palette() {
        Some(p) => {
            let mut i: usize = 0;
            while i < p.variants.len()
                invariant
                    k.palette_of() == Some(*p),
                    i <= p.variants@.len(),
                    out@ == variants_followed(p.variants@, id, *before, *after).take(i as int),
                    any == exists|j: int|
                        0 <= j < i && (#[trigger] p.variants@[j]).instance.asset == id,
                decreases p.variants@.len() - i,
            {
                let v = p.variants.at(i);
                let mut next = v.same();
                if v.instance.asset == id {
                    next.instance.inline = follow_def(&v.instance.inline, before, after);
                    any = true;
                }
                assert(next == variant_followed(*v, id, *before, *after));
                out.push(next);
                i += 1;
                assert(out@ =~= variants_followed(p.variants@, id, *before, *after).take(i as int));
            }
            assert(variants_followed(p.variants@, id, *before, *after).take(i as int)
                =~= variants_followed(p.variants@, id, *before, *after));
            p.selected
        },
        None => None,
    };
    assert(any == renders_with(k, id));
    if any {
        kind.set_palette(Palette { variants: List::from_vec(out), selected });
    }
}

/// Carries a change of a material to every mesh that renders with it.
pub fn reseed_inline_for_material(
    nodes: &mut Vec<Node>,
    id: AssetId,
    before: &MaterialDef,
    after: &MaterialDef,
)
    ensures
        scene_followed(forest(old(nodes)@), id, *before, *after, forest(final(nodes)@)),
    decreases old(nodes)@,
{
    let ghost all = nodes@;
    let mut i: usize = 0;
    while i < nodes.len()
        invariant
            i <= nodes@.len(),
            all == old(nodes)@,
            nodes@.len() == all.len(),
            forall|j: int| i <= j < all.len() ==> #[trigger] nodes@[j] == all[j],
            forall|j: int|
                0 <= j < i ==> tree_followed(
                    #[trigger] all[j].model(),
                    id,
                    *before,
                    *after,
                    nodes@[j].model(),
                ),
        decreases all.len() - i,
    {
        let ghost n = nodes@[i as int];
        assert(n == all[i as int]);
        follow_kind(&mut nodes[i].data.kind, id, before, after);
        assert(decreases_to!(all => all[i as int].children@));
        reseed_inline_for_material(&mut nodes[i].children, id, before, after);
        proof {
            let m = nodes@[i as int];
            lemma_model(n);
            lemma_model(m);
            assert(tree_followed(n.model(), id, *before, *after, m.model()));
        }
        i += 1;
    }
    assert forall|j: int| 0 <= j < forest(all).len() implies tree_followed(
        #[trigger] forest(all)[j],
        id,
        *before,
        *after,
        forest(nodes@)[j],
    ) by {
        assert(all[j].model() == forest(all)[j]);
    }
}

/// Whether a slot leads back when its definition does: the mesh has not set it to
/// just what the definition is changed to.
pub open spec fn leads_back<T>(own: T, before: T, after: T) -> bool {
    own == before || own != after
}

/// Whether every slot of a definition leads back.
pub open spec fn def_leads_back(own: MaterialDef, before: MaterialDef, after: MaterialDef) -> bool {
    &&& leads_back(own.shading, before.shading, after.shading)
    &&& leads_back(own.base_color, before.base_color, after.base_color)
    &&& leads_back(own.emissive, before.emissive, after.emissive)
    &&& leads_back(own.metallic, before.metallic, after.metallic)
    &&& leads_back(own.roughness, before.roughness, after.roughness)
    &&& leads_back(own.normal_scale, before.normal_scale, after.normal_scale)
    &&& leads_back(own.occlusion_strength, before.occlusion_strength, after.occlusion_strength)
    &&& leads_back(own.ssr_mask, before.ssr_mask, after.ssr_mask)
    &&& leads_back(own.alpha_mode, before.alpha_mode, after.alpha_mode)
    &&& leads_back(own.double_sided, before.double_sided, after.double_sided)
    &&& leads_back(own.base_color_texture, before.base_color_texture, after.base_color_texture)
    &&& leads_back(own.metallic_roughness_texture, before.metallic_roughness_texture, after.metallic_roughness_texture)
    &&& leads_back(own.normal_texture, before.normal_texture, after.normal_texture)
    &&& leads_back(own.occlusion_texture, before.occlusion_texture, after.occlusion_texture)
    &&& leads_back(own.emissive_texture, before.emissive_texture, after.emissive_texture)
    &&& extensions_lead_back(own.extensions, before.extensions, after.extensions)
}

/// Whether every extension leads back.
pub open spec fn extensions_lead_back(
    own: PbrExtensions,
    before: PbrExtensions,
    after: PbrExtensions,
) -> bool {
    &&& leads_back(own.emissive_strength, before.emissive_strength, after.emissive_strength)
    &&& leads_back(own.specular, before.specular, after.specular)
    &&& leads_back(own.transmission, before.transmission, after.transmission)
    &&& leads_back(own.diffuse_transmission, before.diffuse_transmission, after.diffuse_transmission)
    &&& leads_back(own.volume, before.volume, after.volume)
    &&& leads_back(own.clearcoat, before.clearcoat, after.clearcoat)
    &&& leads_back(own.sheen, before.sheen, after.sheen)
    &&& leads_back(own.anisotropy, before.anisotropy, after.anisotropy)
    &&& leads_back(own.iridescence, before.iridescence, after.iridescence)
}

/// A definition that is carried along leads back with that of its material, unless
/// the mesh had set a slot to just what the material was changed to.
pub proof fn law_definition_follows_back(own: MaterialDef, before: MaterialDef, after: MaterialDef)
    requires
        def_leads_back(own, before, after),
    ensures
        def_followed(def_followed(own, before, after), after, before) == own,
{
    let e = extensions_followed(own.extensions, before.extensions, after.extensions);
    assert(extensions_followed(e, after.extensions, before.extensions) == own.extensions);
}

/// A mesh keeps what it has set itself, and has what the definition has where it
/// had set nothing.
pub proof fn law_own_slots_are_kept(own: MaterialDef, before: MaterialDef, after: MaterialDef)
    ensures
        own.base_color != before.base_color ==> def_followed(own, before, after).base_color
            == own.base_color,
        own == before ==> def_followed(own, before, after) == (MaterialDef {
            label: own.label,
            ..after
        }),
        before == after ==> def_followed(own, before, after) == own,
{
    if own == before {
        let r = def_followed(own, before, after);
        assert(r.extensions == after.extensions);
    }
    if before == after {
        assert(def_followed(own, before, after).extensions == own.extensions);
    }
}

/// Whether every copy of a material in a tree leads back with it.
pub open spec fn tree_leads_back(
    t: Tree,
    id: AssetId,
    before: MaterialDef,
    after: MaterialDef,
) -> bool
    decreases t,
{
    &&& t.data.kind.palette_of() matches Some(p) ==> forall|i: int|
        0 <= i < p.variants@.len() && (#[trigger] p.variants@[i]).instance.asset == id
            ==> def_leads_back(p.variants@[i].instance.inline, before, after)
    &&& forall|i: int|
        0 <= i < t.children.len() ==> tree_leads_back(#[trigger] t.children[i], id, before, after)
}

/// Whether two trees are alike, their palettes compared entry by entry.
pub open spec fn trees_alike(t: Tree, t2: Tree) -> bool
    decreases t,
{
    &&& t2.id == t.id
    &&& t2.data == (NodeData { kind: t2.data.kind, ..t.data })
    &&& t2.data.kind == t.data.kind || (t.data.kind.palette_of() is Some && repainted(
        t.data.kind,
        t.data.kind.palette_of()->0.variants@,
        t2.data.kind,
    ))
    &&& t2.children.len() == t.children.len()
    &&& forall|i: int|
        0 <= i < t.children.len() ==> trees_alike(#[trigger] t.children[i], t2.children[i])
}

proof fn lemma_tree_leads_back(
    t: Tree,
    id: AssetId,
    before: MaterialDef,
    after: MaterialDef,
    t2: Tree,
    t3: Tree,
)
    requires
        tree_followed(t, id, before, after, t2),
        tree_followed(t2, id, after, before, t3),
        tree_leads_back(t, id, before, after),
    ensures
        trees_alike(t, t3),
    decreases t,
{
    let k = t.data.kind;
    let k2 = t2.data.kind;
    let k3 = t3.data.kind;
    if renders_with(k, id) {
        let p = k.palette_of()->0;
        let p2 = k2.palette_of()->0;
        let j = choose|j: int|
            0 <= j < p.variants@.len() && (#[trigger] p.variants@[j]).instance.asset == id;
        assert(p2.variants@[j].instance.asset == id);
        assert(renders_with(k2, id));
        assert forall|i: int| 0 <= i < p.variants@.len() implies variants_followed(
            p2.variants@,
            id,
            after,
            before,
        )[i] == #[trigger] p.variants@[i] by {
            if p.variants@[i].instance.asset == id {
                law_definition_follows_back(p.variants@[i].instance.inline, before, after);
            }
        }
        assert(variants_followed(p2.variants@, id, after, before) =~= p.variants@);
    }
    assert forall|i: int| 0 <= i < t.children.len() implies trees_alike(
        #[trigger] t.children[i],
        t3.children[i],
    ) by {
        assert(tree_followed(t.children[i], id, before, after, t2.children[i]));
        assert(tree_followed(t2.children[i], id, after, before, t3.children[i]));
        lemma_tree_leads_back(
            t.children[i],
            id,
            before,
            after,
            t2.children[i],
            t3.children[i],
        );
    }
}

/// Whether every copy of a material in a scene leads back with it.
pub open spec fn scene_leads_back(
    f: Seq<Tree>,
    id: AssetId,
    before: MaterialDef,
    after: MaterialDef,
) -> bool {
    forall|i: int| 0 <= i < f.len() ==> tree_leads_back(#[trigger] f[i], id, before, after)
}

/// Whether two scenes are alike, their palettes compared entry by entry.
pub open spec fn scenes_alike(f: Seq<Tree>, g: Seq<Tree>) -> bool {
    &&& g.len() == f.len()
    &&& forall|i: int| 0 <= i < f.len() ==> trees_alike(#[trigger] f[i], g[i])
}

/// Changing a material and changing it back leaves the scene as it was, where no
/// mesh had set a slot to just what the material was changed to.
pub proof fn law_scene_leads_back(
    f: Seq<Tree>,
    id: AssetId,
    before: MaterialDef,
    after: MaterialDef,
    g: Seq<Tree>,
    h: Seq<Tree>,
)
    requires
        scene_followed(f, id, before, after, g),
        scene_followed(g, id, after, before, h),
        scene_leads_back(f, id, before, after),
    ensures
        scenes_alike(f, h),
{
    assert forall|i: int| 0 <= i < f.len() implies trees_alike(#[trigger] f[i], h[i]) by {
        assert(tree_followed(f[i], id, before, after, g[i]));
        assert(tree_followed(g[i], id, after, before, h[i]));
        lemma_tree_leads_back(f[i], id, before, after, g[i], h[i]);
    }
}

} // verus!

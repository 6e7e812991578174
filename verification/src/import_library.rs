//! The materials and textures of an imported model: each material of the file
//! becomes a material of the library, and each texture one asset, however many
//! slots it is bound to.
use crate::assets::{
    content_hash, ext_slot_color_kind, sha256_of, slot_color_kind, AssetEntry, AssetSource,
    TextureColorKind, TextureDef,
};
use crate::custom_material::CustomMaterial;
use crate::find::{first, lemma_first, lemma_first_is};
use crate::ids::AssetId;
use crate::import_scene::{after, id_after, law_places_have_their_own_ids, lemma_after};
use crate::list::Same;
use crate::material::{
    ext_slot_named, set_ext_texture, slot_bound, MaterialShading, PbrExtensions, TextureRef,
    TextureSampler, TextureTransform,
};
use crate::palette::MaterialDef;
use crate::table::Table;
use crate::text::{chars_of, hex, joined3};
use crate::values::F32;
use vstd::prelude::*;

verus! {

/// How far the ids of imported materials are from that of the first node.
pub const MATERIAL_PLACE: u128 = 0x0100_0000_0000_0000_0000_0000_0000_0000;

/// How far the ids of imported textures are from that of the first node.
pub const TEXTURE_PLACE: u128 = 0x0200_0000_0000_0000_0000_0000_0000_0000;

/// How a slot of the file samples its texture.
#[derive(Clone, Copy, PartialEq, Eq, Structural, Debug)]
pub struct TexBinding {
    pub uv_index: u32,
    pub transform: Option<TextureTransform>,
    pub sampler: Option<TextureSampler>,
}

/// A texture of the file, by its key in the renderer, as a slot samples it.
#[derive(Clone, Copy, PartialEq, Eq, Structural, Debug)]
pub struct BakedTexture {
    pub key: u64,
    pub binding: TexBinding,
}

/// The encoded bytes of a texture of the file, and the ending of their format.
pub struct ExportImage {
    pub bytes: Vec<u8>,
    pub ext: String,
}

/// A texture of an extension slot.
pub struct ExtTexture {
    pub slot: String,
    pub baked: BakedTexture,
}

/// A material of the file.
pub struct ExtractedMaterial {
    pub def: MaterialDef,
    /// The base color in hexadecimal.
    pub color: String,
    pub base_color: Option<BakedTexture>,
    pub metallic_roughness: Option<BakedTexture>,
    pub normal: Option<BakedTexture>,
    pub occlusion: Option<BakedTexture>,
    pub emissive: Option<BakedTexture>,
    pub ext_textures: Vec<ExtTexture>,
}

/// The stored bytes of a texture: their address and the ending of their format.
pub struct StoredImage {
    pub hash: String,
    pub ext: String,
}

/// A texture that an import brings.
pub struct ImportTexture {
    pub key: u64,
    pub name: String,
    pub stored: Option<StoredImage>,
    pub color_kind: TextureColorKind,
}

/// A texture that an import brings, as a value.
#[verifier::ext_equal]
pub struct TextureRow {
    pub key: u64,
    pub name: Seq<char>,
    pub stored: Option<(Seq<char>, Seq<char>)>,
    pub color_kind: TextureColorKind,
}

impl View for ImportTexture {
    type V = TextureRow;

    open spec fn view(&self) -> TextureRow {
        TextureRow {
            key: self.key,
            name: self.name@,
            stored: match self.stored {
                Some(s) => Some((s.hash@, s.ext@)),
                None => None,
            },
            color_kind: self.color_kind,
        }
    }
}

/// The textures as values.
pub open spec fn texture_rows(row: Seq<ImportTexture>) -> Seq<TextureRow> {
    Seq::new(row.len(), |i: int| row[i]@)
}

/// Whether a texture has a key.
pub open spec fn has_key(key: u64) -> spec_fn(TextureRow) -> bool {
    |t: TextureRow| t.key == key
}

/// The place of the texture with a key; where there is none, the next place.
pub open spec fn texture_at(rows: Seq<TextureRow>, key: u64) -> int {
    first(rows, has_key(key))
}

/// The id of the texture at a place.
pub open spec fn texture_id(base: u128, i: nat) -> AssetId {
    AssetId(after(base, TEXTURE_PLACE as nat + i))
}

/// The stored bytes of a texture, where the import has them.
pub open spec fn stored_image(images: Map<u128, ExportImage>, key: u64) -> Option<
    (Seq<char>, Seq<char>),
> {
    if images.contains_key(key as u128) {
        let img = images[key as u128];
        Some((hex(sha256_of(img.bytes@)), img.ext@))
    } else {
        None
    }
}

/// The textures once a slot has asked for one: a texture that is there already is
/// not brought again.
pub open spec fn rows_after(
    rows: Seq<TextureRow>,
    images: Map<u128, ExportImage>,
    baked: Option<BakedTexture>,
    name: Seq<char>,
    color_kind: TextureColorKind,
) -> Seq<TextureRow> {
    match baked {
        None => rows,
        Some(b) => if texture_at(rows, b.key) < rows.len() {
            rows
        } else {
            rows.push(
                TextureRow { key: b.key, name, stored: stored_image(images, b.key), color_kind },
            )
        },
    }
}

/// What a slot refers to: the texture with its key, sampled as the slot does.
pub open spec fn bound_texture(rows: Seq<TextureRow>, baked: Option<BakedTexture>, base: u128) -> Option<
    TextureRef,
> {
    match baked {
        None => None,
        Some(b) => Some(
            TextureRef {
                asset: texture_id(base, texture_at(rows, b.key) as nat),
                uv_index: b.binding.uv_index,
                transform: b.binding.transform,
                sampler: b.binding.sampler,
                flow: None,
                export_profile: None,
            },
        ),
    }
}

/// A texture keeps its place when others are brought.
proof fn lemma_texture_stays(rows: Seq<TextureRow>, more: Seq<TextureRow>, key: u64)
    requires
        texture_at(rows, key) < rows.len(),
    ensures
        texture_at(rows + more, key) == texture_at(rows, key),
{
    lemma_first(rows, has_key(key));
    let i = texture_at(rows, key);
    assert forall|j: int| 0 <= j < i implies !has_key(key)(#[trigger] (rows + more)[j]) by {
        assert((rows + more)[j] == rows[j]);
    }
    assert((rows + more)[i] == rows[i]);
    lemma_first_is(rows + more, has_key(key), i);
}

/// Two slots that ask for the same texture are bound to the same asset, whatever
/// the import brings in between, and it is brought once.
pub proof fn law_texture_is_brought_once(
    rows: Seq<TextureRow>,
    images: Map<u128, ExportImage>,
    one: BakedTexture,
    other: BakedTexture,
    name: Seq<char>,
    kind: TextureColorKind,
    more: Seq<TextureRow>,
    other_name: Seq<char>,
    other_kind: TextureColorKind,
    base: u128,
)
    requires
        one.key == other.key,
    ensures
        ({
            let then = rows_after(rows, images, Some(one), name, kind);
            let later = then + more;
            &&& rows_after(later, images, Some(other), other_name, other_kind) == later
            &&& bound_texture(later, Some(other), base)->0.asset == bound_texture(
                then,
                Some(one),
                base,
            )->0.asset
        }),
{
    let then = rows_after(rows, images, Some(one), name, kind);
    lemma_first(rows, has_key(one.key));
    if texture_at(rows, one.key) == rows.len() {
        assert forall|j: int| 0 <= j < rows.len() implies !has_key(one.key)(
            #[trigger] then[j],
        ) by {
            assert(then[j] == rows[j]);
        }
        lemma_first_is(then, has_key(one.key), rows.len() as int);
    }
    lemma_texture_stays(then, more, one.key);
}

/// Creates the texture asset for a texture of the file, or finds the one it has
/// already, and refers to it as the slot samples it.
pub fn ensure_import_texture(
    rows: &mut Vec<ImportTexture>,
    images: &Table<ExportImage>,
    baked: Option<BakedTexture>,
    name: String,
    color_kind: TextureColorKind,
    base: u128,
) -> (r: Option<TextureRef>)
    ensures
        texture_rows(final(rows)@) == rows_after(
            texture_rows(old(rows)@),
            images@,
            baked,
            name@,
            color_kind,
        ),
        r == bound_texture(texture_rows(old(rows)@), baked, base),
{
    let b = match baked {
        Some(b) => b,
        None => {
            return None;
        },
    };
    let ghost before = texture_rows(rows@);
    let mut i: usize = 0;
    while i < rows.len() && rows[i].key != b.key
        invariant
            i <= rows@.len(),
            before == texture_rows(rows@),
            forall|j: int| 0 <= j < i ==> !has_key(b.key)(#[trigger] before[j]),
        decreases rows@.len() - i,
    {
        i += 1;
    }
    proof {
        if i < before.len() {
            assert(has_key(b.key)(before[i as int]));
        }
        lemma_first_is(before, has_key(b.key), i as int);
        lemma_after(base, TEXTURE_PLACE as nat, i as nat);
    }
    let asset = AssetId(id_after(id_after(base, TEXTURE_PLACE), i as u128));
    if i == rows.len() {
        let stored = match images.get(b.key as u128) {
            Some(img) => Some(
                StoredImage { hash: content_hash(&img.bytes), ext: img.ext.clone() },
            ),
            None => None,
        };
        rows.push(ImportTexture { key: b.key, name, stored, color_kind });
        assert(texture_rows(rows@) =~= rows_after(before, images@, baked, name@, color_kind));
    }
    Some(
        TextureRef {
            asset,
            uv_index: b.binding.uv_index,
            transform: b.binding.transform,
            sampler: b.binding.sampler,
            flow: None,
            export_profile: None,
        },
    )
}

/// What a material is called.
pub open spec fn material_label(ex: ExtractedMaterial) -> Seq<char> {
    if ex.def.label@.len() == 0 {
        "Material"@
    } else {
        ex.def.label@
    }
}

fn label_material(ex: &ExtractedMaterial) -> (r: String)
    ensures
        r@ == material_label(*ex),
{
    if chars_of(&ex.def.label).len() == 0 {
        "Material".to_owned()
    } else {
        ex.def.label.clone()
    }
}

/// The name of the texture of a slot.
pub open spec fn slot_title(label: Seq<char>, slot: Seq<char>) -> Seq<char> {
    label + " \u{b7} "@ + slot
}

/// The textures after the first slots of a material: those that every material
/// has, in order.
pub open spec fn main_rows(
    rows: Seq<TextureRow>,
    images: Map<u128, ExportImage>,
    ex: ExtractedMaterial,
    k: nat,
) -> Seq<TextureRow> {
    let l = material_label(ex);
    let r1 = rows_after(
        rows,
        images,
        ex.base_color,
        slot_title(l, "base color"@),
        TextureColorKind::Albedo,
    );
    let r2 = rows_after(
        r1,
        images,
        ex.metallic_roughness,
        slot_title(l, "metal/rough"@),
        TextureColorKind::MetallicRoughness,
    );
    let r3 = rows_after(
        r2,
        images,
        ex.normal,
        slot_title(l, "normal"@),
        TextureColorKind::Normal,
    );
    let r4 = rows_after(
        r3,
        images,
        ex.occlusion,
        slot_title(l, "occlusion"@),
        TextureColorKind::Occlusion,
    );
    let r5 = rows_after(
        r4,
        images,
        ex.emissive,
        slot_title(l, "emissive"@),
        TextureColorKind::Emissive,
    );
    if k == 0 {
        rows
    } else if k == 1 {
        r1
    } else if k == 2 {
        r2
    } else if k == 3 {
        r3
    } else if k == 4 {
        r4
    } else {
        r5
    }
}

/// The textures after the first `k` extension slots of a material.
pub open spec fn ext_rows(
    rows: Seq<TextureRow>,
    images: Map<u128, ExportImage>,
    ex: ExtractedMaterial,
    k: nat,
) -> Seq<TextureRow>
    decreases k,
{
    if k == 0 {
        main_rows(rows, images, ex, 5)
    } else {
        let t = ex.ext_textures@[k - 1];
        rows_after(
            ext_rows(rows, images, ex, (k - 1) as nat),
            images,
            Some(t.baked),
            slot_title(material_label(ex), t.slot@),
            slot_color_kind(t.slot@),
        )
    }
}

/// The extensions with a texture in a slot, where the slot is known.
pub open spec fn ext_with(ext: PbrExtensions, slot: Seq<char>, tref: Option<TextureRef>) -> PbrExtensions {
    match ext_slot_named(slot) {
        Some(s) => slot_bound(ext, s, tref),
        None => ext,
    }
}

/// The extensions with the textures of the first `k` extension slots.
pub open spec fn ext_after(
    rows: Seq<TextureRow>,
    images: Map<u128, ExportImage>,
    ex: ExtractedMaterial,
    base: u128,
    k: nat,
) -> PbrExtensions
    decreases k,
{
    if k == 0 {
        ex.def.extensions
    } else {
        let t = ex.ext_textures@[k - 1];
        ext_with(
            ext_after(rows, images, ex, base, (k - 1) as nat),
            t.slot@,
            bound_texture(ext_rows(rows, images, ex, (k - 1) as nat), Some(t.baked), base),
        )
    }
}

/// The textures after a material.
pub open spec fn material_rows(
    rows: Seq<TextureRow>,
    images: Map<u128, ExportImage>,
    ex: ExtractedMaterial,
) -> Seq<TextureRow> {
    ext_rows(rows, images, ex, ex.ext_textures@.len())
}

/// The definition of a material of the file, with its textures bound.
pub open spec fn imported_def(
    rows: Seq<TextureRow>,
    images: Map<u128, ExportImage>,
    ex: ExtractedMaterial,
    base: u128,
) -> MaterialDef {
    MaterialDef {
        base_color_texture: bound_texture(rows, ex.base_color, base),
        metallic_roughness_texture: bound_texture(
            main_rows(rows, images, ex, 1),
            ex.metallic_roughness,
            base,
        ),
        normal_texture: bound_texture(main_rows(rows, images, ex, 2), ex.normal, base),
        occlusion_texture: bound_texture(main_rows(rows, images, ex, 3), ex.occlusion, base),
        emissive_texture: bound_texture(main_rows(rows, images, ex, 4), ex.emissive, base),
        extensions: ext_after(rows, images, ex, base, ex.ext_textures@.len()),
        ..ex.def
    }
}

fn bind_textures(
    rows: &mut Vec<ImportTexture>,
    images: &Table<ExportImage>,
    ex: &ExtractedMaterial,
    label: &str,
    base: u128,
) -> (d: MaterialDef)
    requires
        label@ == material_label(*ex),
    ensures
        texture_rows(final(rows)@) == material_rows(texture_rows(old(rows)@), images@, *ex),
        d == imported_def(texture_rows(old(rows)@), images@, *ex, base),
{
    let ghost start = texture_rows(rows@);
    let mut d = ex.def.same();
    let sep: &str = " \u{b7} ";
    let t0 = ensure_import_texture(
        rows,
        images,
        ex.base_color,
        joined3(label, sep, "base color"),
        TextureColorKind::Albedo,
        base,
    );
    let t1 = ensure_import_texture(
        rows,
        images,
        ex.metallic_roughness,
        joined3(label, sep, "metal/rough"),
        TextureColorKind::MetallicRoughness,
        base,
    );
    let t2 = ensure_import_texture(
        rows,
        images,
        ex.normal,
        joined3(label, sep, "normal"),
        TextureColorKind::Normal,
        base,
    );
    let t3 = ensure_import_texture(
        rows,
        images,
        ex.occlusion,
        joined3(label, sep, "occlusion"),
        TextureColorKind::Occlusion,
        base,
    );
    let t4 = ensure_import_texture(
        rows,
        images,
        ex.emissive,
        joined3(label, sep, "emissive"),
        TextureColorKind::Emissive,
        base,
    );
    let mut ext = d.extensions;
    let mut k: usize = 0;
    while k < ex.ext_textures.len()
        invariant
            k <= ex.ext_textures@.len(),
            label@ == material_label(*ex),
            sep@ == " \u{b7} "@,
            texture_rows(rows@) == ext_rows(start, images@, *ex, k as nat),
            ext == ext_after(start, images@, *ex, base, k as nat),
        decreases ex.ext_textures@.len() - k,
    {
        let t = &ex.ext_textures[k];
        let tref = ensure_import_texture(
            rows,
            images,
            Some(t.baked),
            joined3(label, sep, &t.slot),
            ext_slot_color_kind(&t.slot),
            base,
        );
        set_ext_texture(&mut ext, &t.slot, tref);
        k += 1;
    }
    d.base_color_texture = t0;
    d.metallic_roughness_texture = t1;
    d.normal_texture = t2;
    d.occlusion_texture = t3;
    d.emissive_texture = t4;
    d.extensions = ext;
    d
}

/// The id of an imported material.
pub open spec fn material_id(base: u128, i: nat) -> AssetId {
    AssetId(after(base, MATERIAL_PLACE as nat + i))
}

/// Whether a material of the library is the one that a material of the file
/// becomes: a built-in one with its definition, color and sides.
pub open spec fn is_imported_material(
    m: CustomMaterial,
    ex: ExtractedMaterial,
    id: AssetId,
    d: MaterialDef,
) -> bool {
    exists|new: CustomMaterial|
        #[trigger] new.is_new(id, material_label(ex)) && m == (CustomMaterial {
            color: ex.color,
            double_sided: ex.def.double_sided,
            builtin: Some(d),
            ..new
        })
}

/// The textures after the first `k` materials.
pub open spec fn rows_through(
    mats: Seq<ExtractedMaterial>,
    images: Map<u128, ExportImage>,
    k: nat,
) -> Seq<TextureRow>
    decreases k,
{
    if k == 0 {
        seq![]
    } else {
        material_rows(rows_through(mats, images, (k - 1) as nat), images, mats[k - 1])
    }
}

/// Whether the materials at the end of a library, from `start` on, are the first
/// `k` that an import brings.
pub open spec fn brings_materials(
    ms: Seq<CustomMaterial>,
    start: int,
    mats: Seq<ExtractedMaterial>,
    images: Map<u128, ExportImage>,
    base: u128,
    k: int,
) -> bool {
    &&& ms.len() >= start + k
    &&& forall|i: int|
        0 <= i < k ==> is_imported_material(
            #[trigger] ms[start + i],
            mats[i],
            material_id(base, i as nat),
            imported_def(rows_through(mats, images, i as nat), images, mats[i], base),
        )
}

/// Adds the materials of a file to the library, and says which textures they
/// need. The ids of the materials follow one another.
pub fn import_materials(
    ms: &mut Vec<CustomMaterial>,
    mats: &Vec<ExtractedMaterial>,
    images: &Table<ExportImage>,
    base: u128,
) -> (r: (Vec<AssetId>, Vec<ImportTexture>))
    ensures
        final(ms)@.len() == old(ms)@.len() + mats@.len(),
        final(ms)@.take(old(ms)@.len() as int) == old(ms)@,
        brings_materials(
            final(ms)@,
            old(ms)@.len() as int,
            mats@,
            images@,
            base,
            mats@.len() as int,
        ),
        r.0@ == Seq::new(mats@.len(), |i: int| material_id(base, i as nat)),
        texture_rows(r.1@) == rows_through(mats@, images@, mats@.len()),
{
    let ghost had = ms@;
    let ghost start = ms@.len() as int;
    let mut ids: Vec<AssetId> = Vec::new();
    let mut rows: Vec<ImportTexture> = Vec::new();
    let mut i: usize = 0;
    assert(texture_rows(rows@) =~= rows_through(mats@, images@, 0));
    while i < mats.len()
        invariant
            i <= mats@.len(),
            start == had.len(),
            ms@.len() == start + i,
            ms@.take(start) == had,
            brings_materials(ms@, start, mats@, images@, base, i as int),
            ids@ == Seq::new(i as nat, |j: int| material_id(base, j as nat)),
            texture_rows(rows@) == rows_through(mats@, images@, i as nat),
        decreases mats@.len() - i,
    {
        let ghost was = ms@;
        let ex = &mats[i];
        let label = label_material(ex);
        let d = bind_textures(&mut rows, images, ex, &label, base);
        let id = AssetId(id_after(id_after(base, MATERIAL_PLACE), i as u128));
        proof {
            lemma_after(base, MATERIAL_PLACE as nat, i as nat);
        }
        let mut m = CustomMaterial::new_builtin(id, label, MaterialShading::Pbr);
        let ghost new = m;
        m.color = ex.color.clone();
        m.double_sided = ex.def.double_sided;
        m.builtin = Some(d);
        proof {
            assert(new.is_new(id, material_label(*ex)));
            assert(is_imported_material(m, *ex, id, d));
        }
        ms.push(m);
        ids.push(id);
        i += 1;
        proof {
            assert(ms@.take(start) =~= was.take(start));
            assert forall|j: int| 0 <= j < i implies is_imported_material(
                #[trigger] ms@[start + j],
                mats@[j],
                material_id(base, j as nat),
                imported_def(rows_through(mats@, images@, j as nat), images@, mats@[j], base),
            ) by {
                if j < i - 1 {
                    assert(ms@[start + j] == was[start + j]);
                }
            }
            assert(ids@ =~= Seq::new(i as nat, |j: int| material_id(base, j as nat)));
        }
    }
    (ids, rows)
}

/// What the asset of a texture is called: with the ending of its format where
/// its bytes are stored.
pub open spec fn texture_title(t: TextureRow) -> Seq<char> {
    match t.stored {
        Some(s) => t.name + "."@ + s.1,
        None => t.name,
    }
}

/// Whether an entry of the asset table is that of an imported texture.
pub open spec fn is_texture_entry(e: AssetEntry, t: TextureRow) -> bool {
    &&& e.is_plain(
        e.source,
        match t.stored {
            Some(s) => s.0,
            None => seq![],
        },
    )
    &&& match e.source {
        AssetSource::Texture(TextureDef::Raster { display_name, color_kind }) => {
            &&& display_name@ == texture_title(t)
            &&& color_kind == Some(t.color_kind)
        },
        _ => false,
    }
}

/// The entry of the asset table for an imported texture.
pub fn texture_entry(t: &ImportTexture) -> (e: AssetEntry)
    ensures
        is_texture_entry(e, t@),
{
    match &t.stored {
        Some(s) => AssetEntry::new_with_hash(
            AssetSource::Texture(
                TextureDef::Raster {
                    display_name: joined3(&t.name, ".", &s.ext),
                    color_kind: Some(t.color_kind),
                },
            ),
            s.hash.clone(),
        ),
        None => AssetEntry::new(
            AssetSource::Texture(
                TextureDef::Raster {
                    display_name: t.name.clone(),
                    color_kind: Some(t.color_kind),
                },
            ),
        ),
    }
}

/// Whether a material is the one for meshes without a material: white, metallic
/// and rough.
pub open spec fn is_default_material(m: CustomMaterial, id: AssetId) -> bool {
    &&& m.is_new(id, "Default"@)
    &&& m.builtin is Some
    &&& ({
        let d = m.builtin->0;
        &&& d.metallic == F32::one()
        &&& d.label@.len() == 0
        &&& (MaterialDef { metallic: F32::zero(), ..d }).is_plain(MaterialShading::Pbr)
    })
}

/// The material for meshes that have none in the file.
pub fn default_material(id: AssetId) -> (m: CustomMaterial)
    ensures
        is_default_material(m, id),
{
    let mut m = CustomMaterial::new_builtin(id, "Default".to_owned(), MaterialShading::Pbr);
    let mut d = MaterialDef::plain(String::new(), MaterialShading::Pbr);
    d.metallic = F32::one();
    m.builtin = Some(d);
    m
}

/// Textures, materials and clips that an import brings have ids of their own.
pub proof fn law_imports_have_their_own_ids(base: u128, i: nat, j: nat)
    requires
        i < MATERIAL_PLACE,
        j < MATERIAL_PLACE,
    ensures
        texture_id(base, i) != material_id(base, j),
        texture_id(base, i) != crate::import_clips::clip_id(base, j),
        material_id(base, i) != crate::import_clips::clip_id(base, j),
        i != j ==> texture_id(base, i) != texture_id(base, j) && material_id(base, i)
            != material_id(base, j),
{
    let t = TEXTURE_PLACE as nat;
    let m = MATERIAL_PLACE as nat;
    let c = crate::import_clips::CLIP_PLACE as nat;
    if texture_id(base, i) == material_id(base, j) {
        law_places_have_their_own_ids(base, t + i, m + j);
    }
    if texture_id(base, i) == crate::import_clips::clip_id(base, j) {
        law_places_have_their_own_ids(base, t + i, c + j);
    }
    if material_id(base, i) == crate::import_clips::clip_id(base, j) {
        law_places_have_their_own_ids(base, m + i, c + j);
    }
    if texture_id(base, i) == texture_id(base, j) {
        law_places_have_their_own_ids(base, t + i, t + j);
    }
    if material_id(base, i) == material_id(base, j) {
        law_places_have_their_own_ids(base, m + i, m + j);
    }
}

} // verus!

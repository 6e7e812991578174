//! Assets: what the scene refers to by id, with the geometry of meshes and the
//! words of buffers.
use crate::ids::{AssetId, NodeId};
use crate::list::{List, Same};
use crate::palette::MaterialDef;
use crate::table::IndexMap;
use crate::text::{
    chars_of, contains_text, hex, hex_text, holds, joined3, last_of, last_position, text_of,
};
use crate::values::{Vec2, Vec3, Vec4, F32};
use sha2::Digest;
use vstd::prelude::*;
use vstd::string::*;

verus! {

/// A primitive that a mesh can start from.
#[derive(Clone, Copy, PartialEq, Eq, Structural, Debug)]
pub enum PrimitiveShape {
    Plane { width: F32, depth: F32 },
    Box { width: F32, height: F32, depth: F32 },
    Sphere { radius: F32, segments_long: u32, segments_lat: u32 },
    Cylinder { radius: F32, height: F32, segments: u32 },
    Cone { radius: F32, height: F32, segments: u32 },
    Torus { major: F32, minor: F32, segments_major: u32, segments_minor: u32 },
}

/// A profile swept along the curve of a node.
#[derive(Clone, Copy, PartialEq, Eq, Structural, Debug)]
pub struct SweepDef {
    pub curve: NodeId,
    pub radius: F32,
}

/// What the recipe of a mesh starts from.
pub enum MeshBase {
    Primitive(PrimitiveShape),
    Lathe(List<Vec2>),
    Superquadric(Vec4),
    Sweep(SweepDef),
    /// Geometry that was captured under an asset id.
    Captured(AssetId),
    Sdf(List<u8>),
}

impl Same for MeshBase {
    fn same(&self) -> (res: Self) {
        match self {
            MeshBase::Primitive(p) => MeshBase::Primitive(*p),
            MeshBase::Lathe(l) => MeshBase::Lathe(l.clone()),
            MeshBase::Superquadric(q) => MeshBase::Superquadric(*q),
            MeshBase::Sweep(s) => MeshBase::Sweep(*s),
            MeshBase::Captured(id) => MeshBase::Captured(*id),
            MeshBase::Sdf(l) => MeshBase::Sdf(l.clone()),
        }
    }
}

/// Whether two bases are alike: of one kind, with the same settings.
pub open spec fn bases_alike(a: MeshBase, b: MeshBase) -> bool {
    match (a, b) {
        (MeshBase::Primitive(x), MeshBase::Primitive(y)) => x == y,
        (MeshBase::Lathe(x), MeshBase::Lathe(y)) => x@ == y@,
        (MeshBase::Superquadric(x), MeshBase::Superquadric(y)) => x == y,
        (MeshBase::Sweep(x), MeshBase::Sweep(y)) => x == y,
        (MeshBase::Captured(x), MeshBase::Captured(y)) => x == y,
        (MeshBase::Sdf(x), MeshBase::Sdf(y)) => x@ == y@,
        _ => false,
    }
}

/// Whether two lists of bytes hold the same bytes.
pub fn same_bytes(a: &List<u8>, b: &List<u8>) -> (r: bool)
    ensures
        r == (a@ == b@),
{
    if a.len() != b.len() {
        return false;
    }
    let mut i: usize = 0;
    while i < a.len()
        invariant
            a@.len() == b@.len(),
            i <= a@.len(),
            forall|j: int| 0 <= j < i ==> a@[j] == b@[j],
        decreases a@.len() - i,
    {
        if *a.at(i) != *b.at(i) {
            return false;
        }
        i += 1;
    }
    assert(a@ =~= b@);
    true
}

fn same_points(a: &List<Vec2>, b: &List<Vec2>) -> (r: bool)
    ensures
        r == (a@ == b@),
{
    if a.len() != b.len() {
        return false;
    }
    let mut i: usize = 0;
    while i < a.len()
        invariant
            a@.len() == b@.len(),
            i <= a@.len(),
            forall|j: int| 0 <= j < i ==> a@[j] == b@[j],
        decreases a@.len() - i,
    {
        if *a.at(i) != *b.at(i) {
            return false;
        }
        i += 1;
    }
    assert(a@ =~= b@);
    true
}

/// Whether two bases are alike.
pub fn same_base(a: &MeshBase, b: &MeshBase) -> (r: bool)
    ensures
        r == bases_alike(*a, *b),
{
    match (a, b) {
        (MeshBase::Primitive(x), MeshBase::Primitive(y)) => *x == *y,
        (MeshBase::Lathe(x), MeshBase::Lathe(y)) => same_points(x, y),
        (MeshBase::Superquadric(x), MeshBase::Superquadric(y)) => *x == *y,
        (MeshBase::Sweep(x), MeshBase::Sweep(y)) => *x == *y,
        (MeshBase::Captured(x), MeshBase::Captured(y)) => *x == *y,
        (MeshBase::Sdf(x), MeshBase::Sdf(y)) => same_bytes(x, y),
        _ => false,
    }
}

#[derive(Clone, Copy, PartialEq, Eq, Structural, Debug)]
pub enum ModifierKind {
    Taper,
    Twist,
    Bend,
    Inflate,
    Spherify,
    Roughen,
    Subdivide,
    Smooth,
    Mirror,
    Array,
    Displace,
}

/// A step of a mesh recipe: what it does, how many times, and its numbers.
pub struct Modifier {
    pub kind: ModifierKind,
    pub iterations: u32,
    pub params: List<F32>,
}

impl Same for Modifier {
    fn same(&self) -> (res: Self) {
        Modifier {
            kind: self.kind,
            iterations: self.iterations,
            params: self.params.clone(),
        }
    }
}

/// The recipe of a mesh.
pub struct ModifierStack {
    pub base: MeshBase,
    pub modifiers: List<Modifier>,
}

impl Same for ModifierStack {
    fn same(&self) -> (res: Self) {
        ModifierStack { base: self.base.same(), modifiers: self.modifiers.clone() }
    }
}

impl ModifierStack {
    /// Whether the recipe is nothing but geometry captured under `id`.
    pub open spec fn is_bare_capture(self, id: AssetId) -> bool {
        self.modifiers@.len() == 0 && self.base == MeshBase::Captured(id)
    }

    /// The recipe that is nothing but geometry captured under `id`.
    pub fn bare_capture(id: AssetId) -> (s: ModifierStack)
        ensures
            s.is_bare_capture(id),
    {
        ModifierStack { base: MeshBase::Captured(id), modifiers: List::empty() }
    }
}

/// Values painted over the vertices of a mesh, by vertex index.
pub struct VertexOverrides {
    pub positions: IndexMap<Vec3>,
    pub colors: IndexMap<Vec4>,
    pub normals: IndexMap<Vec3>,
    pub uvs: IndexMap<Vec2>,
}

impl Same for VertexOverrides {
    fn same(&self) -> (res: Self) {
        VertexOverrides {
            positions: self.positions.clone(),
            colors: self.colors.clone(),
            normals: self.normals.clone(),
            uvs: self.uvs.clone(),
        }
    }
}

impl VertexOverrides {
    /// Whether nothing is painted.
    pub open spec fn blank(self) -> bool {
        &&& self.positions@ == Map::<u32, Vec3>::empty()
        &&& self.colors@ == Map::<u32, Vec4>::empty()
        &&& self.normals@ == Map::<u32, Vec3>::empty()
        &&& self.uvs@ == Map::<u32, Vec2>::empty()
    }

    /// Nothing painted.
    pub fn none() -> (r: VertexOverrides)
        ensures
            r.blank(),
    {
        VertexOverrides {
            positions: IndexMap::empty(),
            colors: IndexMap::empty(),
            normals: IndexMap::empty(),
            uvs: IndexMap::empty(),
        }
    }

    pub fn is_empty(&self) -> (b: bool)
        ensures
            b == self.blank(),
    {
        self.positions.is_empty() && self.colors.is_empty() && self.normals.is_empty()
            && self.uvs.is_empty()
    }
}

/// Where the geometry of a mesh came from.
#[derive(Clone, Copy, PartialEq, Eq, Structural, Debug)]
pub enum CapturedSource {
    Primitive(PrimitiveShape),
    Sweep(SweepDef),
    Imported { source: AssetId },
    Editable,
}

/// A mesh asset: its recipe and what is painted over the result.
pub struct MeshDef {
    pub label: String,
    pub source: Option<CapturedSource>,
    pub editable: bool,
    pub stack: ModifierStack,
    pub overrides: VertexOverrides,
}

impl Same for MeshDef {
    fn same(&self) -> (res: Self) {
        MeshDef {
            label: self.label.clone(),
            source: self.source,
            editable: self.editable,
            stack: self.stack.same(),
            overrides: self.overrides.same(),
        }
    }
}

/// Geometry as it is rendered.
pub struct MeshData {
    pub positions: List<Vec3>,
    pub normals: Option<List<Vec3>>,
    pub uvs: List<Vec2>,
    pub uvs1: Option<List<Vec2>>,
    pub colors: Option<List<Vec4>>,
    pub tangents: Option<List<Vec4>>,
    pub indices: List<u32>,
}

impl Same for MeshData {
    fn same(&self) -> (res: Self) {
        MeshData {
            positions: self.positions.clone(),
            normals: self.normals.clone(),
            uvs: self.uvs.clone(),
            uvs1: self.uvs1.clone(),
            colors: self.colors.clone(),
            tangents: self.tangents.clone(),
            indices: self.indices.clone(),
        }
    }
}

/// Whether geometry is made of whole triangles over vertices that it has.
pub open spec fn well_indexed(d: MeshData) -> bool {
    &&& d.indices@.len() % 3 == 0
    &&& forall|i: int|
        0 <= i < d.indices@.len() ==> (#[trigger] d.indices@[i]) < d.positions@.len()
}

impl MeshData {
    /// Whether the geometry is made of whole triangles over its vertices.
    pub fn is_well_indexed(&self) -> (r: bool)
        ensures
            r == well_indexed(*self),
    {
        if self.indices.len() % 3 != 0 {
            return false;
        }
        let n = self.positions.len();
        let mut i: usize = 0;
        while i < self.indices.len()
            invariant
                n == self.positions@.len(),
                self.indices@.len() % 3 == 0,
                i <= self.indices@.len(),
                forall|j: int|
                    0 <= j < i ==> (#[trigger] self.indices@[j]) < self.positions@.len(),
            decreases self.indices@.len() - i,
        {
            if *self.indices.at(i) as usize >= n {
                assert(!(self.indices@[i as int] < self.positions@.len()));
                return false;
            }
            i += 1;
        }
        true
    }
}

#[derive(Clone, Copy, PartialEq, Eq, Structural, Debug)]
pub enum ProceduralTextureDef {
    Checker {
        width: u32,
        height: u32,
        cells_x: u32,
        cells_y: u32,
        color_a: Vec4,
        color_b: Vec4,
    },
    Gradient { width: u32, height: u32, color_a: Vec4, color_b: Vec4, horizontal: bool },
    Noise { width: u32, height: u32, seed: u32, scale: F32 },
}

#[derive(Clone, Copy, PartialEq, Eq, Structural, Debug)]
pub enum ProceduralKind {
    Checker,
    Gradient,
    Noise,
}

/// The starting settings of a generated texture, as bit patterns: a light and a
/// dark grey checker, a blue-to-black gradient, or noise.
pub open spec fn procedural_default(kind: ProceduralKind) -> ProceduralTextureDef {
    match kind {
        ProceduralKind::Checker => ProceduralTextureDef::Checker {
            width: 512,
            height: 512,
            cells_x: 8,
            cells_y: 8,
            color_a: Vec4 {
                x: F32 { bits: 0x3F4F_5C29 },
                y: F32 { bits: 0x3F54_7AE1 },
                z: F32 { bits: 0x3F59_999A },
                w: F32::one(),
            },
            color_b: Vec4 {
                x: F32 { bits: 0x3E23_D70A },
                y: F32 { bits: 0x3E38_51EC },
                z: F32 { bits: 0x3E4C_CCCD },
                w: F32::one(),
            },
        },
        ProceduralKind::Gradient => ProceduralTextureDef::Gradient {
            width: 512,
            height: 512,
            color_a: Vec4 {
                x: F32 { bits: 0x3DCC_CCCD },
                y: F32 { bits: 0x3EE6_6666 },
                z: F32 { bits: 0x3F73_3333 },
                w: F32::one(),
            },
            color_b: Vec4 {
                x: F32 { bits: 0x3CA3_D70A },
                y: F32 { bits: 0x3CA3_D70A },
                z: F32 { bits: 0x3D23_D70A },
                w: F32::one(),
            },
            horizontal: false,
        },
        ProceduralKind::Noise => ProceduralTextureDef::Noise {
            width: 512,
            height: 512,
            seed: 1337,
            scale: F32 { bits: 0x4080_0000 },
        },
    }
}

/// The starting settings of a generated texture.
pub fn default_procedural(kind: ProceduralKind) -> (r: ProceduralTextureDef)
    ensures
        r == procedural_default(kind),
{
    match kind {
        ProceduralKind::Checker => ProceduralTextureDef::Checker {
            width: 512,
            height: 512,
            cells_x: 8,
            cells_y: 8,
            color_a: Vec4 {
                x: F32 { bits: 0x3F4F_5C29 },
                y: F32 { bits: 0x3F54_7AE1 },
                z: F32 { bits: 0x3F59_999A },
                w: F32::one(),
            },
            color_b: Vec4 {
                x: F32 { bits: 0x3E23_D70A },
                y: F32 { bits: 0x3E38_51EC },
                z: F32 { bits: 0x3E4C_CCCD },
                w: F32::one(),
            },
        },
        ProceduralKind::Gradient => ProceduralTextureDef::Gradient {
            width: 512,
            height: 512,
            color_a: Vec4 {
                x: F32 { bits: 0x3DCC_CCCD },
                y: F32 { bits: 0x3EE6_6666 },
                z: F32 { bits: 0x3F73_3333 },
                w: F32::one(),
            },
            color_b: Vec4 {
                x: F32 { bits: 0x3CA3_D70A },
                y: F32 { bits: 0x3CA3_D70A },
                z: F32 { bits: 0x3D23_D70A },
                w: F32::one(),
            },
            horizontal: false,
        },
        ProceduralKind::Noise => ProceduralTextureDef::Noise {
            width: 512,
            height: 512,
            seed: 1337,
            scale: F32 { bits: 0x4080_0000 },
        },
    }
}

/// What the numbers of a texture mean, which decides its colour space.
#[derive(Clone, Copy, PartialEq, Eq, Structural, Debug)]
pub enum TextureColorKind {
    Albedo,
    MetallicRoughness,
    Normal,
    Occlusion,
    Emissive,
    Specular,
    SpecularColor,
    Transmission,
    VolumeThickness,
}

/// The meaning of an extension's texture, from the words in its slot name, such as
/// `clearcoat.normal_tex` or `sheen.color_tex`; the first match counts.
pub open spec fn slot_color_kind(slot: Seq<char>) -> TextureColorKind {
    if holds(slot, "clearcoat"@) && holds(slot, "normal"@) {
        TextureColorKind::Normal
    } else if holds(slot, "clearcoat"@) {
        TextureColorKind::MetallicRoughness
    } else if (holds(slot, "specular"@) || holds(slot, "sheen"@)) && holds(slot, "color"@) {
        TextureColorKind::SpecularColor
    } else if holds(slot, "specular"@) || holds(slot, "sheen"@) {
        TextureColorKind::Specular
    } else if holds(slot, "transmission"@) {
        TextureColorKind::Transmission
    } else if holds(slot, "thickness"@) || holds(slot, "volume"@) {
        TextureColorKind::VolumeThickness
    } else if holds(slot, "iridescence"@) || holds(slot, "anisotropy"@) {
        TextureColorKind::Normal
    } else {
        TextureColorKind::Albedo
    }
}

/// The meaning of an extension's texture; a slot that is not known counts as a
/// colour.
pub fn ext_slot_color_kind(slot: &str) -> (r: TextureColorKind)
    ensures
        r == slot_color_kind(slot@),
{
    if contains_text(slot, "clearcoat") && contains_text(slot, "normal") {
        TextureColorKind::Normal
    } else if contains_text(slot, "clearcoat") {
        TextureColorKind::MetallicRoughness
    } else if (contains_text(slot, "specular") || contains_text(slot, "sheen"))
        && contains_text(slot, "color") {
        TextureColorKind::SpecularColor
    } else if contains_text(slot, "specular") || contains_text(slot, "sheen") {
        TextureColorKind::Specular
    } else if contains_text(slot, "transmission") {
        TextureColorKind::Transmission
    } else if contains_text(slot, "thickness") || contains_text(slot, "volume") {
        TextureColorKind::VolumeThickness
    } else if contains_text(slot, "iridescence") || contains_text(slot, "anisotropy") {
        TextureColorKind::Normal
    } else {
        TextureColorKind::Albedo
    }
}

pub enum TextureDef {
    Procedural(ProceduralTextureDef),
    Raster { display_name: String, color_kind: Option<TextureColorKind> },
}

impl Same for TextureDef {
    fn same(&self) -> (res: Self) {
        match self {
            TextureDef::Procedural(p) => TextureDef::Procedural(*p),
            TextureDef::Raster { display_name, color_kind } => TextureDef::Raster {
                display_name: display_name.clone(),
                color_kind: *color_kind,
            },
        }
    }
}

/// What an asset is.
pub enum AssetSource {
    Mesh(MeshDef),
    Material(MaterialDef),
    Texture(TextureDef),
    Buffer { word_len: u32 },
    Filename(String),
    Url(String),
}

impl Same for AssetSource {
    fn same(&self) -> (res: Self) {
        match self {
            AssetSource::Mesh(d) => AssetSource::Mesh(d.same()),
            AssetSource::Material(d) => AssetSource::Material(d.same()),
            AssetSource::Texture(d) => AssetSource::Texture(d.same()),
            AssetSource::Buffer { word_len } => AssetSource::Buffer { word_len: *word_len },
            AssetSource::Filename(s) => AssetSource::Filename(s.clone()),
            AssetSource::Url(s) => AssetSource::Url(s.clone()),
        }
    }
}

/// How a texture is stored when a bundle is exported.
#[derive(Clone, Copy, PartialEq, Eq, Structural, Debug)]
pub enum TextureExport {
    Original,
    Compressed,
}

/// An entry of the asset table.
pub struct AssetEntry {
    pub source: AssetSource,
    pub content_hash: String,
    pub texture_export: Option<TextureExport>,
    pub gltf_material_asset_ids: List<AssetId>,
    pub gltf_image_asset_ids: List<AssetId>,
}

impl Same for AssetEntry {
    fn same(&self) -> (res: Self) {
        AssetEntry {
            source: self.source.same(),
            content_hash: self.content_hash.clone(),
            texture_export: self.texture_export,
            gltf_material_asset_ids: self.gltf_material_asset_ids.clone(),
            gltf_image_asset_ids: self.gltf_image_asset_ids.clone(),
        }
    }
}

impl AssetEntry {
    /// Whether an entry is `source` under `hash`, with nothing else recorded.
    pub open spec fn is_plain(self, source: AssetSource, hash: Seq<char>) -> bool {
        &&& self.source == source
        &&& self.content_hash@ == hash
        &&& self.texture_export is None
        &&& self.gltf_material_asset_ids@.len() == 0
        &&& self.gltf_image_asset_ids@.len() == 0
    }

    /// An entry without a content hash.
    pub fn new(source: AssetSource) -> (e: AssetEntry)
        ensures
            e.is_plain(source, seq![]),
    {
        AssetEntry::new_with_hash(source, String::new())
    }

    /// An entry whose content is stored under its hash.
    pub fn new_with_hash(source: AssetSource, hash: String) -> (e: AssetEntry)
        ensures
            e.is_plain(source, hash@),
    {
        AssetEntry {
            source,
            content_hash: hash,
            texture_export: None,
            gltf_material_asset_ids: List::empty(),
            gltf_image_asset_ids: List::empty(),
        }
    }
}

/// The SHA-256 digest of some bytes.
pub uninterp spec fn sha256_of(bytes: Seq<u8>) -> Seq<u8>;

/// `sha2::Sha256`: the digest of `bytes`, which is 32 bytes long and a function
/// of the bytes alone; which digest it is is not stated.
#[verifier::external_body]
pub(crate) fn sha256(bytes: &Vec<u8>) -> (r: Vec<u8>)
    ensures
        r@ == sha256_of(bytes@),
        r@.len() == 32,
{
    sha2::Sha256::digest(bytes).to_vec()
}

/// The address of stored content: its SHA-256 digest in hexadecimal. The same
/// bytes always have the same address.
pub fn content_hash(bytes: &Vec<u8>) -> (r: String)
    ensures
        r@ == hex(sha256_of(bytes@)),
{
    let digest = sha256(bytes);
    hex_text(&digest)
}

/// Words as bytes, each with its low byte first.
pub open spec fn word_bytes(words: Seq<u32>) -> Seq<u8>
    decreases words.len(),
{
    if words.len() == 0 {
        seq![]
    } else {
        let w = words.last();
        word_bytes(words.drop_last()) + seq![
            (w % 256) as u8,
            ((w / 256) % 256) as u8,
            ((w / 65536) % 256) as u8,
            ((w / 16777216) % 256) as u8,
        ]
    }
}

/// Words as bytes, each with its low byte first.
pub fn words_to_bytes(words: &List<u32>) -> (r: Vec<u8>)
    ensures
        r@ == word_bytes(words@),
{
    let mut out: Vec<u8> = Vec::new();
    let mut i: usize = 0;
    while i < words.len()
        invariant
            i <= words@.len(),
            out@ == word_bytes(words@.take(i as int)),
        decreases words@.len() - i,
    {
        let w: u32 = *words.at(i);
        let ghost before = out@;
        out.push((w % 256) as u8);
        out.push(((w / 256) % 256) as u8);
        out.push(((w / 65536) % 256) as u8);
        out.push(((w / 16777216) % 256) as u8);
        proof {
            assert(words@.take(i + 1).drop_last() == words@.take(i as int));
            assert(out@ =~= before + seq![
                (w % 256) as u8,
                ((w / 256) % 256) as u8,
                ((w / 65536) % 256) as u8,
                ((w / 16777216) % 256) as u8,
            ]);
        }
        i += 1;
    }
    assert(words@.take(i as int) == words@);
    out
}

/// A text up to the first question mark or hash.
pub open spec fn before_query(s: Seq<char>) -> Seq<char>
    decreases s.len(),
{
    if s.len() == 0 || s[0] == '?' || s[0] == '#' {
        seq![]
    } else {
        seq![s[0]] + before_query(s.drop_first())
    }
}

/// The last segment of the path of a URL, or `fallback` where it is empty.
pub open spec fn url_file(url: Seq<char>, fallback: Seq<char>) -> Seq<char> {
    let path = before_query(url);
    let name = path.skip(last_of(path, '/') + 1);
    if name.len() == 0 {
        fallback
    } else {
        name
    }
}

proof fn lemma_before_query(s: Seq<char>, n: int)
    requires
        0 <= n <= s.len(),
        forall|i: int| 0 <= i < n ==> s[i] != '?' && s[i] != '#',
        n < s.len() ==> s[n] == '?' || s[n] == '#',
    ensures
        before_query(s) == s.take(n),
    decreases s.len(),
{
    if n == 0 {
        assert(s.take(0) =~= seq![]);
    } else {
        lemma_before_query(s.drop_first(), n - 1);
        assert(s.take(n) =~= seq![s[0]] + s.drop_first().take(n - 1));
    }
}

/// The file name in a URL, without its query and fragment.
pub fn file_name_of(url: &str, fallback: &str) -> (r: String)
    ensures
        r@ == url_file(url@, fallback@),
{
    let chars = chars_of(url);
    let mut n: usize = 0;
    while n < chars.len() && chars[n] != '?' && chars[n] != '#'
        invariant
            n <= chars@.len(),
            forall|i: int| 0 <= i < n ==> chars@[i] != '?' && chars@[i] != '#',
        decreases chars@.len() - n,
    {
        n += 1;
    }
    proof {
        lemma_before_query(url@, n as int);
    }
    let path = text_of(&chars, 0, n);
    assert(path@ =~= url@.take(n as int));
    let path_chars = chars_of(&path);
    let start: usize = match last_position(&path_chars, '/') {
        Some(i) => i + 1,
        None => 0,
    };
    assert(path_chars@.subrange(start as int, path_chars@.len() as int) =~= path@.skip(
        start as int,
    ));
    if start == path_chars.len() {
        fallback.to_owned()
    } else {
        text_of(&path_chars, start, path_chars.len())
    }
}

/// A file name without its extension.
pub open spec fn stem_of(name: Seq<char>) -> Seq<char> {
    let dot = last_of(name, '.');
    if dot < 0 {
        name
    } else {
        name.take(dot)
    }
}

/// The name under which an imported texture is stored: the stem of the URL's
/// file name, with the extension of the image format.
pub fn texture_file_name(url: &str, ext: &str) -> (r: String)
    ensures
        r@ == stem_of(url_file(url@, "texture"@)) + "."@ + ext@,
{
    let base = file_name_of(url, "texture");
    let chars = chars_of(&base);
    let end: usize = match last_position(&chars, '.') {
        Some(i) => i,
        None => chars.len(),
    };
    let stem = text_of(&chars, 0, end);
    assert(stem@ =~= stem_of(base@));
    joined3(&stem, ".", ext)
}

} // verus!

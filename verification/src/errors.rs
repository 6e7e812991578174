//! Why a command was refused, and how that is told.
use crate::ids::{hyphenated, id_text, AssetId, NodeId, VariantId};
use crate::palette::BuiltinTextureSlot;
use crate::text::{decimal, decimal_text};
use vstd::prelude::*;
use vstd::string::*;

verus! {

/// The palette command that a refusal speaks of.
#[derive(Clone, Copy, PartialEq, Eq, Structural, Debug)]
pub enum PaletteOp {
    Select,
    Add,
    Remove,
    Rename,
}

/// A refusal.
pub enum EditorError {
    /// The id that a command names is not there.
    TargetNotFound,
    NoNode(NodeId),
    NodeNotFound(NodeId),
    NotAParticleEmitter,
    NotAnInstancer,
    SkinnedNode(NodeId),
    NotAMeshNode(NodeId),
    NoGeometry(NodeId),
    NotAnEditableMesh(AssetId),
    ModifierOutOfRange { index: u32, mesh: AssetId, count: usize },
    NoSelectionHandle(u32),
    NoMaterial(AssetId),
    NotBuiltin(AssetId),
    NotBuiltinAlpha(AssetId),
    NoPalette(PaletteOp),
    NoVariant(PaletteOp, VariantId),
    NoLibraryMaterial(AssetId),
    NoUniform(String),
    NoMaterialInstance,
    CustomVariantSelected,
    NoBuiltinMaterial,
    SlotUnbound(BuiltinTextureSlot),
    NoMaterialAssigned,
    NamedSlotUnbound(String),
    KeyCount { times: usize, keys: usize },
    ValueCount { times: usize, values: usize },
    EmptyMesh,
    BrokenMesh,
    /// A copy needs an id for each node below the copied one.
    TooFewIds,
    /// A model without nodes.
    EmptyModel,
    /// A command of a batch was refused.
    InBatch { step: usize, label: String, cause: Box<EditorError> },
    /// What the caller's own work reported.
    Outside(String),
}

pub open spec fn palette_op_text(op: PaletteOp) -> Seq<char> {
    match op {
        PaletteOp::Select => "select_material_variant"@,
        PaletteOp::Add => "add_material_variant"@,
        PaletteOp::Remove => "remove_material_variant"@,
        PaletteOp::Rename => "rename_material_variant"@,
    }
}

pub open spec fn slot_text(slot: BuiltinTextureSlot) -> Seq<char> {
    match slot {
        BuiltinTextureSlot::BaseColor => "BaseColor"@,
        BuiltinTextureSlot::MetallicRoughness => "MetallicRoughness"@,
        BuiltinTextureSlot::Normal => "Normal"@,
        BuiltinTextureSlot::Occlusion => "Occlusion"@,
        BuiltinTextureSlot::Emissive => "Emissive"@,
    }
}

/// The words of a refusal.
pub open spec fn error_text(e: EditorError) -> Seq<char>
    decreases e,
{
    match e {
        EditorError::TargetNotFound =>
            "target id not found — command not applied (check ids against get_snapshot)"@,
        EditorError::NoNode(id) => "no node "@ + hyphenated(id.0),
        EditorError::NodeNotFound(id) => "node "@ + hyphenated(id.0) + " not found"@,
        EditorError::TooFewIds => "not enough new ids for the copied nodes"@,
        EditorError::EmptyModel => "this model contains no nodes to insert"@,
        EditorError::NotAParticleEmitter => "node is not a particle emitter"@,
        EditorError::NotAnInstancer => "node is not an instancer"@,
        EditorError::SkinnedNode(id) => "node "@ + hyphenated(id.0)
            + " is skinned; call drop_skinning first"@,
        EditorError::NotAMeshNode(id) => "node "@ + hyphenated(id.0)
            + " has no editable mesh (not a Mesh node)"@,
        EditorError::NoGeometry(id) => "node "@ + hyphenated(id.0)
            + " has no resolvable mesh geometry"@,
        EditorError::NotAnEditableMesh(id) => "asset "@ + hyphenated(id.0)
            + " is not an editable mesh"@,
        EditorError::ModifierOutOfRange { index, mesh, count } => "modifier index "@ + decimal(
            index as nat,
        ) + " out of range (mesh "@ + hyphenated(mesh.0) + " has "@ + decimal(count as nat)
            + " modifier(s))"@,
        EditorError::NoSelectionHandle(id) => "no vertex-selection handle "@ + decimal(id as nat)
            + " (create one with select_vertices_where { store: true })"@,
        EditorError::NoMaterial(id) => "no material "@ + hyphenated(id.0),
        EditorError::NotBuiltin(id) => "material "@ + hyphenated(id.0)
            + " is not a built-in (custom WGSL materials use the SetCustomMaterial* commands)"@,
        EditorError::NotBuiltinAlpha(id) => "material "@ + hyphenated(id.0)
            + " is not a built-in (custom WGSL materials author their alpha via set_material_alpha_wgsl)"@,
        EditorError::NoPalette(op) => palette_op_text(op) + ": node has no material palette"@,
        EditorError::NoVariant(op, id) => palette_op_text(op) + ": no variant "@ + hyphenated(id.0)
            + " on this mesh"@,
        EditorError::NoLibraryMaterial(id) => "add_material_variant: no library material with id "@
            + hyphenated(id.0),
        EditorError::NoUniform(name) => "material has no uniform named `"@ + name@
            + "` — check the layout"@,
        EditorError::NoMaterialInstance =>
            "node has no material instance — assign a material first"@,
        EditorError::CustomVariantSelected =>
            "this node's selected variant is a CUSTOM material — builtin params don't apply; use set_material_uniform (shared default) or set_node_material_uniform (per-instance) instead"@,
        EditorError::NoBuiltinMaterial =>
            "node has no built-in material — assign one and bind a texture first"@,
        EditorError::SlotUnbound(slot) => "texture slot `"@ + slot_text(slot)
            + "` has no texture bound — bind one with set_node_texture first"@,
        EditorError::NoMaterialAssigned =>
            "node has no material assigned — assign one and bind a texture first"@,
        EditorError::NamedSlotUnbound(name) => "texture slot `"@ + name@
            + "` has no texture bound — bind one first (set_node_texture / set_material_texture)"@,
        EditorError::KeyCount { times, keys } => "set_track_keys: "@ + decimal(times as nat)
            + " times but "@ + decimal(keys as nat) + " keys"@,
        EditorError::ValueCount { times, values } => "set_track_keys: "@ + decimal(times as nat)
            + " times but "@ + decimal(values as nat) + " values"@,
        EditorError::EmptyMesh => "mesh data has no vertices"@,
        EditorError::BrokenMesh => "mesh data is not made of whole triangles over its vertices"@,
        EditorError::InBatch { step, label, cause } => "batch["@ + decimal(step as nat) + "] ("@
            + label@ + "): "@ + error_text(*cause),
        EditorError::Outside(s) => s@,
    }
}

/// A text made of up to seven pieces.
fn pieces(a: &str, b: &str, c: &str, d: &str, e: &str, f: &str, g: &str) -> (r: String)
    ensures
        r@ == a@ + b@ + c@ + d@ + e@ + f@ + g@,
{
    let mut s = a.to_owned();
    s.append(b);
    s.append(c);
    s.append(d);
    s.append(e);
    s.append(f);
    s.append(g);
    s
}

fn around(a: &str, b: &str, c: &str) -> (r: String)
    ensures
        r@ == a@ + b@ + c@,
{
    let mut s = a.to_owned();
    s.append(b);
    s.append(c);
    s
}

fn op_text(op: PaletteOp) -> (r: String)
    ensures
        r@ == palette_op_text(op),
{
    match op {
        PaletteOp::Select => "select_material_variant".to_owned(),
        PaletteOp::Add => "add_material_variant".to_owned(),
        PaletteOp::Remove => "remove_material_variant".to_owned(),
        PaletteOp::Rename => "rename_material_variant".to_owned(),
    }
}

fn slot_name(slot: BuiltinTextureSlot) -> (r: String)
    ensures
        r@ == slot_text(slot),
{
    match slot {
        BuiltinTextureSlot::BaseColor => "BaseColor".to_owned(),
        BuiltinTextureSlot::MetallicRoughness => "MetallicRoughness".to_owned(),
        BuiltinTextureSlot::Normal => "Normal".to_owned(),
        BuiltinTextureSlot::Occlusion => "Occlusion".to_owned(),
        BuiltinTextureSlot::Emissive => "Emissive".to_owned(),
    }
}

/// How an edit of a skinned mesh is refused: its weights would not survive it,
/// so its skinning has to be dropped first.
pub fn skinned_edit_error(node: NodeId) -> (r: String)
    ensures
        r@ == error_text(EditorError::SkinnedNode(node)),
{
    let id = id_text(node.0);
    around("node ", &id, " is skinned; call drop_skinning first")
}

impl EditorError {
    /// The words of the refusal.
    pub fn message(&self) -> (r: String)
        ensures
            r@ == error_text(*self),
        decreases self,
    {
        match self {
            EditorError::TargetNotFound =>
                "target id not found — command not applied (check ids against get_snapshot)".to_owned(),
            EditorError::NoNode(id) => {
                let t = id_text(id.0);
                let mut s = "no node ".to_owned();
                s.append(&t);
                s
            },
            EditorError::NodeNotFound(id) => around("node ", &id_text(id.0), " not found"),
            EditorError::TooFewIds => "not enough new ids for the copied nodes".to_owned(),
            EditorError::EmptyModel => "this model contains no nodes to insert".to_owned(),
            EditorError::NotAParticleEmitter => "node is not a particle emitter".to_owned(),
            EditorError::NotAnInstancer => "node is not an instancer".to_owned(),
            EditorError::SkinnedNode(id) => skinned_edit_error(*id),
            EditorError::NotAMeshNode(id) => around(
                "node ",
                &id_text(id.0),
                " has no editable mesh (not a Mesh node)",
            ),
            EditorError::NoGeometry(id) => around(
                "node ",
                &id_text(id.0),
                " has no resolvable mesh geometry",
            ),
            EditorError::NotAnEditableMesh(id) => around(
                "asset ",
                &id_text(id.0),
                " is not an editable mesh",
            ),
            EditorError::ModifierOutOfRange { index, mesh, count } => pieces(
                "modifier index ",
                &decimal_text(*index as u64),
                " out of range (mesh ",
                &id_text(mesh.0),
                " has ",
                &decimal_text(*count as u64),
                " modifier(s))",
            ),
            EditorError::NoSelectionHandle(id) => around(
                "no vertex-selection handle ",
                &decimal_text(*id as u64),
                " (create one with select_vertices_where { store: true })",
            ),
            EditorError::NoMaterial(id) => {
                let t = id_text(id.0);
                let mut s = "no material ".to_owned();
                s.append(&t);
                s
            },
            EditorError::NotBuiltin(id) => around(
                "material ",
                &id_text(id.0),
                " is not a built-in (custom WGSL materials use the SetCustomMaterial* commands)",
            ),
            EditorError::NotBuiltinAlpha(id) => around(
                "material ",
                &id_text(id.0),
                " is not a built-in (custom WGSL materials author their alpha via set_material_alpha_wgsl)",
            ),
            EditorError::NoPalette(op) => {
                let mut s = op_text(*op);
                s.append(": node has no material palette");
                s
            },
            EditorError::NoVariant(op, id) => {
                let t = id_text(id.0);
                let mut s = op_text(*op);
                s.append(": no variant ");
                s.append(&t);
                s.append(" on this mesh");
                s
            },
            EditorError::NoLibraryMaterial(id) => {
                let t = id_text(id.0);
                let mut s = "add_material_variant: no library material with id ".to_owned();
                s.append(&t);
                s
            },
            EditorError::NoUniform(name) => around(
                "material has no uniform named `",
                name,
                "` — check the layout",
            ),
            EditorError::NoMaterialInstance =>
                "node has no material instance — assign a material first".to_owned(),
            EditorError::CustomVariantSelected =>
                "this node's selected variant is a CUSTOM material — builtin params don't apply; use set_material_uniform (shared default) or set_node_material_uniform (per-instance) instead".to_owned(),
            EditorError::NoBuiltinMaterial =>
                "node has no built-in material — assign one and bind a texture first".to_owned(),
            EditorError::SlotUnbound(slot) => around(
                "texture slot `",
                &slot_name(*slot),
                "` has no texture bound — bind one with set_node_texture first",
            ),
            EditorError::NoMaterialAssigned =>
                "node has no material assigned — assign one and bind a texture first".to_owned(),
            EditorError::NamedSlotUnbound(name) => around(
                "texture slot `",
                name,
                "` has no texture bound — bind one first (set_node_texture / set_material_texture)",
            ),
            EditorError::KeyCount { times, keys } => {
                let mut s = around(
                    "set_track_keys: ",
                    &decimal_text(*times as u64),
                    " times but ",
                );
                s.append(&decimal_text(*keys as u64));
                s.append(" keys");
                s
            },
            EditorError::ValueCount { times, values } => {
                let mut s = around(
                    "set_track_keys: ",
                    &decimal_text(*times as u64),
                    " times but ",
                );
                s.append(&decimal_text(*values as u64));
                s.append(" values");
                s
            },
            EditorError::EmptyMesh => "mesh data has no vertices".to_owned(),
            EditorError::BrokenMesh =>
                "mesh data is not made of whole triangles over its vertices".to_owned(),
            EditorError::InBatch { step, label, cause } => {
                let inner = cause.message();
                let mut s = around("batch[", &decimal_text(*step as u64), "] (");
                s.append(label);
                s.append("): ");
                s.append(&inner);
                s
            },
            EditorError::Outside(s) => s.clone(),
        }
    }
}

} // verus!

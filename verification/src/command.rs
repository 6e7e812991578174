//! The commands of the editor: everything that changes a project goes through one
//! of them, and what takes a change back is a command too.
use crate::assets::MeshData;
use crate::asset_edit::AssetCommand;
use crate::ids::{packed_mask, pack, AssetId, NodeId};
use crate::library_edit::LibraryCommand;
use crate::list::List;
use crate::mesh_edit::MeshCommand;
use crate::node_edit::{NodeCommand, NodeEdit};
use crate::reachable::Json;
use crate::scene_edit::{InsertSpec, NodeMeshCommand, Split};
use crate::session::ViewCommand;
use crate::skin::SkinWeightEntry;
use crate::table::Table;
use crate::timeline::{ClipCommand, MixerCommand, TrackCommand, TransportCommand};
use crate::tree::Node;
use crate::world::WorldCommand;
use vstd::prelude::*;

verus! {

/// What is asked of the renderer, the network or the disk. The project is left
/// alone by the command itself.
pub enum OutsideCommand {
    SnapCameraToAxis,
    ResetCamera,
    SetCameraOrbit,
    FrameNode,
    SetFrameTime,
    ClearFrameTime,
    SetMorphWeight,
    ResetPose,
    RegisterMaterial,
    ConvertToEditableMesh,
    ImportModelFromUrl,
    ImportModelFromFile,
    LoadProjectFromUrl,
    LoadPlayerBundle,
    ReloadProjectInMemory,
    VerifyRoundtrip,
    AssignMaterial { cleared: bool },
}

/// A command.
#[allow(inconsistent_fields)]
pub enum EditorCommand {
    Node(NodeCommand),
    CopyMaterialInstance { from: NodeId, to: NodeId },
    /// `fresh` are the ids of the nodes below the copy, in pre-order.
    Duplicate { id: NodeId, new_id: NodeId, fresh: Vec<NodeId> },
    Reparent { id: NodeId, new_parent: Option<NodeId>, index: Option<usize> },
    Insert { id: NodeId, spec: InsertSpec, parent: Option<NodeId> },
    InsertTree { tree: Node, parent: Option<NodeId>, index: Option<usize> },
    Delete { id: NodeId },
    ResetToBindPose { id: NodeId },
    Asset(AssetCommand),
    /// `roots` are the documents that use assets, `docs` those of the assets.
    PurgeUnusedAssets { roots: Vec<Json>, docs: Table<Json> },
    DropSkinning { node: NodeId, bind_pose: Option<MeshData> },
    Mesh(MeshCommand),
    NodeMesh(NodeMeshCommand),
    SeparateMesh(Split),
    /// The weights are those to be stored.
    SetSkinWeights { node: NodeId, entries: List<SkinWeightEntry> },
    /// An asset of clusters that was fetched and parsed.
    ImportNaniteAsset { node: NodeId, asset: AssetId, url: String },
    Library(LibraryCommand),
    World(WorldCommand),
    Clip(ClipCommand),
    Track(TrackCommand),
    Transport(TransportCommand),
    Mixer(MixerCommand),
    View(ViewCommand),
    /// A new project with a light in it.
    NewProject { light: Node },
    Outside(OutsideCommand),
    /// Commands that are one step; a batch in a batch does nothing.
    Batch(Vec<EditorCommand>),
}

/// Whether a command changes only what is looked at, or sets the project up
/// anew: it is no edit, and leaves no step to be taken back.
pub open spec fn transient(c: EditorCommand) -> bool {
    match c {
        EditorCommand::View(_) | EditorCommand::Transport(_) => true,
        EditorCommand::NewProject { .. } => true,
        EditorCommand::Clip(c) => c is SetCurrentClip,
        EditorCommand::Library(c) => c is SetCurrentMaterial,
        EditorCommand::Outside(c) => !(c is RegisterMaterial || c is ConvertToEditableMesh || c
            is ImportModelFromUrl || c is ImportModelFromFile || c is AssignMaterial),
        _ => false,
    }
}

/// Whether a command changes what is animated or how.
pub open spec fn animates(c: EditorCommand) -> bool {
    match c {
        EditorCommand::Clip(c) => !(c is SetCurrentClip),
        EditorCommand::Track(_) | EditorCommand::Mixer(_) => true,
        _ => false,
    }
}

/// Whether a command changes geometry.
pub open spec fn reshapes(c: EditorCommand) -> bool {
    match c {
        EditorCommand::Mesh(_) | EditorCommand::NodeMesh(_) | EditorCommand::SeparateMesh(_) => true,
        _ => false,
    }
}

pub open spec fn node_edit_name(c: NodeEdit) -> Seq<char> {
    match c {
        NodeEdit::SetKind(_) => "Set Kind"@,
        NodeEdit::PatchKind(_) => "Patch Kind"@,
        NodeEdit::SetParticleEmitter(_) => "Set Particle Emitter"@,
        NodeEdit::SetInstancerTransforms { .. } => "Set Instancer Transforms"@,
        NodeEdit::SetTransform(_) => "Set Transform"@,
        NodeEdit::Rename(_) => "Rename"@,
        NodeEdit::SetVisible(_) => "Set Visible"@,
        NodeEdit::SetLocked(_) => "Set Locked"@,
        NodeEdit::SetPrefab(_) => "Set Prefab"@,
        NodeEdit::SelectMaterialVariant(_) => "Select Material Variant"@,
        NodeEdit::AddMaterialVariant { .. } => "Add Material Variant"@,
        NodeEdit::RemoveMaterialVariant(_) => "Remove Material Variant"@,
        NodeEdit::RenameMaterialVariant { .. } => "Rename Material Variant"@,
        NodeEdit::SetNodeMaterialUniform { .. } => "Set Node Material Uniform"@,
        NodeEdit::SetBuiltinParam { .. } => "Set Builtin Param"@,
        NodeEdit::SetBuiltinTexture { .. } => "Set Builtin Texture"@,
        NodeEdit::SetTextureUseProfile { .. } => "Set Texture Use Profile"@,
        NodeEdit::SetNodeTextureTransform { .. } => "Set Node Texture Transform"@,
        NodeEdit::SetLightParam { .. } => "Set Light Param"@,
        NodeEdit::SetMaterialTexture { .. } => "Set Material Texture"@,
        NodeEdit::SetMaterialBuffer { .. } => "Set Material Buffer"@,
    }
}

fn node_edit_label(c: &NodeEdit) -> (r: &'static str)
    ensures
        r@ == node_edit_name(*c),
{
    match c {
        NodeEdit::SetKind(_) => "Set Kind",
        NodeEdit::PatchKind(_) => "Patch Kind",
        NodeEdit::SetParticleEmitter(_) => "Set Particle Emitter",
        NodeEdit::SetInstancerTransforms { .. } => "Set Instancer Transforms",
        NodeEdit::SetTransform(_) => "Set Transform",
        NodeEdit::Rename(_) => "Rename",
        NodeEdit::SetVisible(_) => "Set Visible",
        NodeEdit::SetLocked(_) => "Set Locked",
        NodeEdit::SetPrefab(_) => "Set Prefab",
        NodeEdit::SelectMaterialVariant(_) => "Select Material Variant",
        NodeEdit::AddMaterialVariant { .. } => "Add Material Variant",
        NodeEdit::RemoveMaterialVariant(_) => "Remove Material Variant",
        NodeEdit::RenameMaterialVariant { .. } => "Rename Material Variant",
        NodeEdit::SetNodeMaterialUniform { .. } => "Set Node Material Uniform",
        NodeEdit::SetBuiltinParam { .. } => "Set Builtin Param",
        NodeEdit::SetBuiltinTexture { .. } => "Set Builtin Texture",
        NodeEdit::SetTextureUseProfile { .. } => "Set Texture Use Profile",
        NodeEdit::SetNodeTextureTransform { .. } => "Set Node Texture Transform",
        NodeEdit::SetLightParam { .. } => "Set Light Param",
        NodeEdit::SetMaterialTexture { .. } => "Set Material Texture",
        NodeEdit::SetMaterialBuffer { .. } => "Set Material Buffer",
    }
}

pub open spec fn asset_command_name(c: AssetCommand) -> Seq<char> {
    match c {
        AssetCommand::AddMaterialAsset { .. } => "Add Material Asset"@,
        AssetCommand::AddTextureAsset { .. } => "Add Texture Asset"@,
        AssetCommand::DeleteAsset { .. } => "Delete Asset"@,
        AssetCommand::RestoreAsset { .. } => "Restore Asset"@,
        AssetCommand::SetTextureExport { .. } => "Set Texture Export"@,
        AssetCommand::ImportTextureFromUrl { .. } => "Import Texture From Url"@,
        AssetCommand::ImportKtxEnvFromUrl { .. } => "Import Ktx Env From Url"@,
    }
}

fn asset_command_label(c: &AssetCommand) -> (r: &'static str)
    ensures
        r@ == asset_command_name(*c),
{
    match c {
        AssetCommand::AddMaterialAsset { .. } => "Add Material Asset",
        AssetCommand::AddTextureAsset { .. } => "Add Texture Asset",
        AssetCommand::DeleteAsset { .. } => "Delete Asset",
        AssetCommand::RestoreAsset { .. } => "Restore Asset",
        AssetCommand::SetTextureExport { .. } => "Set Texture Export",
        AssetCommand::ImportTextureFromUrl { .. } => "Import Texture From Url",
        AssetCommand::ImportKtxEnvFromUrl { .. } => "Import Ktx Env From Url",
    }
}

pub open spec fn mesh_command_name(c: MeshCommand) -> Seq<char> {
    match c {
        MeshCommand::SetMeshData { .. } => "Set Mesh Data"@,
        MeshCommand::SetMeshModifiers { .. } => "Set Mesh Modifiers"@,
        MeshCommand::AddModifier { .. } => "Add Modifier"@,
        MeshCommand::SetModifier { .. } => "Set Modifier"@,
        MeshCommand::RemoveModifier { .. } => "Remove Modifier"@,
        MeshCommand::SetVertexPositions { .. } => "Set Vertex Positions"@,
        MeshCommand::SoftTransformVertices { .. } => "Soft Transform Vertices"@,
        MeshCommand::PaintVertexColors { .. } => "Paint Vertex Colors"@,
        MeshCommand::SetVertexNormals { .. } => "Set Vertex Normals"@,
        MeshCommand::SetVertexUvs { .. } => "Set Vertex Uvs"@,
        MeshCommand::SetVertexOverrides { .. } => "Set Vertex Overrides"@,
        MeshCommand::CollapseMeshStack { .. } => "Collapse Mesh Stack"@,
        MeshCommand::BakeAll => "Bake All"@,
        MeshCommand::RestoreMesh { .. } => "Restore Mesh"@,
    }
}

fn mesh_command_label(c: &MeshCommand) -> (r: &'static str)
    ensures
        r@ == mesh_command_name(*c),
{
    match c {
        MeshCommand::SetMeshData { .. } => "Set Mesh Data",
        MeshCommand::SetMeshModifiers { .. } => "Set Mesh Modifiers",
        MeshCommand::AddModifier { .. } => "Add Modifier",
        MeshCommand::SetModifier { .. } => "Set Modifier",
        MeshCommand::RemoveModifier { .. } => "Remove Modifier",
        MeshCommand::SetVertexPositions { .. } => "Set Vertex Positions",
        MeshCommand::SoftTransformVertices { .. } => "Soft Transform Vertices",
        MeshCommand::PaintVertexColors { .. } => "Paint Vertex Colors",
        MeshCommand::SetVertexNormals { .. } => "Set Vertex Normals",
        MeshCommand::SetVertexUvs { .. } => "Set Vertex Uvs",
        MeshCommand::SetVertexOverrides { .. } => "Set Vertex Overrides",
        MeshCommand::CollapseMeshStack { .. } => "Collapse Mesh Stack",
        MeshCommand::BakeAll => "Bake All",
        MeshCommand::RestoreMesh { .. } => "Restore Mesh",
    }
}

pub open spec fn node_mesh_command_name(c: NodeMeshCommand) -> Seq<char> {
    match c {
        NodeMeshCommand::PaintVerticesWhere { .. } => "Paint Vertices Where"@,
        NodeMeshCommand::TransformVerticesWhere { .. } => "Transform Vertices Where"@,
        NodeMeshCommand::DisplaceFromTexture { .. } => "Displace From Texture"@,
    }
}

fn node_mesh_command_label(c: &NodeMeshCommand) -> (r: &'static str)
    ensures
        r@ == node_mesh_command_name(*c),
{
    match c {
        NodeMeshCommand::PaintVerticesWhere { .. } => "Paint Vertices Where",
        NodeMeshCommand::TransformVerticesWhere { .. } => "Transform Vertices Where",
        NodeMeshCommand::DisplaceFromTexture { .. } => "Displace From Texture",
    }
}

pub open spec fn library_command_name(c: LibraryCommand) -> Seq<char> {
    match c {
        LibraryCommand::AddCustomMaterial { .. } => "Add Custom Material"@,
        LibraryCommand::AddBuiltinMaterial { .. } => "Add Builtin Material"@,
        LibraryCommand::DeleteCustomMaterial { .. } => "Delete Custom Material"@,
        LibraryCommand::SetCurrentMaterial { .. } => "Set Current Material"@,
        LibraryCommand::UpdateBuiltinMaterial { .. } => "Update Builtin Material"@,
        LibraryCommand::SetBuiltinAlphaMode { .. } => "Set Builtin Alpha Mode"@,
        LibraryCommand::SetCustomMaterialWgsl { .. } => "Set Custom Material Wgsl"@,
        LibraryCommand::SetCustomMaterialAlphaWgsl { .. } => "Set Custom Material Alpha Wgsl"@,
        LibraryCommand::SetCustomMaterialVertexWgsl { .. } => "Set Custom Material Vertex Wgsl"@,
        LibraryCommand::SetCustomMaterialAlphaMode { .. } => "Set Custom Material Alpha Mode"@,
        LibraryCommand::SetCustomMaterialDoubleSided { .. } => "Set Custom Material Double Sided"@,
        LibraryCommand::SetCustomMaterialDebugColor { .. } => "Set Custom Material Debug Color"@,
        LibraryCommand::SetCustomMaterialLayout { .. } => "Set Custom Material Layout"@,
        LibraryCommand::SetCustomMaterialShaderIncludes { .. } => "Set Custom Material Shader Includes"@,
        LibraryCommand::SetCustomMaterialFragmentInputs { .. } => "Set Custom Material Fragment Inputs"@,
        LibraryCommand::SetMaterialUniform { .. } => "Set Material Uniform"@,
    }
}

fn library_command_label(c: &LibraryCommand) -> (r: &'static str)
    ensures
        r@ == library_command_name(*c),
{
    match c {
        LibraryCommand::AddCustomMaterial { .. } => "Add Custom Material",
        LibraryCommand::AddBuiltinMaterial { .. } => "Add Builtin Material",
        LibraryCommand::DeleteCustomMaterial { .. } => "Delete Custom Material",
        LibraryCommand::SetCurrentMaterial { .. } => "Set Current Material",
        LibraryCommand::UpdateBuiltinMaterial { .. } => "Update Builtin Material",
        LibraryCommand::SetBuiltinAlphaMode { .. } => "Set Builtin Alpha Mode",
        LibraryCommand::SetCustomMaterialWgsl { .. } => "Set Custom Material Wgsl",
        LibraryCommand::SetCustomMaterialAlphaWgsl { .. } => "Set Custom Material Alpha Wgsl",
        LibraryCommand::SetCustomMaterialVertexWgsl { .. } => "Set Custom Material Vertex Wgsl",
        LibraryCommand::SetCustomMaterialAlphaMode { .. } => "Set Custom Material Alpha Mode",
        LibraryCommand::SetCustomMaterialDoubleSided { .. } => "Set Custom Material Double Sided",
        LibraryCommand::SetCustomMaterialDebugColor { .. } => "Set Custom Material Debug Color",
        LibraryCommand::SetCustomMaterialLayout { .. } => "Set Custom Material Layout",
        LibraryCommand::SetCustomMaterialShaderIncludes { .. } => "Set Custom Material Shader Includes",
        LibraryCommand::SetCustomMaterialFragmentInputs { .. } => "Set Custom Material Fragment Inputs",
        LibraryCommand::SetMaterialUniform { .. } => "Set Material Uniform",
    }
}

pub open spec fn world_command_name(c: WorldCommand) -> Seq<char> {
    match c {
        WorldCommand::SetEnvironment(_) => "Set Environment"@,
        WorldCommand::PatchEnvironment(_) => "Patch Environment"@,
        WorldCommand::SetShadows(_) => "Set Shadows"@,
        WorldCommand::SetShadowsSscs(_) => "Set Shadows Sscs"@,
        WorldCommand::SetPostProcess(_) => "Set Post Process"@,
        WorldCommand::SetBundleOptions(_) => "Set Bundle Options"@,
    }
}

fn world_command_label(c: &WorldCommand) -> (r: &'static str)
    ensures
        r@ == world_command_name(*c),
{
    match c {
        WorldCommand::SetEnvironment(_) => "Set Environment",
        WorldCommand::PatchEnvironment(_) => "Patch Environment",
        WorldCommand::SetShadows(_) => "Set Shadows",
        WorldCommand::SetShadowsSscs(_) => "Set Shadows Sscs",
        WorldCommand::SetPostProcess(_) => "Set Post Process",
        WorldCommand::SetBundleOptions(_) => "Set Bundle Options",
    }
}

pub open spec fn clip_command_name(c: ClipCommand) -> Seq<char> {
    match c {
        ClipCommand::AddClip { .. } => "Add Clip"@,
        ClipCommand::DeleteClip { .. } => "Delete Clip"@,
        ClipCommand::DuplicateClip { .. } => "Duplicate Clip"@,
        ClipCommand::SetCurrentClip { .. } => "Set Current Clip"@,
        ClipCommand::RenameClip { .. } => "Rename Clip"@,
        ClipCommand::SetClipDuration { .. } => "Set Clip Duration"@,
        ClipCommand::SetClipLoop { .. } => "Set Clip Loop"@,
        ClipCommand::SetClipSpeed { .. } => "Set Clip Speed"@,
        ClipCommand::SetClipDirection { .. } => "Set Clip Direction"@,
        ClipCommand::SetClipColor { .. } => "Set Clip Color"@,
    }
}

fn clip_command_label(c: &ClipCommand) -> (r: &'static str)
    ensures
        r@ == clip_command_name(*c),
{
    match c {
        ClipCommand::AddClip { .. } => "Add Clip",
        ClipCommand::DeleteClip { .. } => "Delete Clip",
        ClipCommand::DuplicateClip { .. } => "Duplicate Clip",
        ClipCommand::SetCurrentClip { .. } => "Set Current Clip",
        ClipCommand::RenameClip { .. } => "Rename Clip",
        ClipCommand::SetClipDuration { .. } => "Set Clip Duration",
        ClipCommand::SetClipLoop { .. } => "Set Clip Loop",
        ClipCommand::SetClipSpeed { .. } => "Set Clip Speed",
        ClipCommand::SetClipDirection { .. } => "Set Clip Direction",
        ClipCommand::SetClipColor { .. } => "Set Clip Color",
    }
}

pub open spec fn track_command_name(c: TrackCommand) -> Seq<char> {
    match c {
        TrackCommand::AddTrack { .. } => "Add Track"@,
        TrackCommand::AddSpinTrack { .. } => "Add Spin Track"@,
        TrackCommand::DeleteTrack { .. } => "Delete Track"@,
        TrackCommand::RestoreTrack { .. } => "Restore Track"@,
        TrackCommand::SetTrackSampler { .. } => "Set Track Sampler"@,
        TrackCommand::SetTrackMute { .. } => "Set Track Mute"@,
        TrackCommand::SetTrackSolo { .. } => "Set Track Solo"@,
        TrackCommand::SetTrackKeys { .. } => "Set Track Keys"@,
        TrackCommand::AddKeyframe { .. } => "Add Keyframe"@,
        TrackCommand::DeleteKeyframe { .. } => "Delete Keyframe"@,
        TrackCommand::InsertKeyframe { .. } => "Insert Keyframe"@,
        TrackCommand::SetKeyframe { .. } => "Set Keyframe"@,
    }
}

fn track_command_label(c: &TrackCommand) -> (r: &'static str)
    ensures
        r@ == track_command_name(*c),
{
    match c {
        TrackCommand::AddTrack { .. } => "Add Track",
        TrackCommand::AddSpinTrack { .. } => "Add Spin Track",
        TrackCommand::DeleteTrack { .. } => "Delete Track",
        TrackCommand::RestoreTrack { .. } => "Restore Track",
        TrackCommand::SetTrackSampler { .. } => "Set Track Sampler",
        TrackCommand::SetTrackMute { .. } => "Set Track Mute",
        TrackCommand::SetTrackSolo { .. } => "Set Track Solo",
        TrackCommand::SetTrackKeys { .. } => "Set Track Keys",
        TrackCommand::AddKeyframe { .. } => "Add Keyframe",
        TrackCommand::DeleteKeyframe { .. } => "Delete Keyframe",
        TrackCommand::InsertKeyframe { .. } => "Insert Keyframe",
        TrackCommand::SetKeyframe { .. } => "Set Keyframe",
    }
}

pub open spec fn transport_command_name(c: TransportCommand) -> Seq<char> {
    match c {
        TransportCommand::SetPlayhead { .. } => "Set Playhead"@,
        TransportCommand::SetPlaying { .. } => "Set Playing"@,
        TransportCommand::StepPlayhead { .. } => "Step Playhead"@,
        TransportCommand::SetAnimFps { .. } => "Set Anim Fps"@,
        TransportCommand::SetSoloRoot { .. } => "Set Solo Root"@,
        TransportCommand::SetAnimSelection { .. } => "Set Anim Selection"@,
        TransportCommand::SetAnimView { .. } => "Set Anim View"@,
    }
}

fn transport_command_label(c: &TransportCommand) -> (r: &'static str)
    ensures
        r@ == transport_command_name(*c),
{
    match c {
        TransportCommand::SetPlayhead { .. } => "Set Playhead",
        TransportCommand::SetPlaying { .. } => "Set Playing",
        TransportCommand::StepPlayhead { .. } => "Step Playhead",
        TransportCommand::SetAnimFps { .. } => "Set Anim Fps",
        TransportCommand::SetSoloRoot { .. } => "Set Solo Root",
        TransportCommand::SetAnimSelection { .. } => "Set Anim Selection",
        TransportCommand::SetAnimView { .. } => "Set Anim View",
    }
}

pub open spec fn mixer_command_name(c: MixerCommand) -> Seq<char> {
    match c {
        MixerCommand::AddLayer => "Add Layer"@,
        MixerCommand::DeleteLayer { .. } => "Delete Layer"@,
        MixerCommand::RestoreLayer { .. } => "Restore Layer"@,
        MixerCommand::SetLayerMode { .. } => "Set Layer Mode"@,
        MixerCommand::SetLayerWeight { .. } => "Set Layer Weight"@,
        MixerCommand::SetLayerMask { .. } => "Set Layer Mask"@,
        MixerCommand::AddStrip { .. } => "Add Strip"@,
        MixerCommand::DeleteStrip { .. } => "Delete Strip"@,
        MixerCommand::RestoreStrip { .. } => "Restore Strip"@,
        MixerCommand::MoveStrip { .. } => "Move Strip"@,
        MixerCommand::TrimStrip { .. } => "Trim Strip"@,
        MixerCommand::SetStripRepeat { .. } => "Set Strip Repeat"@,
    }
}

fn mixer_command_label(c: &MixerCommand) -> (r: &'static str)
    ensures
        r@ == mixer_command_name(*c),
{
    match c {
        MixerCommand::AddLayer => "Add Layer",
        MixerCommand::DeleteLayer { .. } => "Delete Layer",
        MixerCommand::RestoreLayer { .. } => "Restore Layer",
        MixerCommand::SetLayerMode { .. } => "Set Layer Mode",
        MixerCommand::SetLayerWeight { .. } => "Set Layer Weight",
        MixerCommand::SetLayerMask { .. } => "Set Layer Mask",
        MixerCommand::AddStrip { .. } => "Add Strip",
        MixerCommand::DeleteStrip { .. } => "Delete Strip",
        MixerCommand::RestoreStrip { .. } => "Restore Strip",
        MixerCommand::MoveStrip { .. } => "Move Strip",
        MixerCommand::TrimStrip { .. } => "Trim Strip",
        MixerCommand::SetStripRepeat { .. } => "Set Strip Repeat",
    }
}

pub open spec fn view_command_name(c: ViewCommand) -> Seq<char> {
    match c {
        ViewCommand::SwitchMode(_) => "Switch Mode"@,
        ViewCommand::SetSelection(_) => "Set Selection"@,
        ViewCommand::SetVertexSelection { .. } => "Set Vertex Selection"@,
        ViewCommand::SetAssetSelection(_) => "Set Asset Selection"@,
        ViewCommand::SetViewOptions(_) => "Set View Options"@,
        ViewCommand::SetCameraProjection { .. } => "Set Camera Projection"@,
        ViewCommand::SetCameraClip { .. } => "Set Camera Clip"@,
    }
}

fn view_command_label(c: &ViewCommand) -> (r: &'static str)
    ensures
        r@ == view_command_name(*c),
{
    match c {
        ViewCommand::SwitchMode(_) => "Switch Mode",
        ViewCommand::SetSelection(_) => "Set Selection",
        ViewCommand::SetVertexSelection { .. } => "Set Vertex Selection",
        ViewCommand::SetAssetSelection(_) => "Set Asset Selection",
        ViewCommand::SetViewOptions(_) => "Set View Options",
        ViewCommand::SetCameraProjection { .. } => "Set Camera Projection",
        ViewCommand::SetCameraClip { .. } => "Set Camera Clip",
    }
}

pub open spec fn outside_command_name(c: OutsideCommand) -> Seq<char> {
    match c {
        OutsideCommand::SnapCameraToAxis => "Snap Camera To Axis"@,
        OutsideCommand::ResetCamera => "Reset Camera"@,
        OutsideCommand::SetCameraOrbit => "Set Camera Orbit"@,
        OutsideCommand::FrameNode => "Frame Node"@,
        OutsideCommand::SetFrameTime => "Set Frame Time"@,
        OutsideCommand::ClearFrameTime => "Clear Frame Time"@,
        OutsideCommand::SetMorphWeight => "Set Morph Weight"@,
        OutsideCommand::ResetPose => "Reset Pose"@,
        OutsideCommand::RegisterMaterial => "Register Material"@,
        OutsideCommand::ConvertToEditableMesh => "Convert To Editable Mesh"@,
        OutsideCommand::ImportModelFromUrl => "Import Model From Url"@,
        OutsideCommand::ImportModelFromFile => "Import Model From File"@,
        OutsideCommand::LoadProjectFromUrl => "Load Project From Url"@,
        OutsideCommand::LoadPlayerBundle => "Load Player Bundle"@,
        OutsideCommand::ReloadProjectInMemory => "Reload Project In Memory"@,
        OutsideCommand::VerifyRoundtrip => "Verify Roundtrip"@,
        OutsideCommand::AssignMaterial { .. } => "Assign Material"@,
    }
}

fn outside_command_label(c: &OutsideCommand) -> (r: &'static str)
    ensures
        r@ == outside_command_name(*c),
{
    match c {
        OutsideCommand::SnapCameraToAxis => "Snap Camera To Axis",
        OutsideCommand::ResetCamera => "Reset Camera",
        OutsideCommand::SetCameraOrbit => "Set Camera Orbit",
        OutsideCommand::FrameNode => "Frame Node",
        OutsideCommand::SetFrameTime => "Set Frame Time",
        OutsideCommand::ClearFrameTime => "Clear Frame Time",
        OutsideCommand::SetMorphWeight => "Set Morph Weight",
        OutsideCommand::ResetPose => "Reset Pose",
        OutsideCommand::RegisterMaterial => "Register Material",
        OutsideCommand::ConvertToEditableMesh => "Convert To Editable Mesh",
        OutsideCommand::ImportModelFromUrl => "Import Model From Url",
        OutsideCommand::ImportModelFromFile => "Import Model From File",
        OutsideCommand::LoadProjectFromUrl => "Load Project From Url",
        OutsideCommand::LoadPlayerBundle => "Load Player Bundle",
        OutsideCommand::ReloadProjectInMemory => "Reload Project In Memory",
        OutsideCommand::VerifyRoundtrip => "Verify Roundtrip",
        OutsideCommand::AssignMaterial { .. } => "Assign Material",
    }
}

/// What a command is called.
pub open spec fn command_name(c: EditorCommand) -> Seq<char> {
    match c {
        EditorCommand::Node(c) => node_edit_name(c.edit),
        EditorCommand::Asset(c) => asset_command_name(c),
        EditorCommand::Mesh(c) => mesh_command_name(c),
        EditorCommand::NodeMesh(c) => node_mesh_command_name(c),
        EditorCommand::Library(c) => library_command_name(c),
        EditorCommand::World(c) => world_command_name(c),
        EditorCommand::Clip(c) => clip_command_name(c),
        EditorCommand::Track(c) => track_command_name(c),
        EditorCommand::Transport(c) => transport_command_name(c),
        EditorCommand::Mixer(c) => mixer_command_name(c),
        EditorCommand::View(c) => view_command_name(c),
        EditorCommand::Outside(c) => outside_command_name(c),
        EditorCommand::CopyMaterialInstance { .. } => "Copy Material Instance"@,
        EditorCommand::Duplicate { .. } => "Duplicate"@,
        EditorCommand::Reparent { .. } => "Reparent"@,
        EditorCommand::Insert { .. } => "Insert"@,
        EditorCommand::InsertTree { .. } => "Insert Tree"@,
        EditorCommand::Delete { .. } => "Delete"@,
        EditorCommand::ResetToBindPose { .. } => "Reset To Bind Pose"@,
        EditorCommand::PurgeUnusedAssets { .. } => "Purge Unused Assets"@,
        EditorCommand::DropSkinning { .. } => "Drop Skinning"@,
        EditorCommand::SeparateMesh(_) => "Separate Mesh"@,
        EditorCommand::SetSkinWeights { .. } => "Set Skin Weights"@,
        EditorCommand::ImportNaniteAsset { .. } => "Import Nanite Asset"@,
        EditorCommand::NewProject { .. } => "New Project"@,
        EditorCommand::Batch(_) => "Batch"@,
    }
}
/// The hash of a name, by its bytes.
pub open spec fn name_hash(bytes: Seq<u8>) -> u32
    decreases bytes.len(),
{
    if bytes.len() == 0 {
        0
    } else {
        ((name_hash(bytes.drop_last()) * 31 + bytes.last()) % 0x1_0000_0000) as u32
    }
}

fn hash_name(name: &str) -> (h: u32)
    ensures
        h == name_hash(vstd::utf8::encode_utf8(name@)),
{
    let bytes = name.as_bytes();
    let mut h: u32 = 0;
    let mut i: usize = 0;
    while i < bytes.len()
        invariant
            i <= bytes@.len(),
            h == name_hash(bytes@.take(i as int)),
        decreases bytes@.len() - i,
    {
        let ghost before = h;
        let b: u8 = bytes[i];
        h = h.wrapping_mul(31).wrapping_add(b as u32);
        proof {
            assert(bytes@.take(i + 1).drop_last() =~= bytes@.take(i as int));
            assert(bytes@.take(i + 1).last() == b);
            vstd::arithmetic::div_mod::lemma_add_mod_noop(
                before as int * 31,
                b as int,
                0x1_0000_0000,
            );
        }
        i += 1;
    }
    assert(bytes@.take(i as int) =~= bytes@);
    h
}

/// The identity of a part of an asset, for telling continuous edits apart.
pub open spec fn part(asset: AssetId, a: u64, b: u64) -> NodeId {
    NodeId(asset.0 ^ packed_mask(a, b))
}

/// What a continuous edit goes on editing: a number for the kind of edit, and
/// what it is about. Edits one after another with the same key are one step.
pub open spec fn edit_key(c: EditorCommand) -> Option<(u8, NodeId)> {
    match c {
        EditorCommand::Node(c) => match c.edit {
            NodeEdit::SetTransform(_) => Some((0, c.node)),
            NodeEdit::Rename(_) => Some((1, c.node)),
            NodeEdit::SetKind(_) => Some((2, c.node)),
            NodeEdit::SetBuiltinParam { .. } => Some((16, c.node)),
            NodeEdit::SetLightParam { .. } => Some((17, c.node)),
            _ => None,
        },
        EditorCommand::Clip(c) => match c {
            ClipCommand::SetClipDuration { id, .. } => Some((3, part(id, 0, 0))),
            ClipCommand::SetClipSpeed { id, .. } => Some((4, part(id, 0, 0))),
            _ => None,
        },
        EditorCommand::Track(c) => match c {
            TrackCommand::SetKeyframe { clip, track, index, .. } => Some(
                (5, part(clip, track as u64, index as u64)),
            ),
            _ => None,
        },
        EditorCommand::Mixer(c) => match c {
            MixerCommand::SetLayerWeight { layer, .. } => Some(
                (6, part(AssetId(0), layer as u64, 0)),
            ),
            MixerCommand::MoveStrip { layer, strip, .. } => Some(
                (7, part(AssetId(0), layer as u64, strip as u64)),
            ),
            MixerCommand::TrimStrip { layer, strip, .. } => Some(
                (7, part(AssetId(0), layer as u64, strip as u64)),
            ),
            _ => None,
        },
        EditorCommand::Library(c) => match c {
            LibraryCommand::SetCustomMaterialWgsl { id, .. } => Some((8, part(id, 0, 0))),
            LibraryCommand::SetCustomMaterialAlphaMode { id, .. } => Some((9, part(id, 0, 0))),
            LibraryCommand::SetCustomMaterialDoubleSided { id, .. } => Some((10, part(id, 0, 0))),
            LibraryCommand::SetCustomMaterialDebugColor { id, .. } => Some((11, part(id, 0, 0))),
            LibraryCommand::SetCustomMaterialLayout { id, .. } => Some((12, part(id, 0, 0))),
            LibraryCommand::SetCustomMaterialShaderIncludes { id, .. } => Some(
                (13, part(id, 0, 0)),
            ),
            LibraryCommand::SetCustomMaterialFragmentInputs { id, .. } => Some(
                (14, part(id, 0, 0)),
            ),
            LibraryCommand::SetMaterialUniform { id, name, .. } => {
                let h = name_hash(vstd::utf8::encode_utf8(name@));
                Some((15, part(id, h as u64, (h / 0x1_0000) as u64)))
            },
            _ => None,
        },
        EditorCommand::Mesh(c) => match c {
            MeshCommand::SetMeshModifiers { mesh, .. } => Some((18, part(mesh, 0, 0))),
            MeshCommand::SoftTransformVertices { mesh, .. } => Some((19, part(mesh, 0, 0))),
            MeshCommand::PaintVertexColors { mesh, .. } => Some((20, part(mesh, 0, 0))),
            MeshCommand::SetVertexNormals { mesh, .. } => Some((21, part(mesh, 0, 0))),
            _ => None,
        },
        _ => None,
    }
}

/// What geometry is taken to cost: the bytes of its vertices.
pub open spec fn data_cost(data: MeshData) -> u64 {
    if data.positions@.len() <= 0x1_0000_0000 {
        (data.positions@.len() * 0x20) as u64
    } else {
        u64::MAX
    }
}

/// What geometry that may be missing costs.
pub open spec fn kept_cost(data: Option<MeshData>) -> u64 {
    match data {
        Some(d) => data_cost(d),
        None => 0,
    }
}

/// A sum of costs, up to the largest there is.
pub open spec fn cost_sum(a: u64, b: u64) -> u64 {
    if a + b <= u64::MAX {
        (a + b) as u64
    } else {
        u64::MAX
    }
}

/// What one step of the undo log is taken to cost: a flat sum and the bytes of
/// the geometry that it holds.
pub open spec fn own_cost(c: EditorCommand) -> u64 {
    match c {
        EditorCommand::Mesh(MeshCommand::SetMeshData { data, .. }) => cost_sum(
            0x100,
            data_cost(data),
        ),
        EditorCommand::Mesh(MeshCommand::RestoreMesh { former, .. }) => cost_sum(
            cost_sum(0x100, kept_cost(former.data)),
            kept_cost(former.snapshot),
        ),
        _ => 0x100,
    }
}

/// What a row of steps costs.
pub open spec fn row_cost(row: Seq<EditorCommand>) -> u64
    decreases row.len(),
{
    if row.len() == 0 {
        0x100
    } else {
        cost_sum(row_cost(row.drop_last()), own_cost(row.last()))
    }
}

/// What a step costs.
pub open spec fn step_cost(c: EditorCommand) -> u64 {
    match c {
        EditorCommand::Batch(row) => row_cost(row@),
        _ => own_cost(c),
    }
}

fn cost_of_data(data: &MeshData) -> (n: u64)
    ensures
        n == data_cost(*data),
{
    let len: u64 = data.positions.len() as u64;
    if len <= 0x1_0000_0000 {
        len * 0x20
    } else {
        u64::MAX
    }
}

fn cost_of_kept(data: &Option<MeshData>) -> (n: u64)
    ensures
        n == kept_cost(*data),
{
    match data {
        Some(d) => cost_of_data(d),
        None => 0,
    }
}

fn add_costs(a: u64, b: u64) -> (n: u64)
    ensures
        n == cost_sum(a, b),
{
    if b <= u64::MAX - a {
        a + b
    } else {
        u64::MAX
    }
}

fn own_cost_of(c: &EditorCommand) -> (n: u64)
    ensures
        n == own_cost(*c),
{
    match c {
        EditorCommand::Mesh(MeshCommand::SetMeshData { data, .. }) => add_costs(
            0x100,
            cost_of_data(data),
        ),
        EditorCommand::Mesh(MeshCommand::RestoreMesh { former, .. }) => add_costs(
            add_costs(0x100, cost_of_kept(&former.data)),
            cost_of_kept(&former.snapshot),
        ),
        _ => 0x100,
    }
}

fn row_cost_of(row: &Vec<EditorCommand>) -> (n: u64)
    ensures
        n == row_cost(row@),
{
    let mut n: u64 = 0x100;
    let mut i: usize = 0;
    while i < row.len()
        invariant
            i <= row@.len(),
            n == row_cost(row@.take(i as int)),
        decreases row@.len() - i,
    {
        assert(row@.take(i + 1).drop_last() =~= row@.take(i as int));
        assert(row@.take(i + 1).last() == row@[i as int]);
        let own = own_cost_of(&row[i]);
        n = add_costs(n, own);
        i += 1;
    }
    assert(row@.take(i as int) =~= row@);
    n
}

fn node_key(node: NodeId, edit: &NodeEdit) -> (r: Option<(u8, NodeId)>)
    ensures
        r == edit_key(EditorCommand::Node(NodeCommand { node, edit: *edit })),
{
    match edit {
        NodeEdit::SetTransform(_) => Some((0, node)),
        NodeEdit::Rename(_) => Some((1, node)),
        NodeEdit::SetKind(_) => Some((2, node)),
        NodeEdit::SetBuiltinParam { .. } => Some((16, node)),
        NodeEdit::SetLightParam { .. } => Some((17, node)),
        _ => None,
    }
}

fn animation_key(c: &EditorCommand) -> (r: Option<(u8, NodeId)>)
    requires
        c is Clip || c is Track || c is Mixer,
    ensures
        r == edit_key(*c),
{
    match c {
        EditorCommand::Clip(ClipCommand::SetClipDuration { id, .. }) => Some((3, pack(*id, 0, 0))),
        EditorCommand::Clip(ClipCommand::SetClipSpeed { id, .. }) => Some((4, pack(*id, 0, 0))),
        EditorCommand::Track(TrackCommand::SetKeyframe { clip, track, index, .. }) => Some(
            (5, pack(*clip, *track as u64, *index as u64)),
        ),
        EditorCommand::Mixer(MixerCommand::SetLayerWeight { layer, .. }) => Some(
            (6, pack(AssetId(0), *layer as u64, 0)),
        ),
        EditorCommand::Mixer(MixerCommand::MoveStrip { layer, strip, .. })
        | EditorCommand::Mixer(MixerCommand::TrimStrip { layer, strip, .. }) => Some(
            (7, pack(AssetId(0), *layer as u64, *strip as u64)),
        ),
        _ => None,
    }
}

fn library_key(c: &LibraryCommand) -> (r: Option<(u8, NodeId)>)
    ensures
        r == edit_key(EditorCommand::Library(*c)),
{
    match c {
        LibraryCommand::SetCustomMaterialWgsl { id, .. } => Some((8, pack(*id, 0, 0))),
        LibraryCommand::SetCustomMaterialAlphaMode { id, .. } => Some((9, pack(*id, 0, 0))),
        LibraryCommand::SetCustomMaterialDoubleSided { id, .. } => Some((10, pack(*id, 0, 0))),
        LibraryCommand::SetCustomMaterialDebugColor { id, .. } => Some((11, pack(*id, 0, 0))),
        LibraryCommand::SetCustomMaterialLayout { id, .. } => Some((12, pack(*id, 0, 0))),
        LibraryCommand::SetCustomMaterialShaderIncludes { id, .. } => Some((13, pack(*id, 0, 0))),
        LibraryCommand::SetCustomMaterialFragmentInputs { id, .. } => Some((14, pack(*id, 0, 0))),
        LibraryCommand::SetMaterialUniform { id, name, .. } => {
            let h: u32 = hash_name(name);
            Some((15, pack(*id, h as u64, (h / 0x1_0000) as u64)))
        },
        _ => None,
    }
}

fn mesh_key(c: &MeshCommand) -> (r: Option<(u8, NodeId)>)
    ensures
        r == edit_key(EditorCommand::Mesh(*c)),
{
    match c {
        MeshCommand::SetMeshModifiers { mesh, .. } => Some((18, pack(*mesh, 0, 0))),
        MeshCommand::SoftTransformVertices { mesh, .. } => Some((19, pack(*mesh, 0, 0))),
        MeshCommand::PaintVertexColors { mesh, .. } => Some((20, pack(*mesh, 0, 0))),
        MeshCommand::SetVertexNormals { mesh, .. } => Some((21, pack(*mesh, 0, 0))),
        _ => None,
    }
}

/// The key of a continuous edit.
pub fn coalesce_key(c: &EditorCommand) -> (r: Option<(u8, NodeId)>)
    ensures
        r == edit_key(*c),
{
    match c {
        EditorCommand::Node(n) => node_key(n.node, &n.edit),
        EditorCommand::Clip(_) | EditorCommand::Track(_) | EditorCommand::Mixer(_) => animation_key(
            c,
        ),
        EditorCommand::Library(l) => library_key(l),
        EditorCommand::Mesh(m) => mesh_key(m),
        _ => None,
    }
}

/// Edits that share a key are of the same thing: both of the same property of one
/// node, both of the same kind and of the same mesh, or both of materials, of clips,
/// of tracks or of the mixer.
pub proof fn law_coalesced_edits_share_their_subject(a: EditorCommand, b: EditorCommand)
    requires
        edit_key(a) is Some,
        edit_key(a) == edit_key(b),
    ensures
        a is Node <==> b is Node,
        a is Node ==> a->Node_0.node == b->Node_0.node,
        a is Node ==> {
            let (x, y) = (a->Node_0.edit, b->Node_0.edit);
            &&& x is SetTransform <==> y is SetTransform
            &&& x is Rename <==> y is Rename
            &&& x is SetKind <==> y is SetKind
            &&& x is SetBuiltinParam <==> y is SetBuiltinParam
            &&& x is SetLightParam <==> y is SetLightParam
        },
        a is Mesh <==> b is Mesh,
        a is Mesh ==> match (a->Mesh_0, b->Mesh_0) {
            (
                MeshCommand::SetMeshModifiers { mesh: m, .. },
                MeshCommand::SetMeshModifiers { mesh: n, .. },
            ) => m == n,
            (
                MeshCommand::SoftTransformVertices { mesh: m, .. },
                MeshCommand::SoftTransformVertices { mesh: n, .. },
            ) => m == n,
            (
                MeshCommand::PaintVertexColors { mesh: m, .. },
                MeshCommand::PaintVertexColors { mesh: n, .. },
            ) => m == n,
            (
                MeshCommand::SetVertexNormals { mesh: m, .. },
                MeshCommand::SetVertexNormals { mesh: n, .. },
            ) => m == n,
            _ => false,
        },
        a is Library <==> b is Library,
        a is Clip <==> b is Clip,
        a is Track <==> b is Track,
        a is Mixer <==> b is Mixer,
{
    if a is Mesh {
        let m = subject(a->Mesh_0);
        let n = subject(b->Mesh_0);
        let x = m.0;
        let y = n.0;
        let k = packed_mask(0, 0);
        assert(x ^ k == y ^ k ==> x == y) by (bit_vector);
    }
}

spec fn subject(c: MeshCommand) -> AssetId {
    match c {
        MeshCommand::SetMeshModifiers { mesh, .. } => mesh,
        MeshCommand::SoftTransformVertices { mesh, .. } => mesh,
        MeshCommand::PaintVertexColors { mesh, .. } => mesh,
        MeshCommand::SetVertexNormals { mesh, .. } => mesh,
        _ => AssetId(0),
    }
}

impl EditorCommand {
    pub fn is_transient(&self) -> (r: bool)
        ensures
            r == transient(*self),
    {
        match self {
            EditorCommand::View(_)
            | EditorCommand::Transport(_)
            | EditorCommand::NewProject { .. }
            | EditorCommand::Clip(ClipCommand::SetCurrentClip { .. })
            | EditorCommand::Library(LibraryCommand::SetCurrentMaterial { .. }) => true,
            EditorCommand::Outside(c) => match c {
                OutsideCommand::RegisterMaterial
                | OutsideCommand::ConvertToEditableMesh
                | OutsideCommand::ImportModelFromUrl
                | OutsideCommand::ImportModelFromFile
                | OutsideCommand::AssignMaterial { .. } => false,
                _ => true,
            },
            _ => false,
        }
    }

    pub fn affects_animation(&self) -> (r: bool)
        ensures
            r == animates(*self),
    {
        match self {
            EditorCommand::Clip(ClipCommand::SetCurrentClip { .. }) => false,
            EditorCommand::Clip(_) | EditorCommand::Track(_) | EditorCommand::Mixer(_) => true,
            _ => false,
        }
    }

    pub fn affects_mesh(&self) -> (r: bool)
        ensures
            r == reshapes(*self),
    {
        match self {
            EditorCommand::Mesh(_)
            | EditorCommand::NodeMesh(_)
            | EditorCommand::SeparateMesh(_) => true,
            _ => false,
        }
    }

    /// What the step costs to keep.
    pub fn cost(&self) -> (n: u64)
        ensures
            n == step_cost(*self),
    {
        match self {
            EditorCommand::Batch(row) => row_cost_of(row),
            _ => own_cost_of(self),
        }
    }

    /// What the command is called.
    pub fn label(&self) -> (r: &'static str)
        ensures
            r@ == command_name(*self),
    {
        match self {
            EditorCommand::Node(c) => node_edit_label(&c.edit),
            EditorCommand::Asset(c) => asset_command_label(c),
            EditorCommand::Mesh(c) => mesh_command_label(c),
            EditorCommand::NodeMesh(c) => node_mesh_command_label(c),
            EditorCommand::Library(c) => library_command_label(c),
            EditorCommand::World(c) => world_command_label(c),
            EditorCommand::Clip(c) => clip_command_label(c),
            EditorCommand::Track(c) => track_command_label(c),
            EditorCommand::Transport(c) => transport_command_label(c),
            EditorCommand::Mixer(c) => mixer_command_label(c),
            EditorCommand::View(c) => view_command_label(c),
            EditorCommand::Outside(c) => outside_command_label(c),
            EditorCommand::CopyMaterialInstance { .. } => "Copy Material Instance",
            EditorCommand::Duplicate { .. } => "Duplicate",
            EditorCommand::Reparent { .. } => "Reparent",
            EditorCommand::Insert { .. } => "Insert",
            EditorCommand::InsertTree { .. } => "Insert Tree",
            EditorCommand::Delete { .. } => "Delete",
            EditorCommand::ResetToBindPose { .. } => "Reset To Bind Pose",
            EditorCommand::PurgeUnusedAssets { .. } => "Purge Unused Assets",
            EditorCommand::DropSkinning { .. } => "Drop Skinning",
            EditorCommand::SeparateMesh(_) => "Separate Mesh",
            EditorCommand::SetSkinWeights { .. } => "Set Skin Weights",
            EditorCommand::ImportNaniteAsset { .. } => "Import Nanite Asset",
            EditorCommand::NewProject { .. } => "New Project",
            EditorCommand::Batch(_) => "Batch",
        }
    }
}

} // verus!

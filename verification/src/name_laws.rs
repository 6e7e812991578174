//! What holds of the names that commands, settings and nodes bear, of what a step costs,
//! and of what is told of the shape of a mesh and of a file.
use crate::asset_edit::AssetCommand;
use crate::asset_template::AssetTemplateNode;
use crate::assets::{AssetEntry, AssetSource, CapturedSource, MeshBase, MeshData};
use crate::bounds::{along, Axis};
use crate::clips::CameraParamKind;
use crate::command::{command_name, edit_key, step_cost, EditorCommand, OutsideCommand};
use crate::custom_material::CustomMaterial;
use crate::errors::slot_text;
use crate::find::lemma_first;
use crate::ids::{AssetId, NodeId};
use crate::import_library::TextureRow;
use crate::import_scene::{
    geometry, is_geometry, is_part, mirrors, own_poses, part_poses, posed_mesh, row_poses,
    shape_of, BindPose, CaptureView, ImportContext, Shape,
};
use crate::library_edit::LibraryCommand;
use crate::mesh_edit::MeshCommand;
use crate::mesh_query::{reports_triangles, triangles_of, TriangleReport};
use crate::model_import::{file_id, is_entry_row};
use crate::node::{LightParamKind, NodeKind};
use crate::node_edit::{NodeCommand, NodeEdit};
use crate::palette::{builtin_slot_named, BuiltinParamKind, BuiltinTextureSlot};
use crate::readback::{builtin_name, camera_name, light_name};
use crate::scene_edit::NodeMeshCommand;
use crate::session::ViewCommand;
use crate::text::decimal;
use crate::timeline::{ClipCommand, MixerCommand, TrackCommand, TransportCommand};
use crate::tree::Tree;
use crate::world::WorldCommand;
use vstd::prelude::*;

verus! {

/// An edit of a node bears its own name in words.
pub proof fn law_node_edit_is_named(node: NodeId, c: NodeEdit)
    ensures
        c is SetKind ==> command_name(EditorCommand::Node(NodeCommand { node, edit: c })) == "Set Kind"@,
        c is PatchKind ==> command_name(EditorCommand::Node(NodeCommand { node, edit: c })) == "Patch Kind"@,
        c is SetParticleEmitter ==> command_name(EditorCommand::Node(NodeCommand { node, edit: c })) == "Set Particle Emitter"@,
        c is SetInstancerTransforms ==> command_name(EditorCommand::Node(NodeCommand { node, edit: c })) == "Set Instancer Transforms"@,
        c is SetTransform ==> command_name(EditorCommand::Node(NodeCommand { node, edit: c })) == "Set Transform"@,
        c is Rename ==> command_name(EditorCommand::Node(NodeCommand { node, edit: c })) == "Rename"@,
        c is SetVisible ==> command_name(EditorCommand::Node(NodeCommand { node, edit: c })) == "Set Visible"@,
        c is SetLocked ==> command_name(EditorCommand::Node(NodeCommand { node, edit: c })) == "Set Locked"@,
        c is SetPrefab ==> command_name(EditorCommand::Node(NodeCommand { node, edit: c })) == "Set Prefab"@,
        c is SelectMaterialVariant ==> command_name(EditorCommand::Node(NodeCommand { node, edit: c })) == "Select Material Variant"@,
        c is AddMaterialVariant ==> command_name(EditorCommand::Node(NodeCommand { node, edit: c })) == "Add Material Variant"@,
        c is RemoveMaterialVariant ==> command_name(EditorCommand::Node(NodeCommand { node, edit: c })) == "Remove Material Variant"@,
        c is RenameMaterialVariant ==> command_name(EditorCommand::Node(NodeCommand { node, edit: c })) == "Rename Material Variant"@,
        c is SetNodeMaterialUniform ==> command_name(EditorCommand::Node(NodeCommand { node, edit: c })) == "Set Node Material Uniform"@,
        c is SetBuiltinParam ==> command_name(EditorCommand::Node(NodeCommand { node, edit: c })) == "Set Builtin Param"@,
        c is SetBuiltinTexture ==> command_name(EditorCommand::Node(NodeCommand { node, edit: c })) == "Set Builtin Texture"@,
        c is SetTextureUseProfile ==> command_name(EditorCommand::Node(NodeCommand { node, edit: c })) == "Set Texture Use Profile"@,
        c is SetNodeTextureTransform ==> command_name(EditorCommand::Node(NodeCommand { node, edit: c })) == "Set Node Texture Transform"@,
        c is SetLightParam ==> command_name(EditorCommand::Node(NodeCommand { node, edit: c })) == "Set Light Param"@,
        c is SetMaterialTexture ==> command_name(EditorCommand::Node(NodeCommand { node, edit: c })) == "Set Material Texture"@,
        c is SetMaterialBuffer ==> command_name(EditorCommand::Node(NodeCommand { node, edit: c })) == "Set Material Buffer"@,
{
}

/// An edit of an asset bears its own name in words.
pub proof fn law_asset_edit_is_named(c: AssetCommand)
    ensures
        c is AddMaterialAsset ==> command_name(EditorCommand::Asset(c)) == "Add Material Asset"@,
        c is AddTextureAsset ==> command_name(EditorCommand::Asset(c)) == "Add Texture Asset"@,
        c is DeleteAsset ==> command_name(EditorCommand::Asset(c)) == "Delete Asset"@,
        c is RestoreAsset ==> command_name(EditorCommand::Asset(c)) == "Restore Asset"@,
        c is SetTextureExport ==> command_name(EditorCommand::Asset(c)) == "Set Texture Export"@,
        c is ImportTextureFromUrl ==> command_name(EditorCommand::Asset(c)) == "Import Texture From Url"@,
        c is ImportKtxEnvFromUrl ==> command_name(EditorCommand::Asset(c)) == "Import Ktx Env From Url"@,
{
}

/// An edit of a mesh bears its own name in words.
pub proof fn law_mesh_edit_is_named(c: MeshCommand)
    ensures
        c is SetMeshData ==> command_name(EditorCommand::Mesh(c)) == "Set Mesh Data"@,
        c is SetMeshModifiers ==> command_name(EditorCommand::Mesh(c)) == "Set Mesh Modifiers"@,
        c is AddModifier ==> command_name(EditorCommand::Mesh(c)) == "Add Modifier"@,
        c is SetModifier ==> command_name(EditorCommand::Mesh(c)) == "Set Modifier"@,
        c is RemoveModifier ==> command_name(EditorCommand::Mesh(c)) == "Remove Modifier"@,
        c is SetVertexPositions ==> command_name(EditorCommand::Mesh(c)) == "Set Vertex Positions"@,
        c is SoftTransformVertices ==> command_name(EditorCommand::Mesh(c)) == "Soft Transform Vertices"@,
        c is PaintVertexColors ==> command_name(EditorCommand::Mesh(c)) == "Paint Vertex Colors"@,
        c is SetVertexNormals ==> command_name(EditorCommand::Mesh(c)) == "Set Vertex Normals"@,
        c is SetVertexUvs ==> command_name(EditorCommand::Mesh(c)) == "Set Vertex Uvs"@,
        c is SetVertexOverrides ==> command_name(EditorCommand::Mesh(c)) == "Set Vertex Overrides"@,
        c is CollapseMeshStack ==> command_name(EditorCommand::Mesh(c)) == "Collapse Mesh Stack"@,
        c is BakeAll ==> command_name(EditorCommand::Mesh(c)) == "Bake All"@,
        c is RestoreMesh ==> command_name(EditorCommand::Mesh(c)) == "Restore Mesh"@,
{
}

/// An edit of the mesh of a node bears its own name in words.
pub proof fn law_node_mesh_edit_is_named(c: NodeMeshCommand)
    ensures
        c is PaintVerticesWhere ==> command_name(EditorCommand::NodeMesh(c)) == "Paint Vertices Where"@,
        c is TransformVerticesWhere ==> command_name(EditorCommand::NodeMesh(c)) == "Transform Vertices Where"@,
        c is DisplaceFromTexture ==> command_name(EditorCommand::NodeMesh(c)) == "Displace From Texture"@,
{
}

/// An edit of a material bears its own name in words.
pub proof fn law_material_edit_is_named(c: LibraryCommand)
    ensures
        c is AddCustomMaterial ==> command_name(EditorCommand::Library(c)) == "Add Custom Material"@,
        c is AddBuiltinMaterial ==> command_name(EditorCommand::Library(c)) == "Add Builtin Material"@,
        c is DeleteCustomMaterial ==> command_name(EditorCommand::Library(c)) == "Delete Custom Material"@,
        c is SetCurrentMaterial ==> command_name(EditorCommand::Library(c)) == "Set Current Material"@,
        c is UpdateBuiltinMaterial ==> command_name(EditorCommand::Library(c)) == "Update Builtin Material"@,
        c is SetBuiltinAlphaMode ==> command_name(EditorCommand::Library(c)) == "Set Builtin Alpha Mode"@,
        c is SetCustomMaterialWgsl ==> command_name(EditorCommand::Library(c)) == "Set Custom Material Wgsl"@,
        c is SetCustomMaterialAlphaWgsl ==> command_name(EditorCommand::Library(c)) == "Set Custom Material Alpha Wgsl"@,
        c is SetCustomMaterialVertexWgsl ==> command_name(EditorCommand::Library(c)) == "Set Custom Material Vertex Wgsl"@,
        c is SetCustomMaterialAlphaMode ==> command_name(EditorCommand::Library(c)) == "Set Custom Material Alpha Mode"@,
        c is SetCustomMaterialDoubleSided ==> command_name(EditorCommand::Library(c)) == "Set Custom Material Double Sided"@,
        c is SetCustomMaterialDebugColor ==> command_name(EditorCommand::Library(c)) == "Set Custom Material Debug Color"@,
        c is SetCustomMaterialLayout ==> command_name(EditorCommand::Library(c)) == "Set Custom Material Layout"@,
        c is SetCustomMaterialShaderIncludes ==> command_name(EditorCommand::Library(c)) == "Set Custom Material Shader Includes"@,
        c is SetCustomMaterialFragmentInputs ==> command_name(EditorCommand::Library(c)) == "Set Custom Material Fragment Inputs"@,
        c is SetMaterialUniform ==> command_name(EditorCommand::Library(c)) == "Set Material Uniform"@,
{
}

/// An edit of the world bears its own name in words.
pub proof fn law_world_edit_is_named(c: WorldCommand)
    ensures
        c is SetEnvironment ==> command_name(EditorCommand::World(c)) == "Set Environment"@,
        c is PatchEnvironment ==> command_name(EditorCommand::World(c)) == "Patch Environment"@,
        c is SetShadows ==> command_name(EditorCommand::World(c)) == "Set Shadows"@,
        c is SetShadowsSscs ==> command_name(EditorCommand::World(c)) == "Set Shadows Sscs"@,
        c is SetPostProcess ==> command_name(EditorCommand::World(c)) == "Set Post Process"@,
        c is SetBundleOptions ==> command_name(EditorCommand::World(c)) == "Set Bundle Options"@,
{
}

/// An edit of a clip bears its own name in words.
pub proof fn law_clip_edit_is_named(c: ClipCommand)
    ensures
        c is AddClip ==> command_name(EditorCommand::Clip(c)) == "Add Clip"@,
        c is DeleteClip ==> command_name(EditorCommand::Clip(c)) == "Delete Clip"@,
        c is DuplicateClip ==> command_name(EditorCommand::Clip(c)) == "Duplicate Clip"@,
        c is SetCurrentClip ==> command_name(EditorCommand::Clip(c)) == "Set Current Clip"@,
        c is RenameClip ==> command_name(EditorCommand::Clip(c)) == "Rename Clip"@,
        c is SetClipDuration ==> command_name(EditorCommand::Clip(c)) == "Set Clip Duration"@,
        c is SetClipLoop ==> command_name(EditorCommand::Clip(c)) == "Set Clip Loop"@,
        c is SetClipSpeed ==> command_name(EditorCommand::Clip(c)) == "Set Clip Speed"@,
        c is SetClipDirection ==> command_name(EditorCommand::Clip(c)) == "Set Clip Direction"@,
        c is SetClipColor ==> command_name(EditorCommand::Clip(c)) == "Set Clip Color"@,
{
}

/// An edit of a track bears its own name in words.
pub proof fn law_track_edit_is_named(c: TrackCommand)
    ensures
        c is AddTrack ==> command_name(EditorCommand::Track(c)) == "Add Track"@,
        c is AddSpinTrack ==> command_name(EditorCommand::Track(c)) == "Add Spin Track"@,
        c is DeleteTrack ==> command_name(EditorCommand::Track(c)) == "Delete Track"@,
        c is RestoreTrack ==> command_name(EditorCommand::Track(c)) == "Restore Track"@,
        c is SetTrackSampler ==> command_name(EditorCommand::Track(c)) == "Set Track Sampler"@,
        c is SetTrackMute ==> command_name(EditorCommand::Track(c)) == "Set Track Mute"@,
        c is SetTrackSolo ==> command_name(EditorCommand::Track(c)) == "Set Track Solo"@,
        c is SetTrackKeys ==> command_name(EditorCommand::Track(c)) == "Set Track Keys"@,
        c is AddKeyframe ==> command_name(EditorCommand::Track(c)) == "Add Keyframe"@,
        c is DeleteKeyframe ==> command_name(EditorCommand::Track(c)) == "Delete Keyframe"@,
        c is InsertKeyframe ==> command_name(EditorCommand::Track(c)) == "Insert Keyframe"@,
        c is SetKeyframe ==> command_name(EditorCommand::Track(c)) == "Set Keyframe"@,
{
}

/// A command to the transport bears its own name in words.
pub proof fn law_transport_is_named(c: TransportCommand)
    ensures
        c is SetPlayhead ==> command_name(EditorCommand::Transport(c)) == "Set Playhead"@,
        c is SetPlaying ==> command_name(EditorCommand::Transport(c)) == "Set Playing"@,
        c is StepPlayhead ==> command_name(EditorCommand::Transport(c)) == "Step Playhead"@,
        c is SetAnimFps ==> command_name(EditorCommand::Transport(c)) == "Set Anim Fps"@,
        c is SetSoloRoot ==> command_name(EditorCommand::Transport(c)) == "Set Solo Root"@,
        c is SetAnimSelection ==> command_name(EditorCommand::Transport(c)) == "Set Anim Selection"@,
        c is SetAnimView ==> command_name(EditorCommand::Transport(c)) == "Set Anim View"@,
{
}

/// An edit of the mixer bears its own name in words.
pub proof fn law_mixer_edit_is_named(c: MixerCommand)
    ensures
        c is AddLayer ==> command_name(EditorCommand::Mixer(c)) == "Add Layer"@,
        c is DeleteLayer ==> command_name(EditorCommand::Mixer(c)) == "Delete Layer"@,
        c is RestoreLayer ==> command_name(EditorCommand::Mixer(c)) == "Restore Layer"@,
        c is SetLayerMode ==> command_name(EditorCommand::Mixer(c)) == "Set Layer Mode"@,
        c is SetLayerWeight ==> command_name(EditorCommand::Mixer(c)) == "Set Layer Weight"@,
        c is SetLayerMask ==> command_name(EditorCommand::Mixer(c)) == "Set Layer Mask"@,
        c is AddStrip ==> command_name(EditorCommand::Mixer(c)) == "Add Strip"@,
        c is DeleteStrip ==> command_name(EditorCommand::Mixer(c)) == "Delete Strip"@,
        c is RestoreStrip ==> command_name(EditorCommand::Mixer(c)) == "Restore Strip"@,
        c is MoveStrip ==> command_name(EditorCommand::Mixer(c)) == "Move Strip"@,
        c is TrimStrip ==> command_name(EditorCommand::Mixer(c)) == "Trim Strip"@,
        c is SetStripRepeat ==> command_name(EditorCommand::Mixer(c)) == "Set Strip Repeat"@,
{
}

/// A command to the view bears its own name in words.
pub proof fn law_view_command_is_named(c: ViewCommand)
    ensures
        c is SwitchMode ==> command_name(EditorCommand::View(c)) == "Switch Mode"@,
        c is SetSelection ==> command_name(EditorCommand::View(c)) == "Set Selection"@,
        c is SetVertexSelection ==> command_name(EditorCommand::View(c)) == "Set Vertex Selection"@,
        c is SetAssetSelection ==> command_name(EditorCommand::View(c)) == "Set Asset Selection"@,
        c is SetViewOptions ==> command_name(EditorCommand::View(c)) == "Set View Options"@,
        c is SetCameraProjection ==> command_name(EditorCommand::View(c)) == "Set Camera Projection"@,
        c is SetCameraClip ==> command_name(EditorCommand::View(c)) == "Set Camera Clip"@,
{
}

/// A command that is carried out elsewhere bears its own name in words.
pub proof fn law_outside_command_is_named(c: OutsideCommand)
    ensures
        c is SnapCameraToAxis ==> command_name(EditorCommand::Outside(c)) == "Snap Camera To Axis"@,
        c is ResetCamera ==> command_name(EditorCommand::Outside(c)) == "Reset Camera"@,
        c is SetCameraOrbit ==> command_name(EditorCommand::Outside(c)) == "Set Camera Orbit"@,
        c is FrameNode ==> command_name(EditorCommand::Outside(c)) == "Frame Node"@,
        c is SetFrameTime ==> command_name(EditorCommand::Outside(c)) == "Set Frame Time"@,
        c is ClearFrameTime ==> command_name(EditorCommand::Outside(c)) == "Clear Frame Time"@,
        c is SetMorphWeight ==> command_name(EditorCommand::Outside(c)) == "Set Morph Weight"@,
        c is ResetPose ==> command_name(EditorCommand::Outside(c)) == "Reset Pose"@,
        c is RegisterMaterial ==> command_name(EditorCommand::Outside(c)) == "Register Material"@,
        c is ConvertToEditableMesh ==> command_name(EditorCommand::Outside(c)) == "Convert To Editable Mesh"@,
        c is ImportModelFromUrl ==> command_name(EditorCommand::Outside(c)) == "Import Model From Url"@,
        c is ImportModelFromFile ==> command_name(EditorCommand::Outside(c)) == "Import Model From File"@,
        c is LoadProjectFromUrl ==> command_name(EditorCommand::Outside(c)) == "Load Project From Url"@,
        c is LoadPlayerBundle ==> command_name(EditorCommand::Outside(c)) == "Load Player Bundle"@,
        c is ReloadProjectInMemory ==> command_name(EditorCommand::Outside(c)) == "Reload Project In Memory"@,
        c is VerifyRoundtrip ==> command_name(EditorCommand::Outside(c)) == "Verify Roundtrip"@,
        c is AssignMaterial ==> command_name(EditorCommand::Outside(c)) == "Assign Material"@,
{
}

/// An edit of the scene bears its own name in words.
pub proof fn law_scene_edit_is_named(c: EditorCommand)
    ensures
        c is CopyMaterialInstance ==> command_name(c) == "Copy Material Instance"@,
        c is Duplicate ==> command_name(c) == "Duplicate"@,
        c is Reparent ==> command_name(c) == "Reparent"@,
        c is Insert ==> command_name(c) == "Insert"@,
        c is InsertTree ==> command_name(c) == "Insert Tree"@,
        c is Delete ==> command_name(c) == "Delete"@,
        c is ResetToBindPose ==> command_name(c) == "Reset To Bind Pose"@,
        c is PurgeUnusedAssets ==> command_name(c) == "Purge Unused Assets"@,
        c is DropSkinning ==> command_name(c) == "Drop Skinning"@,
        c is SeparateMesh ==> command_name(c) == "Separate Mesh"@,
        c is SetSkinWeights ==> command_name(c) == "Set Skin Weights"@,
        c is ImportNaniteAsset ==> command_name(c) == "Import Nanite Asset"@,
        c is NewProject ==> command_name(c) == "New Project"@,
        c is Batch ==> command_name(c) == "Batch"@,
{
}

/// A setting is named as what it sets.
pub proof fn law_setting_is_named(b: BuiltinParamKind, l: LightParamKind, c: CameraParamKind)
    ensures
        b == BuiltinParamKind::BaseColor ==> builtin_name(b) == "BaseColor"@,
        b == BuiltinParamKind::Emissive ==> builtin_name(b) == "Emissive"@,
        b == BuiltinParamKind::Metallic ==> builtin_name(b) == "Metallic"@,
        b == BuiltinParamKind::Roughness ==> builtin_name(b) == "Roughness"@,
        b == BuiltinParamKind::NormalScale ==> builtin_name(b) == "NormalScale"@,
        b == BuiltinParamKind::OcclusionStrength ==> builtin_name(b) == "OcclusionStrength"@,
        b == BuiltinParamKind::SsrMask ==> builtin_name(b) == "SsrMask"@,
        b == BuiltinParamKind::EmissiveStrength ==> builtin_name(b) == "EmissiveStrength"@,
        b == BuiltinParamKind::AlphaCutoff ==> builtin_name(b) == "AlphaCutoff"@,
        b == BuiltinParamKind::ToonDiffuseBands ==> builtin_name(b) == "ToonDiffuseBands"@,
        b == BuiltinParamKind::ToonSpecularSteps ==> builtin_name(b) == "ToonSpecularSteps"@,
        b == BuiltinParamKind::ToonShininess ==> builtin_name(b) == "ToonShininess"@,
        b == BuiltinParamKind::ToonRimStrength ==> builtin_name(b) == "ToonRimStrength"@,
        b == BuiltinParamKind::ToonRimPower ==> builtin_name(b) == "ToonRimPower"@,
        b == BuiltinParamKind::FlipbookFps ==> builtin_name(b) == "FlipbookFps"@,
        b == BuiltinParamKind::FlipbookTimeOffset ==> builtin_name(b) == "FlipbookTimeOffset"@,
        l == LightParamKind::Color ==> light_name(l) == "Color"@,
        l == LightParamKind::Intensity ==> light_name(l) == "Intensity"@,
        l == LightParamKind::Range ==> light_name(l) == "Range"@,
        l == LightParamKind::InnerAngle ==> light_name(l) == "InnerAngle"@,
        l == LightParamKind::OuterAngle ==> light_name(l) == "OuterAngle"@,
        c == CameraParamKind::FovY ==> camera_name(c) == "FovY"@,
        c == CameraParamKind::Near ==> camera_name(c) == "Near"@,
        c == CameraParamKind::Far ==> camera_name(c) == "Far"@,
        c == CameraParamKind::Aperture ==> camera_name(c) == "Aperture"@,
        c == CameraParamKind::FocusDistance ==> camera_name(c) == "FocusDistance"@,
{
}

/// A texture slot is named as what it colors, and is found by its name.
pub proof fn law_texture_slot_is_named(s: BuiltinTextureSlot)
    ensures
        s == BuiltinTextureSlot::BaseColor ==> slot_text(s) == "BaseColor"@ && builtin_slot_named("base_color"@) == Some(s),
        s == BuiltinTextureSlot::MetallicRoughness ==> slot_text(s) == "MetallicRoughness"@ && builtin_slot_named("metallic_roughness"@) == Some(s),
        s == BuiltinTextureSlot::Normal ==> slot_text(s) == "Normal"@ && builtin_slot_named("normal"@) == Some(s),
        s == BuiltinTextureSlot::Occlusion ==> slot_text(s) == "Occlusion"@ && builtin_slot_named("occlusion"@) == Some(s),
        s == BuiltinTextureSlot::Emissive ==> slot_text(s) == "Emissive"@ && builtin_slot_named("emissive"@) == Some(s),
{
    reveal_strlit("base_color");
    reveal_strlit("metallic_roughness");
    reveal_strlit("normal");
    reveal_strlit("occlusion");
    reveal_strlit("emissive");
    assert("base_color"@.len() == 10);
    assert("metallic_roughness"@.len() == 18);
    assert("normal"@.len() == 6);
    assert("occlusion"@.len() == 9);
    assert("emissive"@.len() == 8);
}

/// A node is labelled by its kind.
pub proof fn law_node_is_labelled_by_its_kind(k: NodeKind)
    ensures
        k is Group ==> k.label_text() == "Group"@,
        k is Mesh ==> k.label_text() == "Mesh"@,
        k is SkinnedMesh ==> k.label_text() == "Skinned Mesh"@,
        k is ClusterMesh ==> k.label_text() == "Cluster Mesh"@,
        k is Light ==> k.label_text() == "Light"@,
        k is Camera ==> k.label_text() == "Camera"@,
        k is Collider ==> k.label_text() == "Collider"@,
        k is Instancer ==> k.label_text() == "Instancer"@,
        k is ParticleEmitter ==> k.label_text() == "Particle Emitter"@,
        k matches NodeKind::Other { label, .. } ==> k.label_text() == label@,
{
}

/// A step costs a fixed amount, and one that keeps geometry costs as much more as the
/// geometry has vertices.
pub proof fn law_step_costs_what_it_keeps(c: EditorCommand, a: nat, b: nat)
    requires
        a <= 0x1_0000_0000,
        b <= 0x1_0000_0000,
    ensures
        !(c is Mesh) && !(c is Batch) ==> step_cost(c) == 256,
        c matches EditorCommand::Mesh(MeshCommand::SetMeshData { data, .. }) ==> (
        data.positions@.len() == a ==> step_cost(c) == 256 + 32 * a),
        c matches EditorCommand::Mesh(MeshCommand::RestoreMesh { former, .. }) ==> {
            &&& former.data is None && former.snapshot is None ==> step_cost(c) == 256
            &&& former.snapshot is None ==> (former.data matches Some(d) ==> (d.positions@.len()
                == a ==> step_cost(c) == 256 + 32 * a))
            &&& former.data matches Some(d) ==> (former.snapshot matches Some(e) ==> (
            d.positions@.len() == a && e.positions@.len() == b ==> step_cost(c) == 256 + 32 * (a
                + b)))
        },
{
}

/// Whether two edits can be parts of one drag: the same setting of the same thing.
pub open spec fn one_drag(a: EditorCommand, b: EditorCommand) -> bool {
    match (a, b) {
        (EditorCommand::Node(x), EditorCommand::Node(y)) => x.node == y.node && {
            ||| x.edit is SetTransform && y.edit is SetTransform
            ||| x.edit is Rename && y.edit is Rename
            ||| x.edit is SetKind && y.edit is SetKind
            ||| x.edit is SetBuiltinParam && y.edit is SetBuiltinParam
            ||| x.edit is SetLightParam && y.edit is SetLightParam
        },
        (EditorCommand::Clip(x), EditorCommand::Clip(y)) => match (x, y) {
            (
                ClipCommand::SetClipDuration { id: i, .. },
                ClipCommand::SetClipDuration { id: j, .. },
            ) => i == j,
            (ClipCommand::SetClipSpeed { id: i, .. }, ClipCommand::SetClipSpeed { id: j, .. }) => i
                == j,
            _ => false,
        },
        (EditorCommand::Track(x), EditorCommand::Track(y)) => match (x, y) {
            (
                TrackCommand::SetKeyframe { clip: c, track: t, index: i, .. },
                TrackCommand::SetKeyframe { clip: d, track: u, index: j, .. },
            ) => c == d && t == u && i == j,
            _ => false,
        },
        (EditorCommand::Mixer(x), EditorCommand::Mixer(y)) => match (x, y) {
            (
                MixerCommand::SetLayerWeight { layer: i, .. },
                MixerCommand::SetLayerWeight { layer: j, .. },
            ) => i == j,
            (
                MixerCommand::MoveStrip { layer: i, strip: s, .. },
                MixerCommand::MoveStrip { layer: j, strip: t, .. },
            ) => i == j && s == t,
            (
                MixerCommand::TrimStrip { layer: i, strip: s, .. },
                MixerCommand::TrimStrip { layer: j, strip: t, .. },
            ) => i == j && s == t,
            (
                MixerCommand::MoveStrip { layer: i, strip: s, .. },
                MixerCommand::TrimStrip { layer: j, strip: t, .. },
            ) => i == j && s == t,
            _ => false,
        },
        (EditorCommand::Library(x), EditorCommand::Library(y)) => match (x, y) {
            (
                LibraryCommand::SetCustomMaterialWgsl { id: i, .. },
                LibraryCommand::SetCustomMaterialWgsl { id: j, .. },
            ) => i == j,
            (
                LibraryCommand::SetCustomMaterialAlphaMode { id: i, .. },
                LibraryCommand::SetCustomMaterialAlphaMode { id: j, .. },
            ) => i == j,
            (
                LibraryCommand::SetCustomMaterialDoubleSided { id: i, .. },
                LibraryCommand::SetCustomMaterialDoubleSided { id: j, .. },
            ) => i == j,
            (
                LibraryCommand::SetCustomMaterialDebugColor { id: i, .. },
                LibraryCommand::SetCustomMaterialDebugColor { id: j, .. },
            ) => i == j,
            (
                LibraryCommand::SetCustomMaterialLayout { id: i, .. },
                LibraryCommand::SetCustomMaterialLayout { id: j, .. },
            ) => i == j,
            (
                LibraryCommand::SetCustomMaterialShaderIncludes { id: i, .. },
                LibraryCommand::SetCustomMaterialShaderIncludes { id: j, .. },
            ) => i == j,
            (
                LibraryCommand::SetCustomMaterialFragmentInputs { id: i, .. },
                LibraryCommand::SetCustomMaterialFragmentInputs { id: j, .. },
            ) => i == j,
            (
                LibraryCommand::SetMaterialUniform { id: i, name: n, .. },
                LibraryCommand::SetMaterialUniform { id: j, name: m, .. },
            ) => i == j && n@ == m@,
            _ => false,
        },
        (EditorCommand::Mesh(x), EditorCommand::Mesh(y)) => match (x, y) {
            (MeshCommand::SetMeshModifiers { mesh: i, .. }, MeshCommand::SetMeshModifiers { mesh: j, .. }) => i
                == j,
            (MeshCommand::SoftTransformVertices { mesh: i, .. }, MeshCommand::SoftTransformVertices { mesh: j, .. }) => i
                == j,
            (MeshCommand::PaintVertexColors { mesh: i, .. }, MeshCommand::PaintVertexColors { mesh: j, .. }) => i
                == j,
            (MeshCommand::SetVertexNormals { mesh: i, .. }, MeshCommand::SetVertexNormals { mesh: j, .. }) => i
                == j,
            _ => false,
        },
        _ => false,
    }
}

/// Two edits that can be parts of one drag share a key, so that they are one step; an
/// edit that is no such part of itself has no key.
pub proof fn law_one_drag_has_one_key(a: EditorCommand, b: EditorCommand)
    ensures
        one_drag(a, b) ==> edit_key(a) is Some && edit_key(a) == edit_key(b),
        edit_key(a) is Some <==> one_drag(a, a),
{
}

/// Edits of two settings of clips, of materials or of layers never share a key.
pub proof fn law_settings_have_their_own_keys(a: EditorCommand, b: EditorCommand)
    requires
        edit_key(a) is Some,
        edit_key(a) == edit_key(b),
    ensures
        a is Clip <==> b is Clip,
        a is Track <==> b is Track,
        a is Mixer <==> b is Mixer,
        a is Library <==> b is Library,
        a is Clip ==> (a->Clip_0 is SetClipDuration <==> b->Clip_0 is SetClipDuration),
        a is Mixer ==> (a->Mixer_0 is SetLayerWeight <==> b->Mixer_0 is SetLayerWeight),
        a is Library ==> {
            let (x, y) = (a->Library_0, b->Library_0);
            &&& x is SetCustomMaterialWgsl <==> y is SetCustomMaterialWgsl
            &&& x is SetCustomMaterialAlphaMode <==> y is SetCustomMaterialAlphaMode
            &&& x is SetCustomMaterialDoubleSided <==> y is SetCustomMaterialDoubleSided
            &&& x is SetCustomMaterialDebugColor <==> y is SetCustomMaterialDebugColor
            &&& x is SetCustomMaterialLayout <==> y is SetCustomMaterialLayout
            &&& x is SetCustomMaterialShaderIncludes <==> y is SetCustomMaterialShaderIncludes
            &&& x is SetCustomMaterialFragmentInputs <==> y is SetCustomMaterialFragmentInputs
            &&& x is SetMaterialUniform <==> y is SetMaterialUniform
        },
{
}

/// What is told of the triangles of a mesh is told of all of them: how many vertices and
/// triangles it has, and a box that no vertex lies outside of.
pub proof fn law_triangles_are_told_with_their_box(
    d: MeshData,
    offset: Option<u32>,
    limit: Option<u32>,
    r: TriangleReport,
    i: int,
)
    requires
        reports_triangles(d, offset, limit, r),
    ensures
        r.vertex_count == d.positions@.len(),
        r.triangle_count == d.indices@.len() / 3,
        r.bbox is Some <==> d.positions@.len() > 0,
        offset is None && limit is None ==> r.triangles@ == triangles_of(d.indices@) && r.offset
            == 0,
        0 <= i < d.positions@.len() ==> {
            let p = d.positions@[i];
            let b = r.bbox->0;
            &&& !p.x.nan() ==> b.min.x.value_rank() <= p.x.value_rank() <= b.max.x.value_rank()
            &&& !p.y.nan() ==> b.min.y.value_rank() <= p.y.value_rank() <= b.max.y.value_rank()
            &&& !p.z.nan() ==> b.min.z.value_rank() <= p.z.value_rank() <= b.max.z.value_rank()
        },
{
    assert(crate::paging::paged(triangles_of(d.indices@), None, None) =~= triangles_of(d.indices@));
    if 0 <= i < d.positions@.len() {
        let p = d.positions@;
        assert(along(p, Axis::X)[i] == p[i].x);
        assert(along(p, Axis::Y)[i] == p[i].y);
        assert(along(p, Axis::Z)[i] == p[i].z);
    }
}

/// A node of a file is named by its label; the first one that has none is named after
/// the file, and any other by its index. A part of it is named after its material, or
/// else by its number.
pub proof fn law_file_node_is_named(
    t: AssetTemplateNode,
    ctx: ImportContext,
    ms: Seq<CustomMaterial>,
    base: u128,
    fallback: Option<Seq<char>>,
    n: Tree,
    i: int,
)
    requires
        mirrors(t, ctx, ms, base, fallback, n),
    ensures
        t.label matches Some(l) ==> n.data.name@ == l@,
        t.label is None ==> (fallback matches Some(f) ==> n.data.name@ == f),
        t.label is None && fallback is None ==> n.data.name@ == "Node "@ + decimal(
            t.gltf_node_index as nat,
        ),
        shape_of(t) is Split && 0 <= i < t.primitives@.len() && t.primitives@[i].material_index
            is None && ctx.default_mat is None ==> n.children[i].data.name@ == n.data.name@
            + " \u{b7} part "@ + decimal(i as nat),
        shape_of(t) == (Shape::Whole { skinned: true }) ==> (n.data.kind matches
            NodeKind::SkinnedMesh { skin, .. } && skin.rig_node_index == if ctx.rig@.contains_key(
            t.gltf_node_index as u128,
        ) {
            ctx.rig@[t.gltf_node_index as u128]
        } else {
            t.gltf_node_index
        }),
{
    if shape_of(t) is Split && 0 <= i < t.primitives@.len() {
        assert(is_part(n.children[i], t, ctx, ms, base, n.data.name@, i as nat));
    }
}

proof fn lemma_posed(ctx: ImportContext, index: u32, primitive: Option<u32>)
    ensures
        forall|i: int|
            0 <= i < posed_mesh(ctx, index, primitive).len() ==> has_mesh(
                ctx,
                #[trigger] posed_mesh(ctx, index, primitive)[i],
            ),
{
    lemma_first(ctx.meshes@, is_geometry(index, primitive));
    if geometry(ctx.meshes@, index, primitive) is Some {
        let k = crate::find::first(ctx.meshes@, is_geometry(index, primitive));
        let m = ctx.meshes@[k];
        assert(is_geometry(index, primitive)(m));
        assert(has_mesh(ctx, posed_mesh(ctx, index, primitive)[0]));
    }
}

proof fn lemma_part_poses(t: AssetTemplateNode, ctx: ImportContext, k: nat)
    ensures
        forall|i: int|
            0 <= i < part_poses(t, ctx, k).len() ==> has_mesh(
                ctx,
                #[trigger] part_poses(t, ctx, k)[i],
            ),
    decreases k,
{
    if k > 0 {
        lemma_part_poses(t, ctx, (k - 1) as nat);
        lemma_posed(ctx, t.gltf_node_index, Some((k - 1) as u32));
        let a = part_poses(t, ctx, (k - 1) as nat);
        let b = posed_mesh(ctx, t.gltf_node_index, Some((k - 1) as u32));
        assert(part_poses(t, ctx, k) == a + b);
        assert forall|i: int| 0 <= i < part_poses(t, ctx, k).len() implies has_mesh(
            ctx,
            #[trigger] part_poses(t, ctx, k)[i],
        ) by {
            if i < a.len() {
                assert(part_poses(t, ctx, k)[i] == a[i]);
            } else {
                assert(part_poses(t, ctx, k)[i] == b[i - a.len()]);
            }
        }
    }
}

/// Whether a file has the mesh of a pose, for the node and the part that it is the pose
/// of.
pub open spec fn has_mesh(ctx: ImportContext, p: BindPose) -> bool {
    exists|k: int|
        0 <= k < ctx.meshes@.len() && (#[trigger] ctx.meshes@[k]).node_index == p.node_index
            && ctx.meshes@[k].primitive == p.primitive && ctx.meshes@[k].mesh == p.mesh
}

/// Every bind pose that a file brings is the mesh that the file has for that node and
/// that part of it.
pub proof fn law_bind_poses_are_those_of_the_file(
    nodes: Seq<AssetTemplateNode>,
    ctx: ImportContext,
    i: int,
)
    requires
        0 <= i < row_poses(nodes, ctx).len(),
    ensures
        has_mesh(ctx, row_poses(nodes, ctx)[i]),
    decreases nodes,
{
    if nodes.len() > 0 {
        let t = nodes[0];
        let a = own_poses(t, ctx);
        let b = row_poses(t.children@, ctx);
        let c = row_poses(nodes.drop_first(), ctx);
        lemma_posed(ctx, t.gltf_node_index, None);
        lemma_part_poses(t, ctx, t.primitives@.len());
        if i < a.len() {
            assert(row_poses(nodes, ctx)[i] == a[i]);
        } else if i < a.len() + b.len() {
            law_bind_poses_are_those_of_the_file(t.children@, ctx, i - a.len());
        } else {
            law_bind_poses_are_those_of_the_file(nodes.drop_first(), ctx, i - a.len() - b.len());
        }
    }
}

/// The assets that an import adds are its textures, the file, and a mesh for each
/// geometry, which is known to come from the file.
pub proof fn law_imported_meshes_come_from_the_file(
    rows: Seq<(u128, AssetEntry)>,
    texs: Seq<TextureRow>,
    name: Seq<char>,
    mats: nat,
    caps: Seq<CaptureView>,
    base: u128,
    j: int,
)
    requires
        is_entry_row(rows, texs, name, mats, caps, base),
        0 <= j < caps.len(),
    ensures
        rows.len() == texs.len() + 1 + caps.len(),
        rows[texs.len() as int].0 == file_id(base).0,
        rows[texs.len() as int].1.source matches AssetSource::Filename(s) && s@ == name,
        rows[texs.len() + 1 + j].0 == caps[j].node.0,
        rows[texs.len() + 1 + j].1.source matches AssetSource::Mesh(d) && d.source == Some(
            CapturedSource::Imported { source: file_id(base) },
        ) && d.label@ == caps[j].label && d.stack.base == MeshBase::Captured(
            AssetId(caps[j].node.0),
        ) && d.stack.modifiers@.len() == 0,
{
    let k = texs.len() + 1 + j;
    assert(rows[k].0 == caps[k - texs.len() - 1].node.0);
}

} // verus!

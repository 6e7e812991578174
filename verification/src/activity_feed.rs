//! The feed that tells what an agent does to the project: a short phrase for each
//! command that it sends, and the panel that the change is seen in. The feed is
//! told from the commands alone and changes nothing.
use crate::asset_edit::AssetCommand;
use crate::assets::{Modifier, ModifierKind, PrimitiveShape};
use crate::command::{command_name, EditorCommand, OutsideCommand};
use crate::library_edit::LibraryCommand;
use crate::mesh_edit::MeshCommand;
use crate::node_edit::NodeEdit;
use crate::scene_edit::{InsertKind, InsertSpec};
use crate::session::ViewCommand;
use crate::text::{decimal, decimal_text, joined, joined3, lowercase, lowercased};
use crate::timeline::{ClipCommand, MixerCommand, TrackCommand, TransportCommand};
use crate::world::WorldCommand;
use vstd::prelude::*;

verus! {

/// How many entries the feed holds; older ones fall off the front.
pub const MAX_ENTRIES: usize = 50;

/// How long a panel stays lit after a command, in milliseconds.
pub const HIGHLIGHT_MS: u32 = 1000;

/// The panel that a command is seen in.
#[derive(Clone, Copy, PartialEq, Eq, Structural, Debug)]
pub enum FocusTarget {
    /// The tree of nodes.
    Outliner,
    Viewport,
    /// The panel of settings.
    Inspector,
    /// No panel in particular.
    Nowhere,
}

/// One entry of the feed.
pub struct FeedEntry {
    pub phrase: String,
}

/// A phrase as a value.
pub open spec fn told(r: Option<(FocusTarget, String)>) -> Option<(FocusTarget, Seq<char>)> {
    match r {
        Some((f, s)) => Some((f, s@)),
        None => None,
    }
}

/// A text in curly quotes.
pub open spec fn quoted(s: Seq<char>) -> Seq<char> {
    "\u{201c}"@ + s + "\u{201d}"@
}

fn quote(s: &str) -> (r: String)
    ensures
        r@ == quoted(s@),
{
    joined3("\u{201c}", s, "\u{201d}")
}

/// A number of vertices, in words.
pub open spec fn vert_text(n: nat) -> Seq<char> {
    if n == 1 {
        "1 vert"@
    } else {
        decimal(n) + " verts"@
    }
}

fn verts(n: usize) -> (r: String)
    ensures
        r@ == vert_text(n as nat),
{
    if n == 1 {
        "1 vert".to_owned()
    } else {
        joined(&decimal_text(n as u64), " verts")
    }
}

/// A word for a shape.
pub open spec fn primitive_word(shape: PrimitiveShape) -> Seq<char> {
    match shape {
        PrimitiveShape::Plane { .. } => "plane"@,
        PrimitiveShape::Box { .. } => "box"@,
        PrimitiveShape::Sphere { .. } => "sphere"@,
        PrimitiveShape::Cylinder { .. } => "cylinder"@,
        PrimitiveShape::Cone { .. } => "cone"@,
        PrimitiveShape::Torus { .. } => "torus"@,
    }
}

fn primitive_label(shape: &PrimitiveShape) -> (r: &'static str)
    ensures
        r@ == primitive_word(*shape),
{
    match shape {
        PrimitiveShape::Plane { .. } => "plane",
        PrimitiveShape::Box { .. } => "box",
        PrimitiveShape::Sphere { .. } => "sphere",
        PrimitiveShape::Cylinder { .. } => "cylinder",
        PrimitiveShape::Cone { .. } => "cone",
        PrimitiveShape::Torus { .. } => "torus",
    }
}

/// A word for what is added.
pub open spec fn insert_word(spec: InsertSpec) -> Seq<char> {
    match spec {
        InsertSpec::Empty => "group"@,
        InsertSpec::Instancer => "instances"@,
        InsertSpec::Primitive(shape) => primitive_word(shape),
        InsertSpec::Sweep(_) => "sweep"@,
        InsertSpec::Prepared { what, .. } => match what {
            InsertKind::DirectionalLight => "directional light"@,
            InsertKind::PointLight => "point light"@,
            InsertKind::SpotLight => "spot light"@,
            InsertKind::Camera => "camera"@,
            InsertKind::CollisionBox => "box collider"@,
            InsertKind::CollisionSphere => "sphere collider"@,
            InsertKind::CollisionCapsule => "capsule collider"@,
            InsertKind::CollisionCylinder => "cylinder collider"@,
            InsertKind::CollisionCone => "cone collider"@,
            InsertKind::CollisionEllipsoid => "ellipsoid collider"@,
            InsertKind::Curve => "curve"@,
            InsertKind::Line => "line"@,
            InsertKind::Sprite => "sprite"@,
            InsertKind::Particle => "particle emitter"@,
            InsertKind::Decal => "decal"@,
            InsertKind::Mesh => "mesh"@,
        },
    }
}

fn insert_label(spec: &InsertSpec) -> (r: &'static str)
    ensures
        r@ == insert_word(*spec),
{
    match spec {
        InsertSpec::Empty => "group",
        InsertSpec::Instancer => "instances",
        InsertSpec::Primitive(shape) => primitive_label(shape),
        InsertSpec::Sweep(_) => "sweep",
        InsertSpec::Prepared { what, .. } => match what {
            InsertKind::DirectionalLight => "directional light",
            InsertKind::PointLight => "point light",
            InsertKind::SpotLight => "spot light",
            InsertKind::Camera => "camera",
            InsertKind::CollisionBox => "box collider",
            InsertKind::CollisionSphere => "sphere collider",
            InsertKind::CollisionCapsule => "capsule collider",
            InsertKind::CollisionCylinder => "cylinder collider",
            InsertKind::CollisionCone => "cone collider",
            InsertKind::CollisionEllipsoid => "ellipsoid collider",
            InsertKind::Curve => "curve",
            InsertKind::Line => "line",
            InsertKind::Sprite => "sprite",
            InsertKind::Particle => "particle emitter",
            InsertKind::Decal => "decal",
            InsertKind::Mesh => "mesh",
        },
    }
}

/// A word for a modifier.
pub open spec fn modifier_word(kind: ModifierKind) -> Seq<char> {
    match kind {
        ModifierKind::Taper => "taper"@,
        ModifierKind::Twist => "twist"@,
        ModifierKind::Bend => "bend"@,
        ModifierKind::Inflate => "inflate"@,
        ModifierKind::Spherify => "spherify"@,
        ModifierKind::Roughen => "roughen"@,
        ModifierKind::Subdivide => "subdivide"@,
        ModifierKind::Smooth => "smooth"@,
        ModifierKind::Mirror => "mirror"@,
        ModifierKind::Array => "array"@,
        ModifierKind::Displace => "displace"@,
    }
}

fn modifier_label(m: &Modifier) -> (r: &'static str)
    ensures
        r@ == modifier_word(m.kind),
{
    match m.kind {
        ModifierKind::Taper => "taper",
        ModifierKind::Twist => "twist",
        ModifierKind::Bend => "bend",
        ModifierKind::Inflate => "inflate",
        ModifierKind::Spherify => "spherify",
        ModifierKind::Roughen => "roughen",
        ModifierKind::Subdivide => "subdivide",
        ModifierKind::Smooth => "smooth",
        ModifierKind::Mirror => "mirror",
        ModifierKind::Array => "array",
        ModifierKind::Displace => "displace",
    }
}

/// What is told of a modifier that is added.
pub open spec fn added_modifier(m: Modifier) -> Seq<char> {
    "added a "@ + modifier_word(m.kind) + " modifier"@
}

fn modifier_phrase(m: &Modifier) -> (r: String)
    ensures
        r@ == added_modifier(*m),
{
    joined3("added a ", modifier_label(m), " modifier")
}

/// What is told of the edits of nodes, where there is a phrase for it.
pub open spec fn node_edit_phrase(c: NodeEdit) -> Option<(FocusTarget, Seq<char>)> {
    match c {
        NodeEdit::Rename(name) => Some((FocusTarget::Outliner, "renamed a node to "@ + quoted(name@))),
        NodeEdit::SetVisible(on) => Some((FocusTarget::Outliner, if on { "showed a node"@ } else { "hid a node"@ })),
        NodeEdit::SetLocked(on) => Some((FocusTarget::Outliner, if on { "locked a node"@ } else { "unlocked a node"@ })),
        NodeEdit::SetPrefab(_) => Some((FocusTarget::Outliner, "set a prefab root"@)),
        NodeEdit::SetTransform(_) => Some((FocusTarget::Viewport, "moved a node"@)),
        NodeEdit::SetKind(_) => Some((FocusTarget::Inspector, "edited a node"@)),
        NodeEdit::SetBuiltinParam { .. } => Some((FocusTarget::Inspector, "tuned a material"@)),
        NodeEdit::SetLightParam { .. } => Some((FocusTarget::Inspector, "adjusted a light"@)),
        NodeEdit::SetBuiltinTexture { .. } => Some((FocusTarget::Inspector, "bound a texture"@)),
        NodeEdit::SetMaterialTexture { .. } => Some((FocusTarget::Inspector, "bound a texture"@)),
        _ => None,
    }
}

fn tell_node_edit(c: &NodeEdit) -> (r: Option<(FocusTarget, String)>)
    ensures
        told(r) == node_edit_phrase(*c),
{
    match c {
        NodeEdit::Rename(name) => Some((FocusTarget::Outliner, joined("renamed a node to ", &quote(name)))),
        NodeEdit::SetVisible(on) => Some((FocusTarget::Outliner, (if *on { "showed a node" } else { "hid a node" }).to_owned())),
        NodeEdit::SetLocked(on) => Some((FocusTarget::Outliner, (if *on { "locked a node" } else { "unlocked a node" }).to_owned())),
        NodeEdit::SetPrefab(_) => Some((FocusTarget::Outliner, "set a prefab root".to_owned())),
        NodeEdit::SetTransform(_) => Some((FocusTarget::Viewport, "moved a node".to_owned())),
        NodeEdit::SetKind(_) => Some((FocusTarget::Inspector, "edited a node".to_owned())),
        NodeEdit::SetBuiltinParam { .. } => Some((FocusTarget::Inspector, "tuned a material".to_owned())),
        NodeEdit::SetLightParam { .. } => Some((FocusTarget::Inspector, "adjusted a light".to_owned())),
        NodeEdit::SetBuiltinTexture { .. } => Some((FocusTarget::Inspector, "bound a texture".to_owned())),
        NodeEdit::SetMaterialTexture { .. } => Some((FocusTarget::Inspector, "bound a texture".to_owned())),
        _ => None,
    }
}

/// What is told of the edits of meshes, where there is a phrase for it.
pub open spec fn mesh_edit_phrase(c: MeshCommand) -> Option<(FocusTarget, Seq<char>)> {
    match c {
        MeshCommand::SetMeshData { .. } => Some((FocusTarget::Viewport, "edited a mesh"@)),
        MeshCommand::SetVertexPositions { pick, .. } => Some((FocusTarget::Viewport, "moved "@ + vert_text(pick.indices@.len()))),
        MeshCommand::SoftTransformVertices { pick, .. } => Some((FocusTarget::Viewport, "soft-moved "@ + vert_text(pick.indices@.len()))),
        MeshCommand::PaintVertexColors { pick, .. } => Some((FocusTarget::Viewport, "painted "@ + vert_text(pick.indices@.len()))),
        MeshCommand::SetVertexNormals { pick, .. } => Some((FocusTarget::Viewport, "set normals on "@ + vert_text(pick.indices@.len()))),
        MeshCommand::SetVertexOverrides { .. } => Some((FocusTarget::Viewport, "edited vertex data"@)),
        MeshCommand::CollapseMeshStack { .. } => Some((FocusTarget::Viewport, "baked a mesh"@)),
        MeshCommand::BakeAll => Some((FocusTarget::Viewport, "baked all meshes"@)),
        MeshCommand::AddModifier { modifier, .. } => Some((FocusTarget::Inspector, added_modifier(modifier))),
        MeshCommand::SetModifier { .. } => Some((FocusTarget::Inspector, "tweaked a modifier"@)),
        MeshCommand::RemoveModifier { .. } => Some((FocusTarget::Inspector, "removed a modifier"@)),
        MeshCommand::SetMeshModifiers { stack, .. } => Some((FocusTarget::Inspector, if stack.modifiers@.len() > 0 { added_modifier(stack.modifiers@.last()) } else { "set modifiers"@ })),
        _ => None,
    }
}

fn tell_mesh_edit(c: &MeshCommand) -> (r: Option<(FocusTarget, String)>)
    ensures
        told(r) == mesh_edit_phrase(*c),
{
    match c {
        MeshCommand::SetMeshData { .. } => Some((FocusTarget::Viewport, "edited a mesh".to_owned())),
        MeshCommand::SetVertexPositions { pick, .. } => Some((FocusTarget::Viewport, joined("moved ", &verts(pick.indices.len())))),
        MeshCommand::SoftTransformVertices { pick, .. } => Some((FocusTarget::Viewport, joined("soft-moved ", &verts(pick.indices.len())))),
        MeshCommand::PaintVertexColors { pick, .. } => Some((FocusTarget::Viewport, joined("painted ", &verts(pick.indices.len())))),
        MeshCommand::SetVertexNormals { pick, .. } => Some((FocusTarget::Viewport, joined("set normals on ", &verts(pick.indices.len())))),
        MeshCommand::SetVertexOverrides { .. } => Some((FocusTarget::Viewport, "edited vertex data".to_owned())),
        MeshCommand::CollapseMeshStack { .. } => Some((FocusTarget::Viewport, "baked a mesh".to_owned())),
        MeshCommand::BakeAll => Some((FocusTarget::Viewport, "baked all meshes".to_owned())),
        MeshCommand::AddModifier { modifier, .. } => Some((FocusTarget::Inspector, modifier_phrase(modifier))),
        MeshCommand::SetModifier { .. } => Some((FocusTarget::Inspector, "tweaked a modifier".to_owned())),
        MeshCommand::RemoveModifier { .. } => Some((FocusTarget::Inspector, "removed a modifier".to_owned())),
        MeshCommand::SetMeshModifiers { stack, .. } => Some((FocusTarget::Inspector, if stack.modifiers.len() > 0 {
                modifier_phrase(stack.modifiers.at(stack.modifiers.len() - 1))
            } else {
                "set modifiers".to_owned()
            })),
        _ => None,
    }
}

/// What is told of the edits of the library, where there is a phrase for it.
pub open spec fn library_phrase(c: LibraryCommand) -> Option<(FocusTarget, Seq<char>)> {
    match c {
        LibraryCommand::AddBuiltinMaterial { .. } => Some((FocusTarget::Inspector, "created a material"@)),
        LibraryCommand::AddCustomMaterial { .. } => Some((FocusTarget::Inspector, "created a material"@)),
        LibraryCommand::DeleteCustomMaterial { .. } => Some((FocusTarget::Inspector, "deleted a material"@)),
        LibraryCommand::SetCustomMaterialWgsl { .. } => Some((FocusTarget::Inspector, "edited a shader"@)),
        LibraryCommand::SetCustomMaterialAlphaMode { .. } => Some((FocusTarget::Inspector, "set a material's alpha mode"@)),
        LibraryCommand::SetCustomMaterialDoubleSided { .. } => Some((FocusTarget::Inspector, "set a material double-sided"@)),
        LibraryCommand::SetCustomMaterialDebugColor { .. } => Some((FocusTarget::Inspector, "set a material color"@)),
        LibraryCommand::SetCustomMaterialLayout { .. } => Some((FocusTarget::Inspector, "edited a material layout"@)),
        LibraryCommand::SetCustomMaterialShaderIncludes { .. } => Some((FocusTarget::Inspector, "edited material inputs"@)),
        LibraryCommand::SetCustomMaterialFragmentInputs { .. } => Some((FocusTarget::Inspector, "edited material inputs"@)),
        LibraryCommand::SetMaterialUniform { .. } => Some((FocusTarget::Inspector, "tuned a material"@)),
        _ => None,
    }
}

fn tell_library(c: &LibraryCommand) -> (r: Option<(FocusTarget, String)>)
    ensures
        told(r) == library_phrase(*c),
{
    match c {
        LibraryCommand::AddBuiltinMaterial { .. } => Some((FocusTarget::Inspector, "created a material".to_owned())),
        LibraryCommand::AddCustomMaterial { .. } => Some((FocusTarget::Inspector, "created a material".to_owned())),
        LibraryCommand::DeleteCustomMaterial { .. } => Some((FocusTarget::Inspector, "deleted a material".to_owned())),
        LibraryCommand::SetCustomMaterialWgsl { .. } => Some((FocusTarget::Inspector, "edited a shader".to_owned())),
        LibraryCommand::SetCustomMaterialAlphaMode { .. } => Some((FocusTarget::Inspector, "set a material's alpha mode".to_owned())),
        LibraryCommand::SetCustomMaterialDoubleSided { .. } => Some((FocusTarget::Inspector, "set a material double-sided".to_owned())),
        LibraryCommand::SetCustomMaterialDebugColor { .. } => Some((FocusTarget::Inspector, "set a material color".to_owned())),
        LibraryCommand::SetCustomMaterialLayout { .. } => Some((FocusTarget::Inspector, "edited a material layout".to_owned())),
        LibraryCommand::SetCustomMaterialShaderIncludes { .. } => Some((FocusTarget::Inspector, "edited material inputs".to_owned())),
        LibraryCommand::SetCustomMaterialFragmentInputs { .. } => Some((FocusTarget::Inspector, "edited material inputs".to_owned())),
        LibraryCommand::SetMaterialUniform { .. } => Some((FocusTarget::Inspector, "tuned a material".to_owned())),
        _ => None,
    }
}

/// What is told of the edits of assets, where there is a phrase for it.
pub open spec fn asset_phrase(c: AssetCommand) -> Option<(FocusTarget, Seq<char>)> {
    match c {
        AssetCommand::AddMaterialAsset { .. } => Some((FocusTarget::Inspector, "created a material"@)),
        AssetCommand::ImportTextureFromUrl { .. } => Some((FocusTarget::Inspector, "added a texture"@)),
        AssetCommand::AddTextureAsset { .. } => Some((FocusTarget::Inspector, "added a texture"@)),
        AssetCommand::DeleteAsset { .. } => Some((FocusTarget::Inspector, "removed an asset"@)),
        AssetCommand::RestoreAsset { .. } => Some((FocusTarget::Inspector, "removed an asset"@)),
        _ => None,
    }
}

fn tell_asset(c: &AssetCommand) -> (r: Option<(FocusTarget, String)>)
    ensures
        told(r) == asset_phrase(*c),
{
    match c {
        AssetCommand::AddMaterialAsset { .. } => Some((FocusTarget::Inspector, "created a material".to_owned())),
        AssetCommand::ImportTextureFromUrl { .. } => Some((FocusTarget::Inspector, "added a texture".to_owned())),
        AssetCommand::AddTextureAsset { .. } => Some((FocusTarget::Inspector, "added a texture".to_owned())),
        AssetCommand::DeleteAsset { .. } => Some((FocusTarget::Inspector, "removed an asset".to_owned())),
        AssetCommand::RestoreAsset { .. } => Some((FocusTarget::Inspector, "removed an asset".to_owned())),
        _ => None,
    }
}

/// What is told of the edits of the world, where there is a phrase for it.
pub open spec fn world_phrase(c: WorldCommand) -> Option<(FocusTarget, Seq<char>)> {
    match c {
        WorldCommand::SetEnvironment(_) => Some((FocusTarget::Inspector, "set the environment"@)),
        _ => None,
    }
}

fn tell_world(c: &WorldCommand) -> (r: Option<(FocusTarget, String)>)
    ensures
        told(r) == world_phrase(*c),
{
    match c {
        WorldCommand::SetEnvironment(_) => Some((FocusTarget::Inspector, "set the environment".to_owned())),
        _ => None,
    }
}

/// What is told of the edits of clips, where there is a phrase for it.
pub open spec fn clip_phrase(c: ClipCommand) -> Option<(FocusTarget, Seq<char>)> {
    match c {
        ClipCommand::AddClip { .. } => Some((FocusTarget::Nowhere, "added a clip"@)),
        ClipCommand::DuplicateClip { .. } => Some((FocusTarget::Nowhere, "duplicated a clip"@)),
        ClipCommand::DeleteClip { .. } => Some((FocusTarget::Nowhere, "deleted a clip"@)),
        ClipCommand::RenameClip { text, .. } => Some((FocusTarget::Nowhere, "renamed a clip to "@ + quoted(text@))),
        _ => None,
    }
}

fn tell_clip(c: &ClipCommand) -> (r: Option<(FocusTarget, String)>)
    ensures
        told(r) == clip_phrase(*c),
{
    match c {
        ClipCommand::AddClip { .. } => Some((FocusTarget::Nowhere, "added a clip".to_owned())),
        ClipCommand::DuplicateClip { .. } => Some((FocusTarget::Nowhere, "duplicated a clip".to_owned())),
        ClipCommand::DeleteClip { .. } => Some((FocusTarget::Nowhere, "deleted a clip".to_owned())),
        ClipCommand::RenameClip { text, .. } => Some((FocusTarget::Nowhere, joined("renamed a clip to ", &quote(text)))),
        _ => None,
    }
}

/// What is told of the edits of tracks, where there is a phrase for it.
pub open spec fn track_phrase(c: TrackCommand) -> Option<(FocusTarget, Seq<char>)> {
    match c {
        TrackCommand::AddTrack { .. } => Some((FocusTarget::Nowhere, "added a track"@)),
        TrackCommand::DeleteTrack { .. } => Some((FocusTarget::Nowhere, "removed a track"@)),
        TrackCommand::RestoreTrack { .. } => Some((FocusTarget::Nowhere, "removed a track"@)),
        TrackCommand::AddKeyframe { .. } => Some((FocusTarget::Nowhere, "added a keyframe"@)),
        TrackCommand::DeleteKeyframe { .. } => Some((FocusTarget::Nowhere, "removed a keyframe"@)),
        TrackCommand::InsertKeyframe { .. } => Some((FocusTarget::Nowhere, "removed a keyframe"@)),
        TrackCommand::SetKeyframe { .. } => Some((FocusTarget::Nowhere, "edited a keyframe"@)),
        _ => None,
    }
}

fn tell_track(c: &TrackCommand) -> (r: Option<(FocusTarget, String)>)
    ensures
        told(r) == track_phrase(*c),
{
    match c {
        TrackCommand::AddTrack { .. } => Some((FocusTarget::Nowhere, "added a track".to_owned())),
        TrackCommand::DeleteTrack { .. } => Some((FocusTarget::Nowhere, "removed a track".to_owned())),
        TrackCommand::RestoreTrack { .. } => Some((FocusTarget::Nowhere, "removed a track".to_owned())),
        TrackCommand::AddKeyframe { .. } => Some((FocusTarget::Nowhere, "added a keyframe".to_owned())),
        TrackCommand::DeleteKeyframe { .. } => Some((FocusTarget::Nowhere, "removed a keyframe".to_owned())),
        TrackCommand::InsertKeyframe { .. } => Some((FocusTarget::Nowhere, "removed a keyframe".to_owned())),
        TrackCommand::SetKeyframe { .. } => Some((FocusTarget::Nowhere, "edited a keyframe".to_owned())),
        _ => None,
    }
}

/// What is told of the edits of the mixer, where there is a phrase for it.
pub open spec fn mixer_phrase(c: MixerCommand) -> Option<(FocusTarget, Seq<char>)> {
    match c {
        MixerCommand::AddLayer => Some((FocusTarget::Nowhere, "added an animation layer"@)),
        MixerCommand::AddStrip { .. } => Some((FocusTarget::Nowhere, "added an animation strip"@)),
        _ => None,
    }
}

fn tell_mixer(c: &MixerCommand) -> (r: Option<(FocusTarget, String)>)
    ensures
        told(r) == mixer_phrase(*c),
{
    match c {
        MixerCommand::AddLayer => Some((FocusTarget::Nowhere, "added an animation layer".to_owned())),
        MixerCommand::AddStrip { .. } => Some((FocusTarget::Nowhere, "added an animation strip".to_owned())),
        _ => None,
    }
}

/// What is told of what is asked of the outside, where there is a phrase for it.
pub open spec fn outside_phrase(c: OutsideCommand) -> Option<(FocusTarget, Seq<char>)> {
    match c {
        OutsideCommand::ConvertToEditableMesh => Some((FocusTarget::Viewport, "made a mesh editable"@)),
        OutsideCommand::ImportModelFromUrl => Some((FocusTarget::Viewport, "imported a model"@)),
        OutsideCommand::ImportModelFromFile => Some((FocusTarget::Viewport, "imported a model"@)),
        OutsideCommand::LoadProjectFromUrl => Some((FocusTarget::Viewport, "loaded a project"@)),
        OutsideCommand::RegisterMaterial => Some((FocusTarget::Inspector, "compiled a material"@)),
        OutsideCommand::AssignMaterial { cleared } => Some((FocusTarget::Inspector, if cleared { "cleared a material"@ } else { "assigned a material"@ })),
        _ => None,
    }
}

fn tell_outside(c: &OutsideCommand) -> (r: Option<(FocusTarget, String)>)
    ensures
        told(r) == outside_phrase(*c),
{
    match c {
        OutsideCommand::ConvertToEditableMesh => Some((FocusTarget::Viewport, "made a mesh editable".to_owned())),
        OutsideCommand::ImportModelFromUrl => Some((FocusTarget::Viewport, "imported a model".to_owned())),
        OutsideCommand::ImportModelFromFile => Some((FocusTarget::Viewport, "imported a model".to_owned())),
        OutsideCommand::LoadProjectFromUrl => Some((FocusTarget::Viewport, "loaded a project".to_owned())),
        OutsideCommand::RegisterMaterial => Some((FocusTarget::Inspector, "compiled a material".to_owned())),
        OutsideCommand::AssignMaterial { cleared } => Some((FocusTarget::Inspector, (if *cleared { "cleared a material" } else { "assigned a material" }).to_owned())),
        _ => None,
    }
}
/// What is told of a command, where there is a phrase for it.
pub open spec fn known_phrase(c: EditorCommand) -> Option<(FocusTarget, Seq<char>)> {
    match c {
        EditorCommand::Insert { spec, .. } => Some((FocusTarget::Outliner, "added a "@ + insert_word(spec))),
        EditorCommand::InsertTree { .. } => Some((FocusTarget::Outliner, "restored a node"@)),
        EditorCommand::Delete { .. } => Some((FocusTarget::Outliner, "deleted a node"@)),
        EditorCommand::Duplicate { .. } => Some((FocusTarget::Outliner, "duplicated a node"@)),
        EditorCommand::Reparent { .. } => Some((FocusTarget::Outliner, "reparented a node"@)),
        EditorCommand::NewProject { .. } => Some((FocusTarget::Outliner, "started a new project"@)),
        EditorCommand::DropSkinning { .. } => Some((FocusTarget::Viewport, "dropped skinning"@)),
        EditorCommand::CopyMaterialInstance { .. } => Some((FocusTarget::Inspector, "copied material settings"@)),
        EditorCommand::Node(c) => node_edit_phrase(c.edit),
        EditorCommand::Mesh(c) => mesh_edit_phrase(c),
        EditorCommand::Library(c) => library_phrase(c),
        EditorCommand::Asset(c) => asset_phrase(c),
        EditorCommand::World(c) => world_phrase(c),
        EditorCommand::Clip(c) => clip_phrase(c),
        EditorCommand::Track(c) => track_phrase(c),
        EditorCommand::Mixer(c) => mixer_phrase(c),
        EditorCommand::Outside(c) => outside_phrase(c),
        _ => None,
    }
}

fn tell_known(c: &EditorCommand) -> (r: Option<(FocusTarget, String)>)
    ensures
        told(r) == known_phrase(*c),
{
    match c {
        EditorCommand::Insert { spec, .. } => Some((FocusTarget::Outliner, joined("added a ", insert_label(spec)))),
        EditorCommand::InsertTree { .. } => Some((FocusTarget::Outliner, "restored a node".to_owned())),
        EditorCommand::Delete { .. } => Some((FocusTarget::Outliner, "deleted a node".to_owned())),
        EditorCommand::Duplicate { .. } => Some((FocusTarget::Outliner, "duplicated a node".to_owned())),
        EditorCommand::Reparent { .. } => Some((FocusTarget::Outliner, "reparented a node".to_owned())),
        EditorCommand::NewProject { .. } => Some((FocusTarget::Outliner, "started a new project".to_owned())),
        EditorCommand::DropSkinning { .. } => Some((FocusTarget::Viewport, "dropped skinning".to_owned())),
        EditorCommand::CopyMaterialInstance { .. } => Some((FocusTarget::Inspector, "copied material settings".to_owned())),
        EditorCommand::Node(c) => tell_node_edit(&c.edit),
        EditorCommand::Mesh(c) => tell_mesh_edit(c),
        EditorCommand::Library(c) => tell_library(c),
        EditorCommand::Asset(c) => tell_asset(c),
        EditorCommand::World(c) => tell_world(c),
        EditorCommand::Clip(c) => tell_clip(c),
        EditorCommand::Track(c) => tell_track(c),
        EditorCommand::Mixer(c) => tell_mixer(c),
        EditorCommand::Outside(c) => tell_outside(c),
        _ => None,
    }
}

/// Whether a command is chatter about what is looked at, which is not told.
pub open spec fn unsaid(c: EditorCommand) -> bool {
    match c {
        EditorCommand::View(c) => !(c is SetViewOptions || c is SetCameraClip),
        EditorCommand::Transport(_) => true,
        EditorCommand::Library(c) => c is SetCurrentMaterial,
        EditorCommand::Clip(c) => c is SetCurrentClip,
        EditorCommand::Outside(c) => c is SnapCameraToAxis || c is ResetCamera || c
            is SetCameraOrbit || c is FrameNode || c is SetFrameTime || c is ClearFrameTime,
        _ => false,
    }
}

fn is_unsaid(c: &EditorCommand) -> (r: bool)
    ensures
        r == unsaid(*c),
{
    match c {
        EditorCommand::View(ViewCommand::SetViewOptions(_))
        | EditorCommand::View(ViewCommand::SetCameraClip { .. }) => false,
        EditorCommand::View(_)
        | EditorCommand::Transport(_)
        | EditorCommand::Library(LibraryCommand::SetCurrentMaterial { .. })
        | EditorCommand::Clip(ClipCommand::SetCurrentClip { .. })
        | EditorCommand::Outside(OutsideCommand::SnapCameraToAxis)
        | EditorCommand::Outside(OutsideCommand::ResetCamera)
        | EditorCommand::Outside(OutsideCommand::SetCameraOrbit)
        | EditorCommand::Outside(OutsideCommand::FrameNode)
        | EditorCommand::Outside(OutsideCommand::SetFrameTime)
        | EditorCommand::Outside(OutsideCommand::ClearFrameTime) => true,
        _ => false,
    }
}

/// What is told of a command: the panel and the phrase, or nothing. A command
/// without a phrase of its own is told by its name.
pub open spec fn described(c: EditorCommand) -> Option<(FocusTarget, Seq<char>)> {
    if unsaid(c) {
        None
    } else {
        match known_phrase(c) {
            Some(p) => Some(p),
            None => Some((FocusTarget::Nowhere, "ran "@ + lowercase(command_name(c)))),
        }
    }
}

/// The panel and the phrase for a command.
pub fn describe(c: &EditorCommand) -> (r: Option<(FocusTarget, String)>)
    ensures
        told(r) == described(*c),
{
    if is_unsaid(c) {
        return None;
    }
    match tell_known(c) {
        Some(p) => Some(p),
        None => Some((FocusTarget::Nowhere, joined("ran ", &lowercased(c.label())))),
    }
}

/// Whether a command only sets the stage for what follows it in a batch.
pub open spec fn preparatory(c: EditorCommand) -> bool {
    match c {
        EditorCommand::View(c) => c is SetSelection || c is SetAssetSelection || c
            is SetVertexSelection || c is SwitchMode,
        EditorCommand::Library(c) => c is SetCurrentMaterial,
        EditorCommand::Clip(c) => c is SetCurrentClip,
        EditorCommand::Transport(c) => c is SetAnimSelection,
        _ => false,
    }
}

/// Whether a command of a batch is worth telling: it makes an entry, and not one
/// that only sets the stage.
pub open spec fn is_worth_telling() -> spec_fn(EditorCommand) -> bool {
    |c: EditorCommand| !(c is Batch) && !preparatory(c) && described(c) is Some
}

fn worth_telling(c: &EditorCommand) -> (r: bool)
    ensures
        r == is_worth_telling()(*c),
{
    match c {
        EditorCommand::Batch(_)
        | EditorCommand::View(ViewCommand::SetSelection(_))
        | EditorCommand::View(ViewCommand::SetAssetSelection(_))
        | EditorCommand::View(ViewCommand::SetVertexSelection { .. })
        | EditorCommand::View(ViewCommand::SwitchMode(_))
        | EditorCommand::Library(LibraryCommand::SetCurrentMaterial { .. })
        | EditorCommand::Clip(ClipCommand::SetCurrentClip { .. })
        | EditorCommand::Transport(TransportCommand::SetAnimSelection { .. }) => false,
        _ => !is_unsaid(c),
    }
}

/// The command of a batch that is told: the first that is worth telling, else
/// the first.
pub open spec fn batch_child(cmds: Seq<EditorCommand>) -> Option<EditorCommand> {
    let i = crate::find::first(cmds, is_worth_telling());
    if i < cmds.len() {
        Some(cmds[i])
    } else if cmds.len() > 0 {
        Some(cmds[0])
    } else {
        None
    }
}

fn pick_batch_child(cmds: &Vec<EditorCommand>) -> (r: Option<&EditorCommand>)
    ensures
        match r {
            Some(c) => batch_child(cmds@) == Some(*c),
            None => batch_child(cmds@) is None,
        },
{
    let mut i: usize = 0;
    while i < cmds.len()
        invariant
            i <= cmds@.len(),
            forall|j: int| 0 <= j < i ==> !is_worth_telling()(#[trigger] cmds@[j]),
        decreases cmds@.len() - i,
    {
        if worth_telling(&cmds[i]) {
            proof {
                crate::find::lemma_first_is(cmds@, is_worth_telling(), i as int);
            }
            return Some(&cmds[i]);
        }
        i += 1;
    }
    proof {
        crate::find::lemma_first_is(cmds@, is_worth_telling(), i as int);
    }
    if cmds.len() > 0 {
        Some(&cmds[0])
    } else {
        None
    }
}

/// The command that is told of a command: of a batch, the one worth telling.
pub open spec fn told_command(c: EditorCommand) -> EditorCommand {
    match c {
        EditorCommand::Batch(cmds) => match batch_child(cmds@) {
            Some(child) => child,
            None => c,
        },
        _ => c,
    }
}

/// The feed: its entries, the newest last, and the panel that is lit.
pub struct Feed {
    entries: Vec<FeedEntry>,
    focus: Option<FocusTarget>,
    generation: u64,
    enabled: bool,
}

/// The feed as a value.
#[verifier::ext_equal]
pub struct FeedView {
    pub entries: Seq<Seq<char>>,
    pub focus: Option<FocusTarget>,
    pub generation: u64,
    pub enabled: bool,
}

/// The phrases of entries.
pub open spec fn phrases(entries: Seq<FeedEntry>) -> Seq<Seq<char>> {
    Seq::new(entries.len(), |i: int| entries[i].phrase@)
}

impl View for Feed {
    type V = FeedView;

    closed spec fn view(&self) -> FeedView {
        FeedView {
            entries: phrases(self.entries@),
            focus: self.focus,
            generation: self.generation,
            enabled: self.enabled,
        }
    }
}

/// Entries with one more, without the oldest where there are too many.
pub open spec fn with_entry(entries: Seq<Seq<char>>, phrase: Seq<char>) -> Seq<Seq<char>> {
    if entries.len() >= MAX_ENTRIES {
        entries.remove(0).push(phrase)
    } else {
        entries.push(phrase)
    }
}

/// The generation after another.
pub open spec fn next_generation(n: u64) -> u64 {
    if n == u64::MAX {
        0
    } else {
        (n + 1) as u64
    }
}

/// The feed after a command is told.
pub open spec fn after_telling(v: FeedView, c: EditorCommand) -> FeedView {
    match described(c) {
        Some((target, phrase)) => if !v.enabled {
            v
        } else if target == FocusTarget::Nowhere {
            FeedView { entries: with_entry(v.entries, phrase), ..v }
        } else {
            FeedView {
                entries: with_entry(v.entries, phrase),
                focus: Some(target),
                generation: next_generation(v.generation),
                ..v
            }
        },
        None => v,
    }
}

/// The feed never holds more than it may.
pub proof fn law_feed_stays_small(entries: Seq<Seq<char>>, phrase: Seq<char>)
    requires
        entries.len() <= MAX_ENTRIES,
    ensures
        with_entry(entries, phrase).len() <= MAX_ENTRIES,
        with_entry(entries, phrase).last() == phrase,
{
}

/// The lit generation, where telling lit a panel anew.
pub open spec fn lit(v: FeedView, w: FeedView) -> Option<u64> {
    if w.generation != v.generation {
        Some(w.generation)
    } else {
        None
    }
}

impl Feed {
    /// An empty feed that is switched on.
    pub fn new() -> (f: Feed)
        ensures
            f@ == (FeedView { entries: seq![], focus: None, generation: 0, enabled: true }),
    {
        let f = Feed { entries: Vec::new(), focus: None, generation: 0, enabled: true };
        assert(f@.entries =~= seq![]);
        f
    }

    /// The entries, the newest last.
    pub fn feed(&self) -> (r: &Vec<FeedEntry>)
        ensures
            phrases(r@) == self@.entries,
    {
        &self.entries
    }

    /// The panel that is lit.
    pub fn focus(&self) -> (r: Option<FocusTarget>)
        ensures
            r == self@.focus,
    {
        self.focus
    }

    /// Whether the feed is switched on.
    pub fn enabled(&self) -> (r: bool)
        ensures
            r == self@.enabled,
    {
        self.enabled
    }

    /// Switches the feed on or off; switched off it is emptied.
    pub fn set_enabled(&mut self, on: bool)
        ensures
            final(self)@ == if on {
                FeedView { enabled: true, ..old(self)@ }
            } else {
                FeedView { entries: seq![], focus: None, enabled: false, ..old(self)@ }
            },
    {
        self.enabled = on;
        if !on {
            clear(self);
        }
    }

    fn push_entry(&mut self, phrase: String)
        ensures
            final(self)@ == (FeedView {
                entries: with_entry(old(self)@.entries, phrase@),
                ..old(self)@
            }),
    {
        let ghost before = self@.entries;
        if self.entries.len() >= MAX_ENTRIES {
            self.entries.remove(0);
            assert(phrases(self.entries@) =~= before.remove(0));
        }
        let ghost mid = phrases(self.entries@);
        self.entries.push(FeedEntry { phrase });
        assert(phrases(self.entries@) =~= mid.push(phrase@));
    }

    fn arm_focus(&mut self, target: FocusTarget) -> (r: u64)
        ensures
            final(self)@ == (FeedView {
                focus: Some(target),
                generation: next_generation(old(self)@.generation),
                ..old(self)@
            }),
            r == final(self)@.generation,
    {
        self.focus = Some(target);
        self.generation = self.generation.wrapping_add(1);
        self.generation
    }

    /// Puts out the light that was lit in a generation, unless it was lit anew.
    pub fn expire(&mut self, generation: u64)
        ensures
            final(self)@ == if old(self)@.generation == generation {
                FeedView { focus: None, ..old(self)@ }
            } else {
                old(self)@
            },
    {
        if self.generation == generation {
            self.focus = None;
        }
    }

    fn emit(&mut self, c: &EditorCommand) -> (r: Option<u64>)
        ensures
            final(self)@ == after_telling(old(self)@, *c),
            r == lit(old(self)@, final(self)@),
    {
        if !self.enabled {
            return None;
        }
        match describe(c) {
            Some((target, phrase)) => {
                self.push_entry(phrase);
                if target != FocusTarget::Nowhere {
                    Some(self.arm_focus(target))
                } else {
                    None
                }
            },
            None => None,
        }
    }
}

/// Empties the feed and puts out the light.
pub fn clear(feed: &mut Feed)
    ensures
        final(feed)@ == (FeedView { entries: seq![], focus: None, ..old(feed)@ }),
{
    feed.entries.clear();
    feed.focus = None;
    assert(feed@.entries =~= seq![]);
}

/// Tells a command. Returns the generation of the light where a panel was lit:
/// it is to expire after a while.
pub fn narrate(feed: &mut Feed, cmd: &EditorCommand) -> (r: Option<u64>)
    ensures
        final(feed)@ == after_telling(old(feed)@, told_command(*cmd)),
        r == lit(old(feed)@, final(feed)@),
{
    match cmd {
        EditorCommand::Batch(cmds) => match pick_batch_child(cmds) {
            Some(child) => feed.emit(child),
            None => feed.emit(cmd),
        },
        _ => feed.emit(cmd),
    }
}

/// Tells a row of commands by the one that is worth it.
pub fn narrate_batch(feed: &mut Feed, cmds: &Vec<EditorCommand>) -> (r: Option<u64>)
    ensures
        final(feed)@ == match batch_child(cmds@) {
            Some(child) => after_telling(old(feed)@, child),
            None => old(feed)@,
        },
        r == lit(old(feed)@, final(feed)@),
{
    match pick_batch_child(cmds) {
        Some(child) => feed.emit(child),
        None => None,
    }
}

/// A light that a command has lit outlives the end of the lights before it.
pub proof fn law_new_light_is_not_put_out(v: FeedView, c: EditorCommand, old_generation: u64)
    requires
        lit(v, after_telling(v, c)) is Some,
        old_generation == v.generation,
    ensures
        after_telling(v, c).generation != old_generation,
        after_telling(v, c).focus is Some,
{
}

} // verus!

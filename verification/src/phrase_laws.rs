//! What holds of the words in which deeds and things are told, and of the names that new
//! things are given.
use crate::activity_feed::{
    added_modifier, after_telling, described, insert_word, quoted, vert_text, FeedView,
    FocusTarget,
};
use crate::asset_edit::{texture_name, AssetCommand};
use crate::assets::{AssetEntry, AssetSource, MeshData, ModifierStack, VertexOverrides};
use crate::clips::{TextureTransformProp, TrackTarget, TransformProp};
use crate::command::{command_name, EditorCommand, OutsideCommand};
use crate::controller::{dispatch_step, ControllerView};
use crate::errors::{slot_text, EditorError};
use crate::ids::{AssetId, NodeId};
use crate::library_edit::{library_step, LibraryCommand, LibraryView};
use crate::mesh_edit::MeshCommand;
use crate::node_edit::{NodeCommand, NodeEdit};
use crate::readback::{builtin_name, camera_name, light_name};
use crate::scene_edit::{InsertKind, InsertSpec};
use crate::snapshot::{target_words, tells_slot, EnvSlotSnapshot};
use crate::table::Table;
use crate::text::{decimal, lowercase};
use crate::text_laws::law_file_name_is_the_last_part;
use crate::timeline::{ClipCommand, MixerCommand, TrackCommand};
use crate::world::EnvSlot;
use vstd::prelude::*;

verus! {

/// Whether a command is told in some words, with the panel that they point to.
pub open spec fn says(c: EditorCommand, panel: FocusTarget, words: Seq<char>) -> bool {
    described(c) == Some((panel, words))
}

/// An edit of a node is told by what it did to it.
pub proof fn law_node_edit_is_told(node: NodeId, c: NodeEdit)
    ensures
        c matches NodeEdit::Rename(name) ==> says(
            EditorCommand::Node(NodeCommand { node, edit: c }),
            FocusTarget::Outliner,
            "renamed a node to "@ + quoted(name@),
        ),
        c matches NodeEdit::SetVisible(on) ==> says(
            EditorCommand::Node(NodeCommand { node, edit: c }),
            FocusTarget::Outliner,
            (if on { "showed a node"@ } else { "hid a node"@ }),
        ),
        c matches NodeEdit::SetLocked(on) ==> says(
            EditorCommand::Node(NodeCommand { node, edit: c }),
            FocusTarget::Outliner,
            (if on { "locked a node"@ } else { "unlocked a node"@ }),
        ),
        c is SetPrefab ==> says(
            EditorCommand::Node(NodeCommand { node, edit: c }),
            FocusTarget::Outliner,
            "set a prefab root"@,
        ),
        c is SetTransform ==> says(
            EditorCommand::Node(NodeCommand { node, edit: c }),
            FocusTarget::Viewport,
            "moved a node"@,
        ),
        c is SetKind ==> says(
            EditorCommand::Node(NodeCommand { node, edit: c }),
            FocusTarget::Inspector,
            "edited a node"@,
        ),
        c is SetBuiltinParam ==> says(
            EditorCommand::Node(NodeCommand { node, edit: c }),
            FocusTarget::Inspector,
            "tuned a material"@,
        ),
        c is SetLightParam ==> says(
            EditorCommand::Node(NodeCommand { node, edit: c }),
            FocusTarget::Inspector,
            "adjusted a light"@,
        ),
        c is SetBuiltinTexture ==> says(
            EditorCommand::Node(NodeCommand { node, edit: c }),
            FocusTarget::Inspector,
            "bound a texture"@,
        ),
        c is SetMaterialTexture ==> says(
            EditorCommand::Node(NodeCommand { node, edit: c }),
            FocusTarget::Inspector,
            "bound a texture"@,
        ),
{
}

/// An edit of a mesh is told by what it did, and to how many vertices.
pub proof fn law_mesh_edit_is_told(c: MeshCommand)
    ensures
        c is SetMeshData ==> says(
            EditorCommand::Mesh(c),
            FocusTarget::Viewport,
            "edited a mesh"@,
        ),
        c matches MeshCommand::SetVertexPositions { pick, .. } ==> says(
            EditorCommand::Mesh(c),
            FocusTarget::Viewport,
            "moved "@ + vert_text(pick.indices@.len()),
        ),
        c matches MeshCommand::SoftTransformVertices { pick, .. } ==> says(
            EditorCommand::Mesh(c),
            FocusTarget::Viewport,
            "soft-moved "@ + vert_text(pick.indices@.len()),
        ),
        c matches MeshCommand::PaintVertexColors { pick, .. } ==> says(
            EditorCommand::Mesh(c),
            FocusTarget::Viewport,
            "painted "@ + vert_text(pick.indices@.len()),
        ),
        c matches MeshCommand::SetVertexNormals { pick, .. } ==> says(
            EditorCommand::Mesh(c),
            FocusTarget::Viewport,
            "set normals on "@ + vert_text(pick.indices@.len()),
        ),
        c is SetVertexOverrides ==> says(
            EditorCommand::Mesh(c),
            FocusTarget::Viewport,
            "edited vertex data"@,
        ),
        c is CollapseMeshStack ==> says(
            EditorCommand::Mesh(c),
            FocusTarget::Viewport,
            "baked a mesh"@,
        ),
        c is BakeAll ==> says(
            EditorCommand::Mesh(c),
            FocusTarget::Viewport,
            "baked all meshes"@,
        ),
        c matches MeshCommand::AddModifier { modifier, .. } ==> says(
            EditorCommand::Mesh(c),
            FocusTarget::Inspector,
            added_modifier(modifier),
        ),
        c is SetModifier ==> says(
            EditorCommand::Mesh(c),
            FocusTarget::Inspector,
            "tweaked a modifier"@,
        ),
        c is RemoveModifier ==> says(
            EditorCommand::Mesh(c),
            FocusTarget::Inspector,
            "removed a modifier"@,
        ),
        c matches MeshCommand::SetMeshModifiers { stack, .. } ==> says(
            EditorCommand::Mesh(c),
            FocusTarget::Inspector,
            (if stack.modifiers@.len() > 0 { added_modifier(stack.modifiers@.last()) } else { "set modifiers"@ }),
        ),
{
}

/// An edit of a material is told by what it did.
pub proof fn law_material_edit_is_told(c: LibraryCommand)
    ensures
        c is AddBuiltinMaterial ==> says(
            EditorCommand::Library(c),
            FocusTarget::Inspector,
            "created a material"@,
        ),
        c is AddCustomMaterial ==> says(
            EditorCommand::Library(c),
            FocusTarget::Inspector,
            "created a material"@,
        ),
        c is DeleteCustomMaterial ==> says(
            EditorCommand::Library(c),
            FocusTarget::Inspector,
            "deleted a material"@,
        ),
        c is SetCustomMaterialWgsl ==> says(
            EditorCommand::Library(c),
            FocusTarget::Inspector,
            "edited a shader"@,
        ),
        c is SetCustomMaterialAlphaMode ==> says(
            EditorCommand::Library(c),
            FocusTarget::Inspector,
            "set a material's alpha mode"@,
        ),
        c is SetCustomMaterialDoubleSided ==> says(
            EditorCommand::Library(c),
            FocusTarget::Inspector,
            "set a material double-sided"@,
        ),
        c is SetCustomMaterialDebugColor ==> says(
            EditorCommand::Library(c),
            FocusTarget::Inspector,
            "set a material color"@,
        ),
        c is SetCustomMaterialLayout ==> says(
            EditorCommand::Library(c),
            FocusTarget::Inspector,
            "edited a material layout"@,
        ),
        c is SetCustomMaterialShaderIncludes ==> says(
            EditorCommand::Library(c),
            FocusTarget::Inspector,
            "edited material inputs"@,
        ),
        c is SetCustomMaterialFragmentInputs ==> says(
            EditorCommand::Library(c),
            FocusTarget::Inspector,
            "edited material inputs"@,
        ),
        c is SetMaterialUniform ==> says(
            EditorCommand::Library(c),
            FocusTarget::Inspector,
            "tuned a material"@,
        ),
{
}

/// An asset that comes or goes is told.
pub proof fn law_asset_edit_is_told(c: AssetCommand)
    ensures
        c is AddMaterialAsset ==> says(
            EditorCommand::Asset(c),
            FocusTarget::Inspector,
            "created a material"@,
        ),
        c is ImportTextureFromUrl ==> says(
            EditorCommand::Asset(c),
            FocusTarget::Inspector,
            "added a texture"@,
        ),
        c is AddTextureAsset ==> says(
            EditorCommand::Asset(c),
            FocusTarget::Inspector,
            "added a texture"@,
        ),
        c is DeleteAsset ==> says(
            EditorCommand::Asset(c),
            FocusTarget::Inspector,
            "removed an asset"@,
        ),
        c is RestoreAsset ==> says(
            EditorCommand::Asset(c),
            FocusTarget::Inspector,
            "removed an asset"@,
        ),
{
}

/// A clip that comes, goes or is renamed is told.
pub proof fn law_clip_edit_is_told(c: ClipCommand)
    ensures
        c is AddClip ==> says(
            EditorCommand::Clip(c),
            FocusTarget::Nowhere,
            "added a clip"@,
        ),
        c is DuplicateClip ==> says(
            EditorCommand::Clip(c),
            FocusTarget::Nowhere,
            "duplicated a clip"@,
        ),
        c is DeleteClip ==> says(
            EditorCommand::Clip(c),
            FocusTarget::Nowhere,
            "deleted a clip"@,
        ),
        c matches ClipCommand::RenameClip { text, .. } ==> says(
            EditorCommand::Clip(c),
            FocusTarget::Nowhere,
            "renamed a clip to "@ + quoted(text@),
        ),
{
}

/// A track or a key that comes, goes or changes is told.
pub proof fn law_track_edit_is_told(c: TrackCommand)
    ensures
        c is AddTrack ==> says(
            EditorCommand::Track(c),
            FocusTarget::Nowhere,
            "added a track"@,
        ),
        c is DeleteTrack ==> says(
            EditorCommand::Track(c),
            FocusTarget::Nowhere,
            "removed a track"@,
        ),
        c is RestoreTrack ==> says(
            EditorCommand::Track(c),
            FocusTarget::Nowhere,
            "removed a track"@,
        ),
        c is AddKeyframe ==> says(
            EditorCommand::Track(c),
            FocusTarget::Nowhere,
            "added a keyframe"@,
        ),
        c is DeleteKeyframe ==> says(
            EditorCommand::Track(c),
            FocusTarget::Nowhere,
            "removed a keyframe"@,
        ),
        c is InsertKeyframe ==> says(
            EditorCommand::Track(c),
            FocusTarget::Nowhere,
            "removed a keyframe"@,
        ),
        c is SetKeyframe ==> says(
            EditorCommand::Track(c),
            FocusTarget::Nowhere,
            "edited a keyframe"@,
        ),
{
}

/// A layer or a strip that is added is told.
pub proof fn law_layer_is_told(c: MixerCommand)
    ensures
        c is AddLayer ==> says(
            EditorCommand::Mixer(c),
            FocusTarget::Nowhere,
            "added an animation layer"@,
        ),
        c is AddStrip ==> says(
            EditorCommand::Mixer(c),
            FocusTarget::Nowhere,
            "added an animation strip"@,
        ),
{
}

/// What is done outside of the scene is told by what it did.
pub proof fn law_outside_deed_is_told(c: OutsideCommand)
    ensures
        c is ConvertToEditableMesh ==> says(
            EditorCommand::Outside(c),
            FocusTarget::Viewport,
            "made a mesh editable"@,
        ),
        c is ImportModelFromUrl ==> says(
            EditorCommand::Outside(c),
            FocusTarget::Viewport,
            "imported a model"@,
        ),
        c is ImportModelFromFile ==> says(
            EditorCommand::Outside(c),
            FocusTarget::Viewport,
            "imported a model"@,
        ),
        c is LoadProjectFromUrl ==> says(
            EditorCommand::Outside(c),
            FocusTarget::Viewport,
            "loaded a project"@,
        ),
        c is RegisterMaterial ==> says(
            EditorCommand::Outside(c),
            FocusTarget::Inspector,
            "compiled a material"@,
        ),
        c matches OutsideCommand::AssignMaterial { cleared } ==> says(
            EditorCommand::Outside(c),
            FocusTarget::Inspector,
            (if cleared { "cleared a material"@ } else { "assigned a material"@ }),
        ),
{
}

/// What is put in is told by what it is.
pub proof fn law_inserted_thing_is_told(id: NodeId, spec: InsertSpec, parent: Option<NodeId>)
    ensures
        says(
            EditorCommand::Insert { id, spec, parent },
            FocusTarget::Outliner,
            "added a "@ + insert_word(spec),
        ),
        spec is Empty ==> insert_word(spec) == "group"@,
        spec is Instancer ==> insert_word(spec) == "instances"@,
        spec is Sweep ==> insert_word(spec) == "sweep"@,
        spec matches InsertSpec::Primitive(p) ==> {
            &&& p is Plane ==> insert_word(spec) == "plane"@
            &&& p is Box ==> insert_word(spec) == "box"@
            &&& p is Sphere ==> insert_word(spec) == "sphere"@
            &&& p is Cylinder ==> insert_word(spec) == "cylinder"@
            &&& p is Cone ==> insert_word(spec) == "cone"@
            &&& p is Torus ==> insert_word(spec) == "torus"@
        },
        spec matches InsertSpec::Prepared { what, .. } ==> {
            &&& what == InsertKind::DirectionalLight ==> insert_word(spec) == "directional light"@
            &&& what == InsertKind::PointLight ==> insert_word(spec) == "point light"@
            &&& what == InsertKind::SpotLight ==> insert_word(spec) == "spot light"@
            &&& what == InsertKind::Camera ==> insert_word(spec) == "camera"@
            &&& what == InsertKind::CollisionBox ==> insert_word(spec) == "box collider"@
            &&& what == InsertKind::CollisionSphere ==> insert_word(spec) == "sphere collider"@
            &&& what == InsertKind::CollisionCapsule ==> insert_word(spec) == "capsule collider"@
            &&& what == InsertKind::CollisionCylinder ==> insert_word(spec) == "cylinder collider"@
            &&& what == InsertKind::CollisionCone ==> insert_word(spec) == "cone collider"@
            &&& what == InsertKind::CollisionEllipsoid ==> insert_word(spec) == "ellipsoid collider"@
            &&& what == InsertKind::Curve ==> insert_word(spec) == "curve"@
            &&& what == InsertKind::Line ==> insert_word(spec) == "line"@
            &&& what == InsertKind::Sprite ==> insert_word(spec) == "sprite"@
            &&& what == InsertKind::Particle ==> insert_word(spec) == "particle emitter"@
            &&& what == InsertKind::Decal ==> insert_word(spec) == "decal"@
            &&& what == InsertKind::Mesh ==> insert_word(spec) == "mesh"@
        },
{
}

/// A node that comes back, goes, is copied or moves is told, and so is a new project,
/// a skin that goes and a material that is copied.
pub proof fn law_scene_edit_is_told(c: EditorCommand)
    ensures
        c is InsertTree ==> says(c, FocusTarget::Outliner, "restored a node"@),
        c is Delete ==> says(c, FocusTarget::Outliner, "deleted a node"@),
        c is Duplicate ==> says(c, FocusTarget::Outliner, "duplicated a node"@),
        c is Reparent ==> says(c, FocusTarget::Outliner, "reparented a node"@),
        c is NewProject ==> says(c, FocusTarget::Outliner, "started a new project"@),
        c is DropSkinning ==> says(c, FocusTarget::Viewport, "dropped skinning"@),
        c is CopyMaterialInstance ==> says(
            c,
            FocusTarget::Inspector,
            "copied material settings"@,
        ),
        c matches EditorCommand::World(w) ==> (w is SetEnvironment ==> says(
            c,
            FocusTarget::Inspector,
            "set the environment"@,
        )),
{
}

/// Playing, choosing and looking around tell nothing; what is told in no words of its own
/// is told by its name.
pub proof fn law_choosing_is_not_told(v: FeedView, c: EditorCommand)
    ensures
        c is Transport ==> after_telling(v, c) == v,
        c matches EditorCommand::View(x) ==> (!(x is SetViewOptions || x is SetCameraClip)
            ==> after_telling(v, c) == v),
        c matches EditorCommand::Library(x) ==> (x is SetCurrentMaterial ==> after_telling(v, c)
            == v),
        c matches EditorCommand::Clip(x) ==> (x is SetCurrentClip ==> after_telling(v, c) == v),
        c matches EditorCommand::Outside(x) ==> (x is SnapCameraToAxis || x is ResetCamera || x
            is SetCameraOrbit || x is FrameNode || x is SetFrameTime || x is ClearFrameTime
            ==> after_telling(v, c) == v),
        c matches EditorCommand::View(x) ==> (x is SetViewOptions || x is SetCameraClip ==> says(
            c,
            FocusTarget::Nowhere,
            "ran "@ + lowercase(command_name(c)),
        )),
        c is PurgeUnusedAssets || c is SetSkinWeights || c is ResetToBindPose || c is SeparateMesh
            || c is NodeMesh || c is ImportNaniteAsset ==> says(
            c,
            FocusTarget::Nowhere,
            "ran "@ + lowercase(command_name(c)),
        ),
{
}

/// A track is told by what it drives: the kind of its target and the part of it.
pub proof fn law_track_is_told_by_its_target(t: TrackTarget)
    ensures
        t matches TrackTarget::Transform { prop, .. } ==> {
            &&& prop == TransformProp::Translation ==> target_words(t) == "transform:"@
                + "Translation"@
            &&& prop == TransformProp::Rotation ==> target_words(t) == "transform:"@ + "Rotation"@
            &&& prop == TransformProp::Scale ==> target_words(t) == "transform:"@ + "Scale"@
        },
        t matches TrackTarget::Morph { index, .. } ==> target_words(t) == "morph:"@ + decimal(
            index as nat,
        ),
        t matches TrackTarget::Uniform { name, .. } ==> target_words(t) == "uniform:"@ + name@,
        t matches TrackTarget::BuiltinParam { param, .. } ==> target_words(t) == "builtin:"@
            + builtin_name(param),
        t matches TrackTarget::Light { param, .. } ==> target_words(t) == "light:"@ + light_name(
            param,
        ),
        t matches TrackTarget::Camera { param, .. } ==> target_words(t) == "camera:"@ + camera_name(
            param,
        ),
        t matches TrackTarget::TextureTransform { slot, prop, .. } ==> {
            let front = "texuv:"@ + slot_text(slot) + ":"@;
            &&& prop == TextureTransformProp::Offset ==> target_words(t) == front + "Offset"@
            &&& prop == TextureTransformProp::Scale ==> target_words(t) == front + "Scale"@
            &&& prop == TextureTransformProp::Rotation ==> target_words(t) == front + "Rotation"@
        },
{
}

/// A texture that is fetched is named after its file, with the ending of its format in
/// the place of its own.
pub proof fn law_fetched_texture_takes_the_ending(
    path: Seq<char>,
    name: Seq<char>,
    own: Seq<char>,
    ext: Seq<char>,
)
    requires
        forall|i: int| 0 <= i < path.len() ==> #[trigger] path[i] != '?' && path[i] != '#',
        forall|i: int|
            0 <= i < name.len() ==> #[trigger] name[i] != '?' && name[i] != '#' && name[i] != '/',
        forall|i: int|
            0 <= i < own.len() ==> #[trigger] own[i] != '?' && own[i] != '#' && own[i] != '/'
                && own[i] != '.',
        name.len() > 0,
    ensures
        texture_name(path + seq!['/'] + (name + seq!['.'] + own), ext) == name + "."@ + ext,
{
    let file = name + seq!['.'] + own;
    assert forall|i: int| 0 <= i < file.len() implies #[trigger] file[i] != '?' && file[i] != '#'
        && file[i] != '/' by {
        if i < name.len() {
            assert(file[i] == name[i]);
        } else if i > name.len() {
            assert(file[i] == own[i - name.len() - 1]);
        }
    }
    law_file_name_is_the_last_part(path, file, own);
    law_file_name_is_the_last_part(path, name, own);
}

/// An environment that is kept under the place it was fetched from is told by its file
/// name, what follows the last slash; one that is kept under a name is told by it.
pub proof fn law_environment_is_told_by_its_file(
    assets: Map<u128, AssetEntry>,
    id: AssetId,
    path: Seq<char>,
    name: Seq<char>,
    r: EnvSlotSnapshot,
)
    requires
        tells_slot(EnvSlot::Ktx { asset_id: id }, assets, r),
        assets.contains_key(id.0),
        forall|i: int| 0 <= i < name.len() ==> #[trigger] name[i] != '/',
    ensures
        assets[id.0].source matches AssetSource::Url(s) ==> (s@ == path + seq!['/'] + name
            ==> r.label is Some && r.label->0@ == name),
        assets[id.0].source matches AssetSource::Filename(s) ==> r.label is Some && r.label->0@
            == s@,
{
    if let AssetSource::Url(s) = assets[id.0].source {
        if s@ == path + seq!['/'] + name {
            lemma_after_slash(path, name);
        }
    }
}

proof fn lemma_after_slash(path: Seq<char>, name: Seq<char>)
    requires
        forall|i: int| 0 <= i < name.len() ==> #[trigger] name[i] != '/',
    ensures
        crate::snapshot::after_slash(path + seq!['/'] + name) == name,
    decreases name.len(),
{
    let s = path + seq!['/'] + name;
    if name.len() == 0 {
        assert(s.last() == '/');
        assert(s.skip(s.len() as int) =~= name);
    } else {
        lemma_after_slash(path, name.drop_last());
        let t = path + seq!['/'] + name.drop_last();
        assert(s.drop_last() =~= t);
        assert(s.last() == name.last());
        assert(s.last() != '/');
        let k = crate::text::last_of(t, '/');
        assert(t.skip(k + 1) == name.drop_last());
        lemma_last(t, '/');
        assert(s.skip(k + 1) =~= name) by {
            assert(s.skip(k + 1).len() == t.skip(k + 1).len() + 1);
            assert forall|i: int| 0 <= i < name.len() implies s.skip(k + 1)[i] == name[i] by {
                if i < name.len() - 1 {
                    assert(t.skip(k + 1)[i] == t[k + 1 + i]);
                    assert(s[k + 1 + i] == t[k + 1 + i]);
                }
            }
        }
    }
}

proof fn lemma_last(s: Seq<char>, c: char)
    ensures
        -1 <= crate::text::last_of(s, c) < s.len(),
    decreases s.len(),
{
    if s.len() > 0 {
        lemma_last(s.drop_last(), c);
    }
}

/// A new material is named after how it shades and after how many there are by then; a
/// built-in one bears that name in its definition too.
pub proof fn law_new_material_is_named(
    v: LibraryView,
    cmd: LibraryCommand,
    includes: Seq<&'static str>,
    inputs: Seq<&'static str>,
    w: LibraryView,
    r: Result<Option<LibraryCommand>, EditorError>,
    id: AssetId,
)
    requires
        library_step(v, cmd, includes, inputs, w, r),
        !v.has_material(id),
        v.materials.len() < 0xFFFF_FFFF,
    ensures
        cmd matches LibraryCommand::AddCustomMaterial { id: i } ==> (i == id
            ==> w.materials.last().name@ == "New Material "@ + decimal(v.materials.len() + 1)),
        cmd matches LibraryCommand::AddBuiltinMaterial { id: i, shading } ==> (i == id ==> {
            let m = w.materials.last();
            let tail = " Material "@ + decimal(v.materials.len() + 1);
            &&& shading is Pbr ==> m.name@ == "PBR"@ + tail
            &&& shading is Unlit ==> m.name@ == "Unlit"@ + tail
            &&& shading is Toon ==> m.name@ == "Toon"@ + tail
            &&& shading is FlipBook ==> m.name@ == "FlipBook"@ + tail
            &&& m.builtin is Some && m.builtin->0.label == m.name
        }),
{
    if let LibraryCommand::AddBuiltinMaterial { id: i, shading } = cmd {
        if i == id {
            let word = crate::library_edit::shading_name(shading);
            let n = decimal(v.materials.len() + 1);
            assert(word + " Material "@ + n =~= word + (" Material "@ + n));
        }
    }
}

/// With a new project the steps that could be taken back or forth are gone.
pub proof fn law_new_project_forgets_the_past<
    F: Fn(&ModifierStack, &VertexOverrides, &Table<MeshData>) -> MeshData,
>(
    eval: F,
    v: ControllerView,
    cmd: EditorCommand,
    w: ControllerView,
    r: Result<(), EditorError>,
)
    requires
        dispatch_step(eval, v, cmd, w, r),
        cmd is NewProject,
    ensures
        r is Ok ==> w.undo.steps.len() == 0 && w.redo.steps.len() == 0,
        r is Ok ==> w.undo.budget == v.undo.budget && w.redo.budget == v.redo.budget,
{
}

} // verus!

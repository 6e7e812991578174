//! Reloading a project from what was exported of it: the files of a bundle, the
//! state that a reload starts from, what the renderer gives up for it, and whether
//! anything was lost on the way.
use crate::asset_template::{remove_template_meshes, removals, AssetTemplate, Removal};
use crate::clips::{clip_shapes, layer_shapes};
use crate::library_edit::LibraryView;
use crate::list::List;
use crate::mesh_edit::StoreView;
use crate::session::SessionView;
use crate::table::SlotMap;
use crate::text::same_text;
use crate::timeline::TimelineView;
use crate::tree::forest;
use crate::values::F64;
use crate::workspace::{count64, counted64, WorkView, Workspace};
use crate::world::{EnvironmentConfig, World};
use vstd::prelude::*;

verus! {

/// A file of a bundle.
pub struct BundleFile {
    pub path: String,
    pub bytes: List<u8>,
}

/// The files of a bundle: the scene apart from the assets, by their paths.
pub struct Bundle {
    pub scene: List<u8>,
    pub assets: SlotMap<List<u8>>,
}

/// The last scene among files.
pub open spec fn scene_of(files: Seq<BundleFile>) -> Option<List<u8>>
    decreases files.len(),
{
    if files.len() == 0 {
        None
    } else if files.last().path@ == "scene.toml"@ {
        Some(files.last().bytes)
    } else {
        scene_of(files.drop_last())
    }
}

/// The files besides the scene, by their paths; the last one of a path counts.
pub open spec fn assets_of(files: Seq<BundleFile>) -> Map<Seq<char>, List<u8>>
    decreases files.len(),
{
    if files.len() == 0 {
        Map::empty()
    } else if files.last().path@ == "scene.toml"@ {
        assets_of(files.drop_last())
    } else {
        assets_of(files.drop_last()).insert(files.last().path@, files.last().bytes)
    }
}

/// Splits the scene from the other files of a bundle; nothing where there is no
/// scene.
pub fn split_bundle(files: &Vec<BundleFile>) -> (r: Option<Bundle>)
    ensures
        match r {
            Some(b) => scene_of(files@) == Some(b.scene) && b.assets@ == assets_of(files@),
            None => scene_of(files@) is None,
        },
{
    let mut scene: Option<List<u8>> = None;
    let mut assets: SlotMap<List<u8>> = SlotMap::empty();
    let mut i: usize = 0;
    while i < files.len()
        invariant
            i <= files@.len(),
            scene == scene_of(files@.take(i as int)),
            assets@ == assets_of(files@.take(i as int)),
        decreases files@.len() - i,
    {
        let f = &files[i];
        if same_text(&f.path, "scene.toml") {
            scene = Some(f.bytes.clone());
        } else {
            assets = assets.insert(&f.path, f.bytes.clone());
        }
        i += 1;
        assert(files@.take(i as int).drop_last() =~= files@.take(i - 1));
    }
    assert(files@.take(i as int) =~= files@);
    match scene {
        Some(scene) => Some(Bundle { scene, assets }),
        None => None,
    }
}

/// The scene of a bundle is none of its assets.
pub proof fn law_scene_is_no_asset(files: Seq<BundleFile>)
    ensures
        !assets_of(files).contains_key("scene.toml"@),
    decreases files.len(),
{
    if files.len() > 0 {
        law_scene_is_no_asset(files.drop_last());
    }
}

/// The project that a bundle is reloaded into: empty, under the environment of the
/// bundle, with nothing to save. The light comes with the bundle.
pub open spec fn emptied_for(v: WorkView, environment: EnvironmentConfig) -> WorkView {
    WorkView {
        nodes: seq![],
        store: StoreView { assets: Map::empty(), ..v.store },
        library: LibraryView { materials: seq![], current: None },
        timeline: TimelineView {
            clips: seq![],
            current_clip: None,
            layers: seq![],
            selection: None,
            solo_root: None,
            playhead: F64::zero(),
            playing: false,
            ..v.timeline
        },
        world: World { environment, ..v.world },
        skins: Map::empty(),
        session: SessionView { selected: seq![], asset_selection: None, ..v.session },
        buffers: Map::empty(),
        project_name: "round-trip.awsm"@,
        missing_assets: seq![],
        dirty: false,
        baseline: environment,
        scene_revision: counted64(v.scene_revision, true),
        ..v
    }
}

/// The project without what a freshly opened window would not have: the weights of
/// its skins and the words of its buffers, and the geometry too where that is to
/// come back from what was saved.
pub open spec fn chilled(v: WorkView, geometry_too: bool) -> WorkView {
    WorkView {
        skins: Map::empty(),
        buffers: Map::empty(),
        store: StoreView {
            geometry: if geometry_too {
                Map::empty()
            } else {
                v.store.geometry
            },
            ..v.store
        },
        ..v
    }
}

impl Workspace {
    /// Empties the project for the reload of a bundle.
    pub fn empty_for_bundle(&mut self, environment: EnvironmentConfig)
        ensures
            final(self)@ == emptied_for(old(self)@, environment),
    {
        let ghost v = self@;
        self.nodes = Vec::new();
        self.store.assets.clear();
        self.library.materials = Vec::new();
        self.library.current = None;
        self.timeline.clips = Vec::new();
        self.timeline.current_clip = None;
        self.timeline.layers = Vec::new();
        self.timeline.selection = None;
        self.timeline.solo_root = None;
        self.timeline.playhead = F64::zero();
        self.timeline.playing = false;
        self.world.environment = environment;
        self.skins.clear();
        self.session.selected = Vec::new();
        self.session.asset_selection = None;
        crate::buffer_cache::clear(&mut self.buffers);
        self.project_name = "round-trip.awsm".to_owned();
        self.missing_assets = Vec::new();
        self.dirty = false;
        self.env_saved_baseline = environment;
        self.scene_revision = count64(self.scene_revision, true);
        assert(forest(self.nodes@) =~= seq![]);
        assert(clip_shapes(self.timeline.clips@) =~= seq![]);
        assert(layer_shapes(self.timeline.layers@) =~= seq![]);
        assert(self@.skins =~= Map::empty());
        assert(self@ =~= emptied_for(v, environment));
    }

    /// Drops what a freshly opened window would not have.
    pub fn drop_caches(&mut self, geometry_too: bool)
        ensures
            final(self)@ == chilled(old(self)@, geometry_too),
    {
        let ghost v = self@;
        self.skins.clear();
        crate::buffer_cache::clear(&mut self.buffers);
        if geometry_too {
            self.store.geometry.clear();
        }
        assert(self@.skins =~= Map::empty());
        assert(self@ =~= chilled(v, geometry_too));
    }
}

/// What a bundle made in the renderer beside the nodes of the scene.
pub struct BundleResources {
    pub meshes: Vec<u64>,
    pub lights: Vec<u64>,
    pub clips: Vec<u64>,
}

/// A step by which the renderer gives up what no node of the scene stands for.
#[derive(Clone, Copy, PartialEq, Eq, Structural, Debug)]
pub enum Leftover {
    /// Of an import.
    Template(Removal),
    Mesh(u64),
    Light(u64),
    Clip(u64),
    /// Empties the mixer, whose layers play the clips that are gone.
    ClearMixer,
}

/// What imports leave, one import after the other.
pub open spec fn template_leftovers(templates: Seq<AssetTemplate>) -> Seq<Leftover>
    decreases templates.len(),
{
    if templates.len() == 0 {
        seq![]
    } else {
        template_leftovers(templates.drop_last()) + removals(templates.last().roots@).map_values(
            |r: Removal| Leftover::Template(r),
        )
    }
}

/// What a bundle leaves: its meshes, its lights and its clips. The mixer is emptied
/// only where there were clips.
pub open spec fn bundle_leftovers(meshes: Seq<u64>, lights: Seq<u64>, clips: Seq<u64>) -> Seq<
    Leftover,
> {
    meshes.map_values(|k: u64| Leftover::Mesh(k)) + lights.map_values(|k: u64| Leftover::Light(k))
        + clips.map_values(|k: u64| Leftover::Clip(k)) + if clips.len() > 0 {
        seq![Leftover::ClearMixer]
    } else {
        seq![]
    }
}

impl BundleResources {
    /// What there is before any bundle was loaded.
    pub fn new() -> (r: Self)
        ensures
            r.meshes@ == Seq::<u64>::empty(),
            r.lights@ == Seq::<u64>::empty(),
            r.clips@ == Seq::<u64>::empty(),
    {
        BundleResources { meshes: Vec::new(), lights: Vec::new(), clips: Vec::new() }
    }

    /// Keeps what a bundle has just made, for the next reset of the project.
    pub fn set_bundle_resources(&mut self, meshes: Vec<u64>, lights: Vec<u64>, clips: Vec<u64>)
        ensures
            *final(self) == (BundleResources { meshes, lights, clips }),
    {
        *self = BundleResources { meshes, lights, clips };
    }

    /// Tells what the renderer gives up on a reset of the project, in order, and
    /// forgets what the last bundle made.
    pub fn clear_untracked_renderer_resources(&mut self, templates: &Vec<AssetTemplate>) -> (r: Vec<
        Leftover,
    >)
        ensures
            r@ == template_leftovers(templates@) + bundle_leftovers(
                old(self).meshes@,
                old(self).lights@,
                old(self).clips@,
            ),
            final(self).meshes@ == Seq::<u64>::empty(),
            final(self).lights@ == Seq::<u64>::empty(),
            final(self).clips@ == Seq::<u64>::empty(),
    {
        let mut out: Vec<Leftover> = Vec::new();
        let mut i: usize = 0;
        while i < templates.len()
            invariant
                i <= templates@.len(),
                out@ == template_leftovers(templates@.take(i as int)),
            decreases templates@.len() - i,
        {
            push_template(&templates[i], &mut out);
            i += 1;
            assert(templates@.take(i as int).drop_last() =~= templates@.take(i - 1));
        }
        assert(templates@.take(i as int) =~= templates@);
        let ghost start = out@;
        let ghost meshes = self.meshes@.map_values(|k: u64| Leftover::Mesh(k));
        let ghost lights = self.lights@.map_values(|k: u64| Leftover::Light(k));
        let ghost clips = self.clips@.map_values(|k: u64| Leftover::Clip(k));
        i = 0;
        while i < self.meshes.len()
            invariant
                i <= self.meshes@.len(),
                meshes == self.meshes@.map_values(|k: u64| Leftover::Mesh(k)),
                out@ == start + meshes.take(i as int),
            decreases self.meshes@.len() - i,
        {
            out.push(Leftover::Mesh(self.meshes[i]));
            i += 1;
            assert(out@ =~= start + meshes.take(i as int));
        }
        assert(meshes.take(i as int) =~= meshes);
        i = 0;
        while i < self.lights.len()
            invariant
                i <= self.lights@.len(),
                lights == self.lights@.map_values(|k: u64| Leftover::Light(k)),
                out@ == start + meshes + lights.take(i as int),
            decreases self.lights@.len() - i,
        {
            out.push(Leftover::Light(self.lights[i]));
            i += 1;
            assert(out@ =~= start + meshes + lights.take(i as int));
        }
        assert(lights.take(i as int) =~= lights);
        i = 0;
        while i < self.clips.len()
            invariant
                i <= self.clips@.len(),
                clips == self.clips@.map_values(|k: u64| Leftover::Clip(k)),
                out@ == start + meshes + lights + clips.take(i as int),
            decreases self.clips@.len() - i,
        {
            out.push(Leftover::Clip(self.clips[i]));
            i += 1;
            assert(out@ =~= start + meshes + lights + clips.take(i as int));
        }
        assert(clips.take(i as int) =~= clips);
        if self.clips.len() > 0 {
            out.push(Leftover::ClearMixer);
        }
        assert(out@ =~= start + bundle_leftovers(self.meshes@, self.lights@, self.clips@));
        *self = BundleResources::new();
        out
    }
}

/// Appends what an import leaves.
fn push_template(template: &AssetTemplate, out: &mut Vec<Leftover>)
    ensures
        final(out)@ == old(out)@ + removals(template.roots@).map_values(
            |r: Removal| Leftover::Template(r),
        ),
{
    let gone = remove_template_meshes(template);
    let ghost start = out@;
    let ghost all = gone@.map_values(|r: Removal| Leftover::Template(r));
    let mut i: usize = 0;
    while i < gone.len()
        invariant
            i <= gone@.len(),
            all == gone@.map_values(|r: Removal| Leftover::Template(r)),
            out@ == start + all.take(i as int),
        decreases gone@.len() - i,
    {
        out.push(Leftover::Template(gone[i]));
        i += 1;
        assert(out@ =~= start + all.take(i as int));
    }
    assert(all.take(i as int) =~= all);
}

/// The mixer is emptied exactly where clips of a bundle go.
pub proof fn law_mixer_goes_with_clips(meshes: Seq<u64>, lights: Seq<u64>, clips: Seq<u64>)
    ensures
        bundle_leftovers(meshes, lights, clips).contains(Leftover::ClearMixer) <==> clips.len() > 0,
{
    let all = bundle_leftovers(meshes, lights, clips);
    if clips.len() > 0 {
        assert(all[all.len() - 1] == Leftover::ClearMixer);
    }
}

/// What saving a project and opening it again came to.
#[derive(Clone, Copy, PartialEq, Eq, Structural, Debug)]
pub struct Roundtrip {
    /// The counts before and after are the same.
    pub equal: bool,
    /// Everything of the reopened project can be saved again.
    pub after_complete: bool,
    pub lossless: bool,
}

/// Judges a round trip: nothing is lost where the counts are the same and
/// everything can be saved again.
pub fn judge_roundtrip(equal: bool, after_complete: bool) -> (r: Roundtrip)
    ensures
        r == (Roundtrip { equal, after_complete, lossless: equal && after_complete }),
{
    Roundtrip { equal, after_complete, lossless: equal && after_complete }
}

/// What is said of a round trip.
pub fn roundtrip_text(r: Roundtrip) -> (s: &'static str)
    ensures
        s@ == if r.lossless {
            "Verify round-trip: LOSSLESS (census identical)"@
        } else {
            "Verify round-trip: census MISMATCH \u{2014} see verify_roundtrip_report"@
        },
{
    if r.lossless {
        "Verify round-trip: LOSSLESS (census identical)"
    } else {
        "Verify round-trip: census MISMATCH \u{2014} see verify_roundtrip_report"
    }
}

/// A project that a bundle was reloaded into has nothing to save, neither of the
/// project nor of its environment.
pub proof fn law_reloaded_project_is_saved(v: WorkView, environment: EnvironmentConfig)
    ensures
        !emptied_for(v, environment).dirty,
        emptied_for(v, environment).baseline == emptied_for(v, environment).world.environment,
{
}

} // verus!

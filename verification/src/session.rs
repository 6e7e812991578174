//! What a window shows: its mode, what is selected in it, and its settings. None
//! of it belongs to the project, and none of it can be undone.
use crate::ids::{AssetId, NodeId};
use crate::list::{List, Same};
use crate::palette::{kept, or_kept};
use crate::values::F64;
use vstd::prelude::*;

verus! {

#[derive(Clone, Copy, PartialEq, Eq, Structural, Debug)]
pub enum EditorMode {
    Scene,
    Material,
    Animation,
}

/// The bit pattern of five thousand.
pub const FAR_BITS: u64 = 0x40B3_8800_0000_0000;

/// The settings of a window: what the viewport shows, and units.
pub struct Settings {
    pub grid: bool,
    pub gizmo: bool,
    pub light_gizmos: bool,
    pub skeleton_viz: bool,
    pub auto_key: bool,
    pub msaa: bool,
    pub smaa: bool,
    pub heatmap: bool,
    pub shadow_denoise: bool,
    pub snap: bool,
    pub units: String,
    pub editor_ortho: bool,
    pub cam_clip_manual: bool,
    pub cam_clip_near: F64,
    pub cam_clip_far: F64,
}

impl Same for Settings {
    fn same(&self) -> (res: Self) {
        Settings { units: self.units.clone(), ..*self }
    }
}

/// Whether settings are those that a window starts with.
pub open spec fn initial_settings(s: Settings) -> bool {
    &&& !s.grid
    &&& s.gizmo
    &&& !s.light_gizmos
    &&& s.skeleton_viz
    &&& s.auto_key
    &&& s.msaa
    &&& !s.smaa
    &&& !s.heatmap
    &&& s.shadow_denoise
    &&& !s.snap
    &&& s.units@ == "meters"@
    &&& !s.editor_ortho
    &&& !s.cam_clip_manual
    &&& s.cam_clip_near == F64::one()
    &&& s.cam_clip_far == (F64 { bits: FAR_BITS })
}

impl Default for Settings {
    /// The settings that a window starts with.
    fn default() -> (s: Settings)
        ensures
            initial_settings(s),
    {
        Settings {
            grid: false,
            gizmo: true,
            light_gizmos: false,
            skeleton_viz: true,
            auto_key: true,
            msaa: true,
            smaa: false,
            heatmap: false,
            shadow_denoise: true,
            snap: false,
            units: "meters".to_owned(),
            editor_ortho: false,
            cam_clip_manual: false,
            cam_clip_near: F64::one(),
            cam_clip_far: F64 { bits: FAR_BITS },
        }
    }
}

/// New values for some of the view options.
#[derive(Clone, Copy, PartialEq, Eq, Structural, Debug)]
pub struct ViewPatch {
    pub grid: Option<bool>,
    pub gizmos: Option<bool>,
    pub light_gizmos: Option<bool>,
    pub skeleton_viz: Option<bool>,
    pub follow_agent: Option<bool>,
    pub activity_overlay: Option<bool>,
    pub mcp_notifications: Option<bool>,
    pub msaa: Option<bool>,
    pub smaa: Option<bool>,
}

pub enum ViewCommand {
    SwitchMode(EditorMode),
    SetSelection(List<NodeId>),
    SetVertexSelection { node: NodeId, indices: List<u32> },
    SetAssetSelection(Option<AssetId>),
    SetViewOptions(ViewPatch),
    SetCameraProjection { perspective: bool },
    SetCameraClip { manual: Option<bool>, near: Option<F64>, far: Option<F64> },
}

/// What a window shows.
pub struct Session {
    pub mode: EditorMode,
    pub selected: Vec<NodeId>,
    pub vertex_selection: Option<(NodeId, List<u32>)>,
    pub asset_selection: Option<AssetId>,
    pub settings: Settings,
    pub follow_agent: bool,
    pub activity_overlay: bool,
    pub mcp_notifications: bool,
}

/// What a window shows, as a value.
#[verifier::ext_equal]
pub struct SessionView {
    pub mode: EditorMode,
    pub selected: Seq<NodeId>,
    pub vertex_selection: Option<(NodeId, List<u32>)>,
    pub asset_selection: Option<AssetId>,
    pub settings: Settings,
    pub follow_agent: bool,
    pub activity_overlay: bool,
    pub mcp_notifications: bool,
}

impl View for Session {
    type V = SessionView;

    open spec fn view(&self) -> SessionView {
        SessionView {
            mode: self.mode,
            selected: self.selected@,
            vertex_selection: self.vertex_selection,
            asset_selection: self.asset_selection,
            settings: self.settings,
            follow_agent: self.follow_agent,
            activity_overlay: self.activity_overlay,
            mcp_notifications: self.mcp_notifications,
        }
    }
}

/// The settings after a patch of the view options.
pub open spec fn options_patched(s: Settings, p: ViewPatch) -> Settings {
    Settings {
        grid: or_kept(p.grid, s.grid),
        gizmo: or_kept(p.gizmos, s.gizmo),
        light_gizmos: or_kept(p.light_gizmos, s.light_gizmos),
        skeleton_viz: or_kept(p.skeleton_viz, s.skeleton_viz),
        msaa: or_kept(p.msaa, s.msaa),
        smaa: or_kept(p.smaa, s.smaa),
        ..s
    }
}

fn patch_settings(s: &Settings, p: ViewPatch) -> (r: Settings)
    ensures
        r == options_patched(*s, p),
{
    Settings {
        grid: kept(p.grid, s.grid),
        gizmo: kept(p.gizmos, s.gizmo),
        light_gizmos: kept(p.light_gizmos, s.light_gizmos),
        skeleton_viz: kept(p.skeleton_viz, s.skeleton_viz),
        auto_key: s.auto_key,
        msaa: kept(p.msaa, s.msaa),
        smaa: kept(p.smaa, s.smaa),
        heatmap: s.heatmap,
        shadow_denoise: s.shadow_denoise,
        snap: s.snap,
        units: s.units.clone(),
        editor_ortho: s.editor_ortho,
        cam_clip_manual: s.cam_clip_manual,
        cam_clip_near: s.cam_clip_near,
        cam_clip_far: s.cam_clip_far,
    }
}

/// The settings with other clip planes.
pub open spec fn clip_patched(
    s: Settings,
    manual: Option<bool>,
    near: Option<F64>,
    far: Option<F64>,
) -> Settings {
    Settings {
        cam_clip_manual: or_kept(manual, s.cam_clip_manual),
        cam_clip_near: or_kept(near, s.cam_clip_near),
        cam_clip_far: or_kept(far, s.cam_clip_far),
        ..s
    }
}

fn clip_settings(s: &Settings, manual: Option<bool>, near: Option<F64>, far: Option<F64>) -> (r:
    Settings)
    ensures
        r == clip_patched(*s, manual, near, far),
{
    Settings {
        grid: s.grid,
        gizmo: s.gizmo,
        light_gizmos: s.light_gizmos,
        skeleton_viz: s.skeleton_viz,
        auto_key: s.auto_key,
        msaa: s.msaa,
        smaa: s.smaa,
        heatmap: s.heatmap,
        shadow_denoise: s.shadow_denoise,
        snap: s.snap,
        units: s.units.clone(),
        editor_ortho: s.editor_ortho,
        cam_clip_manual: kept(manual, s.cam_clip_manual),
        cam_clip_near: kept(near, s.cam_clip_near),
        cam_clip_far: kept(far, s.cam_clip_far),
    }
}

/// The window after a command.
pub open spec fn view_after(s: SessionView, cmd: ViewCommand) -> SessionView {
    match cmd {
        ViewCommand::SwitchMode(mode) => SessionView { mode, ..s },
        ViewCommand::SetSelection(ids) => SessionView { selected: ids@, ..s },
        ViewCommand::SetVertexSelection { node, indices } => SessionView {
            vertex_selection: if indices@.len() == 0 {
                None
            } else {
                Some((node, indices))
            },
            ..s
        },
        ViewCommand::SetAssetSelection(id) => SessionView { asset_selection: id, ..s },
        ViewCommand::SetViewOptions(p) => SessionView {
            settings: options_patched(s.settings, p),
            follow_agent: or_kept(p.follow_agent, s.follow_agent),
            activity_overlay: or_kept(p.activity_overlay, s.activity_overlay),
            mcp_notifications: or_kept(p.mcp_notifications, s.mcp_notifications),
            ..s
        },
        ViewCommand::SetCameraProjection { perspective } => SessionView {
            settings: Settings { editor_ortho: !perspective, ..s.settings },
            ..s
        },
        ViewCommand::SetCameraClip { manual, near, far } => SessionView {
            settings: clip_patched(s.settings, manual, near, far),
            ..s
        },
    }
}

/// Whether a window shows nothing but its defaults.
pub open spec fn fresh_session(s: SessionView) -> bool {
    &&& s.mode == EditorMode::Scene
    &&& s.selected.len() == 0
    &&& s.vertex_selection is None
    &&& s.asset_selection is None
    &&& initial_settings(s.settings)
    &&& s.follow_agent
    &&& s.activity_overlay
    &&& s.mcp_notifications
}

impl Session {
    /// A window with nothing selected.
    pub fn new() -> (s: Session)
        ensures
            fresh_session(s@),
    {
        Session {
            mode: EditorMode::Scene,
            selected: Vec::new(),
            vertex_selection: None,
            asset_selection: None,
            settings: Settings::default(),
            follow_agent: true,
            activity_overlay: true,
            mcp_notifications: true,
        }
    }

    /// Applies a command of the window.
    pub fn apply_view(&mut self, cmd: ViewCommand)
        ensures
            final(self)@ == view_after(old(self)@, cmd),
    {
        match cmd {
            ViewCommand::SwitchMode(mode) => {
                self.mode = mode;
            },
            ViewCommand::SetSelection(ids) => {
                self.selected = ids.to_vec();
            },
            ViewCommand::SetVertexSelection { node, indices } => {
                self.vertex_selection = if indices.is_empty() {
                    None
                } else {
                    Some((node, indices))
                };
            },
            ViewCommand::SetAssetSelection(id) => {
                self.asset_selection = id;
            },
            ViewCommand::SetViewOptions(p) => {
                self.settings = patch_settings(&self.settings, p);
                self.follow_agent = kept(p.follow_agent, self.follow_agent);
                self.activity_overlay = kept(p.activity_overlay, self.activity_overlay);
                self.mcp_notifications = kept(p.mcp_notifications, self.mcp_notifications);
            },
            ViewCommand::SetCameraProjection { perspective } => {
                self.settings.editor_ortho = !perspective;
            },
            ViewCommand::SetCameraClip { manual, near, far } => {
                self.settings = clip_settings(&self.settings, manual, near, far);
            },
        }
    }
}

} // verus!

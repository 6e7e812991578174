//! The animation side of a project: its clips, the transport and the mixer, and
//! the commands that edit them. Each edit hands back the command that takes it
//! back, where it can be undone.
use crate::clips::{
    clip_at, clip_shapes, empty_track, find_clip, find_track, flat_key, fresh_clip, is_clip,
    layer_shapes, new_keyframe, sampler_to_interp, sort_keys, track_shapes, by_time,
    law_keys_are_put_in_order, sorted, Clip, ClipShape, Interp, Keyframe, LayerDoc, LayerMode,
    LayerShape, LoopStyle, PlayDirection, SamplerKind, StripDoc, Track, TrackShape, TrackTarget,
    TrackValue,
};
use crate::custom_material::{find_material, material_at, CustomMaterial};
use crate::errors::EditorError;
use crate::find::lemma_first;
use crate::ids::{AssetId, NodeId};
use crate::list::{List, Same};
use crate::text::{any_ink, decimal, decimal_text, has_ink, joined};
use crate::tree::{forest, has_node, within, Node, Tree};
use crate::values::{F32, F64};
use vstd::prelude::*;

verus! {

/// What is selected on the timeline.
#[derive(Clone, Copy, PartialEq, Eq, Structural, Debug)]
pub enum AnimSel {
    Track { clip: AssetId, track: usize },
    Key { clip: AssetId, track: usize, index: usize },
}

/// Which editor the timeline dock shows.
#[derive(Clone, Copy, PartialEq, Eq, Structural, Debug)]
pub enum AnimView {
    Dope,
    Curves,
    Mixer,
}

/// Where a transport step leads.
#[derive(Clone, Copy, PartialEq, Eq, Structural, Debug)]
pub enum StepKind {
    Home,
    End,
    Prev,
    Next,
}

/// Clips, transport and mixer.
pub struct Timeline {
    pub clips: Vec<Clip>,
    pub current_clip: Option<AssetId>,
    pub playhead: F64,
    pub playing: bool,
    pub fps: u32,
    pub solo_root: Option<NodeId>,
    pub selection: Option<AnimSel>,
    pub dock: AnimView,
    pub layers: Vec<LayerDoc>,
}

/// A timeline as a value.
#[verifier::ext_equal]
pub struct TimelineView {
    pub clips: Seq<ClipShape>,
    pub current_clip: Option<AssetId>,
    pub playhead: F64,
    pub playing: bool,
    pub fps: u32,
    pub solo_root: Option<NodeId>,
    pub selection: Option<AnimSel>,
    pub dock: AnimView,
    pub layers: Seq<LayerShape>,
}

impl View for Timeline {
    type V = TimelineView;

    open spec fn view(&self) -> TimelineView {
        TimelineView {
            clips: clip_shapes(self.clips@),
            current_clip: self.current_clip,
            playhead: self.playhead,
            playing: self.playing,
            fps: self.fps,
            solo_root: self.solo_root,
            selection: self.selection,
            dock: self.dock,
            layers: layer_shapes(self.layers@),
        }
    }
}

/// Edits of whole clips.
#[allow(inconsistent_fields)]
pub enum ClipCommand {
    AddClip { id: AssetId, name: Option<String> },
    DeleteClip { id: AssetId },
    DuplicateClip { id: AssetId, new_id: AssetId },
    SetCurrentClip { current: Option<AssetId> },
    RenameClip { id: AssetId, text: String },
    SetClipDuration { id: AssetId, duration: F64 },
    SetClipLoop { id: AssetId, loop_style: LoopStyle },
    SetClipSpeed { id: AssetId, speed: F64 },
    SetClipDirection { id: AssetId, direction: PlayDirection },
    SetClipColor { id: AssetId, color: String },
}

/// Edits of tracks and their keys.
#[allow(inconsistent_fields)]
pub enum TrackCommand {
    AddTrack { clip: AssetId, target: TrackTarget },
    /// A rotation track with the keys of full turns, as the caller computed them.
    AddSpinTrack { clip: AssetId, node: NodeId, times: List<F64>, keys: List<Keyframe> },
    DeleteTrack { clip: AssetId, track: usize },
    RestoreTrack { clip: AssetId, index: usize, doc: Track },
    SetTrackSampler { clip: AssetId, track: usize, sampler: SamplerKind },
    SetTrackMute { clip: AssetId, track: usize, mute: bool },
    SetTrackSolo { clip: AssetId, track: usize, solo: bool },
    /// Replaces all keys: by `keys` where there are any, else by one flat key
    /// for each value.
    SetTrackKeys {
        clip: AssetId,
        track: usize,
        times: List<F64>,
        values: List<TrackValue>,
        interp: Option<Interp>,
        keys: List<Keyframe>,
    },
    /// Adds a key at a time. `coincident` is the first key whose time is almost
    /// the same, where there is one: that key is replaced.
    AddKeyframe {
        clip: AssetId,
        track: usize,
        time: F64,
        value: TrackValue,
        interp: Option<Interp>,
        coincident: Option<usize>,
    },
    DeleteKeyframe { clip: AssetId, track: usize, index: usize },
    InsertKeyframe { clip: AssetId, track: usize, index: usize, time: F64, key: Keyframe },
    SetKeyframe { clip: AssetId, track: usize, index: usize, change: KeyChange },
}

/// New values for some of the parts of a key.
#[derive(Clone, Copy, PartialEq, Eq, Structural, Debug)]
pub struct KeyChange {
    pub time: Option<F64>,
    pub value: Option<TrackValue>,
    pub interp: Option<Interp>,
    pub in_tangent: Option<TrackValue>,
    pub out_tangent: Option<TrackValue>,
}

/// The transport and what the dock shows.
pub enum TransportCommand {
    SetPlayhead { time: F64 },
    SetPlaying { on: bool },
    /// Steps to a key; one counts as the next where it lies past `beyond`.
    StepPlayhead { kind: StepKind, beyond: F64 },
    SetAnimFps { fps: u32 },
    SetSoloRoot { id: Option<NodeId> },
    SetAnimSelection { sel: Option<AnimSel> },
    SetAnimView { view: AnimView },
}

/// Edits of the mixer.
#[allow(inconsistent_fields)]
pub enum MixerCommand {
    AddLayer,
    DeleteLayer { layer: usize },
    RestoreLayer { layer: usize, whole: LayerDoc },
    SetLayerMode { layer: usize, mode: LayerMode },
    SetLayerWeight { layer: usize, weight: F32 },
    SetLayerMask { layer: usize, nodes: List<NodeId>, include_descendants: bool },
    AddStrip { layer: usize, clip: AssetId, start: F64, len: F64 },
    DeleteStrip { layer: usize, strip: usize },
    RestoreStrip { layer: usize, strip: usize, doc: StripDoc },
    MoveStrip { layer: usize, strip: usize, start: F64 },
    TrimStrip { layer: usize, strip: usize, start: F64, len: F64 },
    SetStripRepeat { layer: usize, strip: usize, repeat: bool },
}

impl TimelineView {
    pub open spec fn has_clip(self, id: AssetId) -> bool {
        0 <= clip_at(self.clips, id) < self.clips.len()
    }

    /// The clip with the id.
    pub open spec fn clip(self, id: AssetId) -> ClipShape {
        self.clips[clip_at(self.clips, id)]
    }

    /// The timeline with the clip of that id replaced.
    pub open spec fn with_clip(self, id: AssetId, c: ClipShape) -> TimelineView {
        TimelineView { clips: self.clips.update(clip_at(self.clips, id), c), ..self }
    }

    pub open spec fn has_track(self, clip: AssetId, track: usize) -> bool {
        self.has_clip(clip) && track < self.clip(clip).tracks.len()
    }

    pub open spec fn track(self, clip: AssetId, track: usize) -> TrackShape {
        self.clip(clip).tracks[track as int]
    }

    /// The timeline with other tracks in a clip.
    pub open spec fn with_tracks(self, clip: AssetId, tracks: Seq<TrackShape>) -> TimelineView {
        self.with_clip(clip, ClipShape { tracks, ..self.clip(clip) })
    }

    /// The timeline with one track replaced.
    pub open spec fn with_track(self, clip: AssetId, track: usize, t: TrackShape) -> TimelineView {
        self.with_tracks(clip, self.clip(clip).tracks.update(track as int, t))
    }
}

/// The clips without those of an id.
pub open spec fn without_clip(cs: Seq<ClipShape>, id: AssetId) -> Seq<ClipShape>
    decreases cs.len(),
{
    if cs.len() == 0 {
        seq![]
    } else if cs.last().id == id {
        without_clip(cs.drop_last(), id)
    } else {
        without_clip(cs.drop_last(), id).push(cs.last())
    }
}

/// The number behind the last of `n`.
pub open spec fn next_number(n: nat) -> nat {
    if n >= u64::MAX {
        u64::MAX as nat
    } else {
        n + 1
    }
}

/// The name of an added clip: the one given, unless it is blank.
pub open spec fn clip_name(name: Option<String>, count: nat) -> Seq<char> {
    match name {
        Some(s) => if has_ink(s@) {
            s@
        } else {
            "Clip "@ + decimal(next_number(count))
        },
        None => "Clip "@ + decimal(next_number(count)),
    }
}

/// The timeline after an edit of clips; a refused edit changes nothing.
pub open spec fn clip_after(v: TimelineView, cmd: ClipCommand) -> TimelineView {
    match cmd {
        ClipCommand::AddClip { id, name } => TimelineView {
            clips: if v.has_clip(id) {
                v.clips
            } else {
                v.clips.push(fresh_clip(id, clip_name(name, v.clips.len())))
            },
            current_clip: Some(id),
            ..v
        },
        ClipCommand::DeleteClip { id } => {
            let rest = without_clip(v.clips, id);
            TimelineView {
                clips: rest,
                current_clip: if v.current_clip == Some(id) {
                    if rest.len() > 0 {
                        Some(rest[0].id)
                    } else {
                        None
                    }
                } else {
                    v.current_clip
                },
                ..v
            }
        },
        ClipCommand::DuplicateClip { id, new_id } => if v.has_clip(id) {
            TimelineView {
                clips: v.clips.push(
                    ClipShape {
                        id: new_id,
                        name: v.clip(id).name + " copy"@,
                        ..v.clip(id)
                    },
                ),
                current_clip: Some(new_id),
                ..v
            }
        } else {
            v
        },
        ClipCommand::SetCurrentClip { current } => TimelineView { current_clip: current, ..v },
        ClipCommand::RenameClip { id, text } => if v.has_clip(id) {
            v.with_clip(id, ClipShape { name: text@, ..v.clip(id) })
        } else {
            v
        },
        ClipCommand::SetClipDuration { id, duration } => if v.has_clip(id) {
            v.with_clip(id, ClipShape { duration: duration.floored(), ..v.clip(id) })
        } else {
            v
        },
        ClipCommand::SetClipLoop { id, loop_style } => if v.has_clip(id) {
            v.with_clip(id, ClipShape { loop_style, ..v.clip(id) })
        } else {
            v
        },
        ClipCommand::SetClipSpeed { id, speed } => if v.has_clip(id) {
            v.with_clip(id, ClipShape { speed, ..v.clip(id) })
        } else {
            v
        },
        ClipCommand::SetClipDirection { id, direction } => if v.has_clip(id) {
            v.with_clip(id, ClipShape { direction, ..v.clip(id) })
        } else {
            v
        },
        ClipCommand::SetClipColor { id, color } => if v.has_clip(id) {
            v.with_clip(id, ClipShape { color: color@, ..v.clip(id) })
        } else {
            v
        },
    }
}

/// Whether an edit of clips is refused: it changes a clip that is not there.
pub open spec fn clip_refused(v: TimelineView, cmd: ClipCommand) -> bool {
    match cmd {
        ClipCommand::AddClip { .. }
        | ClipCommand::DeleteClip { .. }
        | ClipCommand::DuplicateClip { .. }
        | ClipCommand::SetCurrentClip { .. } => false,
        ClipCommand::RenameClip { id, .. } => !v.has_clip(id),
        ClipCommand::SetClipDuration { id, .. } => !v.has_clip(id),
        ClipCommand::SetClipLoop { id, .. } => !v.has_clip(id),
        ClipCommand::SetClipSpeed { id, .. } => !v.has_clip(id),
        ClipCommand::SetClipDirection { id, .. } => !v.has_clip(id),
        ClipCommand::SetClipColor { id, .. } => !v.has_clip(id),
    }
}

/// What takes an edit of clips back.
pub open spec fn clip_inverse(v: TimelineView, cmd: ClipCommand, inv: Option<ClipCommand>) -> bool {
    match cmd {
        ClipCommand::AddClip { .. }
        | ClipCommand::DeleteClip { .. }
        | ClipCommand::DuplicateClip { .. }
        | ClipCommand::SetCurrentClip { .. } => inv is None,
        ClipCommand::RenameClip { id, .. } => inv matches Some(
            ClipCommand::RenameClip { id: i, text },
        ) && i == id && text@ == v.clip(id).name,
        ClipCommand::SetClipDuration { id, .. } => inv == Some(
            ClipCommand::SetClipDuration { id, duration: v.clip(id).duration },
        ),
        ClipCommand::SetClipLoop { id, .. } => inv == Some(
            ClipCommand::SetClipLoop { id, loop_style: v.clip(id).loop_style },
        ),
        ClipCommand::SetClipSpeed { id, .. } => inv == Some(
            ClipCommand::SetClipSpeed { id, speed: v.clip(id).speed },
        ),
        ClipCommand::SetClipDirection { id, .. } => inv == Some(
            ClipCommand::SetClipDirection { id, direction: v.clip(id).direction },
        ),
        ClipCommand::SetClipColor { id, .. } => inv matches Some(
            ClipCommand::SetClipColor { id: i, color },
        ) && i == id && color@ == v.clip(id).color,
    }
}

/// A clip stays where it is when it is replaced by one with its id.
pub proof fn lemma_clip_kept(cs: Seq<ClipShape>, id: AssetId, c: ClipShape)
    requires
        0 <= clip_at(cs, id) < cs.len(),
        c.id == id,
    ensures
        clip_at(cs.update(clip_at(cs, id), c), id) == clip_at(cs, id),
{
    let i = clip_at(cs, id);
    lemma_first(cs, is_clip(id));
    crate::find::lemma_first_is(cs.update(i, c), is_clip(id), i);
}

/// Taking back an edit of a clip leads to the timeline before it. A length that
/// is negative or not a number cannot be set again, so it is left out.
pub proof fn law_clip_edit_is_undone(v: TimelineView, cmd: ClipCommand, inv: ClipCommand)
    requires
        !clip_refused(v, cmd),
        clip_inverse(v, cmd, Some(inv)),
        cmd matches ClipCommand::SetClipDuration { id, .. } ==> v.clip(id).duration.floored()
            == v.clip(id).duration,
    ensures
        !clip_refused(clip_after(v, cmd), inv),
        clip_after(clip_after(v, cmd), inv) == v,
{
    let id = match cmd {
        ClipCommand::RenameClip { id, .. } => id,
        ClipCommand::SetClipDuration { id, .. } => id,
        ClipCommand::SetClipLoop { id, .. } => id,
        ClipCommand::SetClipSpeed { id, .. } => id,
        ClipCommand::SetClipDirection { id, .. } => id,
        ClipCommand::SetClipColor { id, .. } => id,
        ClipCommand::AddClip { id, .. } => id,
        ClipCommand::DeleteClip { id, .. } => id,
        ClipCommand::DuplicateClip { id, .. } => id,
        ClipCommand::SetCurrentClip { .. } => AssetId(0),
    };
    let mid = clip_after(v, cmd);
    lemma_first(v.clips, is_clip(id));
    assert(mid.clips =~= v.clips.update(clip_at(v.clips, id), mid.clips[clip_at(v.clips, id)]));
    lemma_clip_kept(v.clips, id, mid.clips[clip_at(v.clips, id)]);
    assert(clip_after(mid, inv) =~= v);
}

fn one_more(n: usize) -> (r: u64)
    ensures
        r == next_number(n as nat),
{
    let n: u64 = n as u64;
    if n == u64::MAX {
        u64::MAX
    } else {
        n + 1
    }
}

impl Timeline {
    /// An empty timeline at thirty frames a second.
    pub fn new() -> (t: Timeline)
        ensures
            t@ == empty_timeline(),
    {
        let t = Timeline {
            clips: Vec::new(),
            current_clip: None,
            playhead: F64::zero(),
            playing: false,
            fps: 30,
            solo_root: None,
            selection: None,
            dock: AnimView::Dope,
            layers: Vec::new(),
        };
        assert(t@ =~= empty_timeline());
        t
    }

    fn put_clip(&mut self, i: usize, c: Clip)
        requires
            i < old(self).clips@.len(),
        ensures
            final(self)@ == (TimelineView {
                clips: old(self)@.clips.update(i as int, c.shape()),
                ..old(self)@
            }),
    {
        let ghost before = self@;
        self.clips.set(i, c);
        assert(self@ =~= TimelineView { clips: before.clips.update(i as int, c.shape()), ..before });
    }

    fn add_clip(&mut self, c: Clip)
        ensures
            final(self)@ == (TimelineView {
                clips: old(self)@.clips.push(c.shape()),
                ..old(self)@
            }),
    {
        let ghost before = self@;
        self.clips.push(c);
        assert(self@ =~= TimelineView { clips: before.clips.push(c.shape()), ..before });
    }

    fn drop_clip(&mut self, id: AssetId)
        ensures
            final(self)@ == (TimelineView {
                clips: without_clip(old(self)@.clips, id),
                ..old(self)@
            }),
    {
        let ghost before = self@;
        let mut rest: Vec<Clip> = Vec::new();
        let mut i: usize = 0;
        while i < self.clips.len()
            invariant
                self@ == before,
                i <= self.clips@.len(),
                clip_shapes(rest@) == without_clip(before.clips.take(i as int), id),
            decreases self.clips@.len() - i,
        {
            let c = self.clips[i].same();
            assert(before.clips.take(i + 1).drop_last() =~= before.clips.take(i as int));
            assert(before.clips.take(i + 1).last() == c.shape());
            if c.id != id {
                rest.push(c);
                assert(clip_shapes(rest@) =~= without_clip(
                    before.clips.take(i as int),
                    id,
                ).push(c.shape()));
            }
            i += 1;
        }
        assert(before.clips.take(i as int) =~= before.clips);
        self.clips = rest;
        assert(self@ =~= TimelineView { clips: without_clip(before.clips, id), ..before });
    }

    fn set_name(&mut self, id: AssetId, new: String) -> (r: Option<String>)
        ensures
            match r {
                Some(prev) => {
                    &&& old(self)@.has_clip(id)
                    &&& prev@ == old(self)@.clip(id).name
                    &&& final(self)@ == old(self)@.with_clip(
                        id,
                        ClipShape { name: new@, ..old(self)@.clip(id) },
                    )
                },
                None => !old(self)@.has_clip(id) && final(self)@ == old(self)@,
            },
    {
        match find_clip(&self.clips, id) {
            Some(i) => {
                let prev = self.clips[i].name.clone();
                let mut c = self.clips[i].same();
                c.name = new;
                self.put_clip(i, c);
                Some(prev)
            },
            None => None,
        }
    }

    fn set_duration(&mut self, id: AssetId, new: F64) -> (r: Option<F64>)
        ensures
            match r {
                Some(prev) => {
                    &&& old(self)@.has_clip(id)
                    &&& prev == old(self)@.clip(id).duration
                    &&& final(self)@ == old(self)@.with_clip(
                        id,
                        ClipShape { duration: new.floored(), ..old(self)@.clip(id) },
                    )
                },
                None => !old(self)@.has_clip(id) && final(self)@ == old(self)@,
            },
    {
        match find_clip(&self.clips, id) {
            Some(i) => {
                let prev = self.clips[i].duration;
                let mut c = self.clips[i].same();
                c.duration = new.at_least_zero();
                self.put_clip(i, c);
                Some(prev)
            },
            None => None,
        }
    }

    fn set_loop(&mut self, id: AssetId, new: LoopStyle) -> (r: Option<LoopStyle>)
        ensures
            match r {
                Some(prev) => {
                    &&& old(self)@.has_clip(id)
                    &&& prev == old(self)@.clip(id).loop_style
                    &&& final(self)@ == old(self)@.with_clip(
                        id,
                        ClipShape { loop_style: new, ..old(self)@.clip(id) },
                    )
                },
                None => !old(self)@.has_clip(id) && final(self)@ == old(self)@,
            },
    {
        match find_clip(&self.clips, id) {
            Some(i) => {
                let prev = self.clips[i].loop_style;
                let mut c = self.clips[i].same();
                c.loop_style = new;
                self.put_clip(i, c);
                Some(prev)
            },
            None => None,
        }
    }

    fn set_speed(&mut self, id: AssetId, new: F64) -> (r: Option<F64>)
        ensures
            match r {
                Some(prev) => {
                    &&& old(self)@.has_clip(id)
                    &&& prev == old(self)@.clip(id).speed
                    &&& final(self)@ == old(self)@.with_clip(
                        id,
                        ClipShape { speed: new, ..old(self)@.clip(id) },
                    )
                },
                None => !old(self)@.has_clip(id) && final(self)@ == old(self)@,
            },
    {
        match find_clip(&self.clips, id) {
            Some(i) => {
                let prev = self.clips[i].speed;
                let mut c = self.clips[i].same();
                c.speed = new;
                self.put_clip(i, c);
                Some(prev)
            },
            None => None,
        }
    }

    fn set_direction(&mut self, id: AssetId, new: PlayDirection) -> (r: Option<PlayDirection>)
        ensures
            match r {
                Some(prev) => {
                    &&& old(self)@.has_clip(id)
                    &&& prev == old(self)@.clip(id).direction
                    &&& final(self)@ == old(self)@.with_clip(
                        id,
                        ClipShape { direction: new, ..old(self)@.clip(id) },
                    )
                },
                None => !old(self)@.has_clip(id) && final(self)@ == old(self)@,
            },
    {
        match find_clip(&self.clips, id) {
            Some(i) => {
                let prev = self.clips[i].direction;
                let mut c = self.clips[i].same();
                c.direction = new;
                self.put_clip(i, c);
                Some(prev)
            },
            None => None,
        }
    }

    fn set_color(&mut self, id: AssetId, new: String) -> (r: Option<String>)
        ensures
            match r {
                Some(prev) => {
                    &&& old(self)@.has_clip(id)
                    &&& prev@ == old(self)@.clip(id).color
                    &&& final(self)@ == old(self)@.with_clip(
                        id,
                        ClipShape { color: new@, ..old(self)@.clip(id) },
                    )
                },
                None => !old(self)@.has_clip(id) && final(self)@ == old(self)@,
            },
    {
        match find_clip(&self.clips, id) {
            Some(i) => {
                let prev = self.clips[i].color.clone();
                let mut c = self.clips[i].same();
                c.color = new;
                self.put_clip(i, c);
                Some(prev)
            },
            None => None,
        }
    }

    fn new_clip(&mut self, id: AssetId, name: Option<String>)
        ensures
            final(self)@ == clip_after(old(self)@, ClipCommand::AddClip { id, name }),
    {
        if find_clip(&self.clips, id).is_none() {
            let count = one_more(self.clips.len());
            let text = match name {
                Some(s) => if any_ink(&s) {
                    s
                } else {
                    joined("Clip ", &decimal_text(count))
                },
                None => joined("Clip ", &decimal_text(count)),
            };
            self.add_clip(Clip::new(id, text));
        }
        self.current_clip = Some(id);
    }

    fn delete_clip(&mut self, id: AssetId)
        ensures
            final(self)@ == clip_after(old(self)@, ClipCommand::DeleteClip { id }),
    {
        self.drop_clip(id);
        let current = match self.current_clip {
            Some(c) => c == id,
            None => false,
        };
        if current {
            self.current_clip = if self.clips.len() > 0 {
                Some(self.clips[0].id)
            } else {
                None
            };
        }
    }

    fn duplicate_clip(&mut self, id: AssetId, new_id: AssetId)
        ensures
            final(self)@ == clip_after(old(self)@, ClipCommand::DuplicateClip { id, new_id }),
    {
        if let Some(i) = find_clip(&self.clips, id) {
            let mut c = self.clips[i].same();
            c.id = new_id;
            c.name = joined(&c.name, " copy");
            self.add_clip(c);
            self.current_clip = Some(new_id);
        }
    }

    /// Applies an edit of clips and hands back what takes it back.
    pub fn apply_clip(&mut self, cmd: ClipCommand) -> (r: Result<Option<ClipCommand>, EditorError>)
        ensures
            final(self)@ == clip_after(old(self)@, cmd),
            match r {
                Ok(inv) => !clip_refused(old(self)@, cmd) && clip_inverse(old(self)@, cmd, inv),
                Err(e) => clip_refused(old(self)@, cmd) && e == EditorError::TargetNotFound,
            },
    {
        match cmd {
            ClipCommand::AddClip { id, name } => {
                self.new_clip(id, name);
                Ok(None)
            },
            ClipCommand::DeleteClip { id } => {
                self.delete_clip(id);
                Ok(None)
            },
            ClipCommand::DuplicateClip { id, new_id } => {
                self.duplicate_clip(id, new_id);
                Ok(None)
            },
            ClipCommand::SetCurrentClip { current } => {
                self.current_clip = current;
                Ok(None)
            },
            ClipCommand::RenameClip { id, text } => match self.set_name(id, text) {
                Some(prev) => Ok(Some(ClipCommand::RenameClip { id, text: prev })),
                None => Err(EditorError::TargetNotFound),
            },
            ClipCommand::SetClipDuration { id, duration } => match self.set_duration(id, duration) {
                Some(prev) => Ok(Some(ClipCommand::SetClipDuration { id, duration: prev })),
                None => Err(EditorError::TargetNotFound),
            },
            ClipCommand::SetClipLoop { id, loop_style } => match self.set_loop(id, loop_style) {
                Some(prev) => Ok(Some(ClipCommand::SetClipLoop { id, loop_style: prev })),
                None => Err(EditorError::TargetNotFound),
            },
            ClipCommand::SetClipSpeed { id, speed } => match self.set_speed(id, speed) {
                Some(prev) => Ok(Some(ClipCommand::SetClipSpeed { id, speed: prev })),
                None => Err(EditorError::TargetNotFound),
            },
            ClipCommand::SetClipDirection { id, direction } => match self.set_direction(
                id,
                direction,
            ) {
                Some(prev) => Ok(Some(ClipCommand::SetClipDirection { id, direction: prev })),
                None => Err(EditorError::TargetNotFound),
            },
            ClipCommand::SetClipColor { id, color } => match self.set_color(id, color) {
                Some(prev) => Ok(Some(ClipCommand::SetClipColor { id, color: prev })),
                None => Err(EditorError::TargetNotFound),
            },
        }
    }
}

/// An empty timeline at thirty frames a second.
pub open spec fn empty_timeline() -> TimelineView {
    TimelineView {
        clips: Seq::empty(),
        current_clip: None,
        playhead: F64::zero(),
        playing: false,
        fps: 30,
        solo_root: None,
        selection: None,
        dock: AnimView::Dope,
        layers: Seq::empty(),
    }
}

/// Whether what a track drives is still there.
pub open spec fn target_alive(target: TrackTarget, f: Seq<Tree>, ms: Seq<CustomMaterial>) -> bool {
    match target.node_of() {
        Some(n) => within(f, n),
        None => match target {
            TrackTarget::Uniform { material, .. } => material_at(ms, material) < ms.len(),
            _ => true,
        },
    }
}

/// Whether what a track drives is still there.
pub fn is_target_alive(target: &TrackTarget, nodes: &Vec<Node>, ms: &Vec<CustomMaterial>) -> (r:
    bool)
    ensures
        r == target_alive(*target, forest(nodes@), ms@),
{
    match target.target_node() {
        Some(n) => has_node(nodes, n),
        None => match target {
            TrackTarget::Uniform { material, .. } => find_material(ms, *material).is_some(),
            _ => true,
        },
    }
}

/// Position `i`, or the end of a row where it lies behind it.
pub open spec fn capped(i: usize, len: nat) -> int {
    if i < len {
        i as int
    } else {
        len as int
    }
}

/// The first position whose time is later than `t`, or the end.
pub open spec fn slot_for(times: Seq<F64>, t: F64) -> int
    decreases times.len(),
{
    if times.len() == 0 {
        0
    } else {
        let s = slot_for(times.drop_last(), t);
        if s < times.len() - 1 {
            s
        } else if t.before(times.last()) {
            times.len() - 1
        } else {
            times.len() as int
        }
    }
}

proof fn lemma_slot_for(times: Seq<F64>, t: F64)
    ensures
        0 <= slot_for(times, t) <= times.len(),
    decreases times.len(),
{
    if times.len() > 0 {
        lemma_slot_for(times.drop_last(), t);
    }
}

fn find_slot(times: &List<F64>, t: F64) -> (r: usize)
    ensures
        r == slot_for(times@, t),
        r <= times@.len(),
{
    let mut i: usize = 0;
    while i < times.len() && !t.lt(*times.at(i))
        invariant
            i <= times@.len(),
            slot_for(times@.take(i as int), t) == i,
        decreases times@.len() - i,
    {
        assert(times@.take(i + 1).drop_last() =~= times@.take(i as int));
        i += 1;
    }
    let ghost stop = i;
    assert(times@.take(times@.len() as int) =~= times@);
    proof {
        if stop < times@.len() {
            assert(times@.take(stop + 1).drop_last() =~= times@.take(stop as int));
            lemma_slot_stays(times@, t, stop + 1, stop as int);
        }
    }
    i
}

proof fn lemma_slot_stays(times: Seq<F64>, t: F64, n: int, s: int)
    requires
        0 <= s < n <= times.len(),
        slot_for(times.take(n), t) == s,
    ensures
        slot_for(times, t) == s,
    decreases times.len() - n,
{
    if n < times.len() {
        assert(times.take(n + 1).drop_last() =~= times.take(n));
        lemma_slot_stays(times, t, n + 1, s);
    } else {
        assert(times.take(n) =~= times);
    }
}

/// A flat key for each value.
pub open spec fn flat_keys(values: Seq<TrackValue>, interp: Interp) -> Seq<Keyframe> {
    Seq::new(values.len(), |i: int| flat_key(values[i], interp))
}

fn make_flat_keys(values: &List<TrackValue>, interp: Interp) -> (r: List<Keyframe>)
    ensures
        r@ == flat_keys(values@, interp),
{
    let mut out: Vec<Keyframe> = Vec::new();
    let mut i: usize = 0;
    while i < values.len()
        invariant
            i <= values@.len(),
            out@ == flat_keys(values@, interp).take(i as int),
        decreases values@.len() - i,
    {
        out.push(new_keyframe(*values.at(i), interp));
        i += 1;
        assert(out@ =~= flat_keys(values@, interp).take(i as int));
    }
    assert(flat_keys(values@, interp).take(i as int) =~= flat_keys(values@, interp));
    List::from_vec(out)
}

/// The interpolation given, or the one that the track's sampler implies.
pub open spec fn interp_or(given: Option<Interp>, t: TrackShape) -> Interp {
    match given {
        Some(i) => i,
        None => sampler_to_interp(t.sampler),
    }
}

/// The key with some of its parts changed.
pub open spec fn key_changed(k: Keyframe, c: KeyChange) -> Keyframe {
    Keyframe {
        value: match c.value {
            Some(x) => x,
            None => k.value,
        },
        interp: match c.interp {
            Some(x) => x,
            None => k.interp,
        },
        in_tangent: match c.in_tangent {
            Some(x) => x,
            None => k.in_tangent,
        },
        out_tangent: match c.out_tangent {
            Some(x) => x,
            None => k.out_tangent,
        },
    }
}

fn change_key(k: Keyframe, c: KeyChange) -> (r: Keyframe)
    ensures
        r == key_changed(k, c),
{
    Keyframe {
        value: match c.value {
            Some(x) => x,
            None => k.value,
        },
        interp: match c.interp {
            Some(x) => x,
            None => k.interp,
        },
        in_tangent: match c.in_tangent {
            Some(x) => x,
            None => k.in_tangent,
        },
        out_tangent: match c.out_tangent {
            Some(x) => x,
            None => k.out_tangent,
        },
    }
}

/// The track with all of its keys replaced and put in order of time.
pub open spec fn rekeyed(
    t: TrackShape,
    times: Seq<F64>,
    values: Seq<TrackValue>,
    interp: Option<Interp>,
    keys: Seq<Keyframe>,
) -> TrackShape {
    let given = if keys.len() > 0 {
        keys
    } else {
        flat_keys(values, interp_or(interp, t))
    };
    let (ts, ks) = by_time(times, given);
    TrackShape { times: ts, keys: ks, ..t }
}

/// Whether a time for a key names an existing key to replace.
pub open spec fn replaces_key(t: TrackShape, coincident: Option<usize>) -> bool {
    coincident matches Some(i) && i < t.keys.len()
}

/// The track with a key added: in the place of the coincident one, or before
/// the first later time.
pub open spec fn key_added(
    t: TrackShape,
    time: F64,
    value: TrackValue,
    interp: Option<Interp>,
    coincident: Option<usize>,
) -> TrackShape {
    let key = flat_key(value, interp_or(interp, t));
    if replaces_key(t, coincident) {
        TrackShape { keys: t.keys.update(coincident->0 as int, key), ..t }
    } else {
        let at = slot_for(t.times, time);
        TrackShape {
            times: t.times.insert(at, time),
            keys: t.keys.insert(
                if at < t.keys.len() {
                    at
                } else {
                    t.keys.len() as int
                },
                key,
            ),
            ..t
        }
    }
}

/// Whether times are numbers that never step back.
pub open spec fn ascending(times: Seq<F64>) -> bool {
    &&& forall|i: int| 0 <= i < times.len() ==> !(#[trigger] times[i]).nan()
    &&& forall|i: int, j: int|
        0 <= i < j < times.len() ==> !(#[trigger] times[j]).before(#[trigger] times[i])
}

proof fn lemma_slot_is_first_later(times: Seq<F64>, t: F64)
    ensures
        0 <= slot_for(times, t) <= times.len(),
        slot_for(times, t) < times.len() ==> t.before(times[slot_for(times, t)]),
        forall|i: int| 0 <= i < slot_for(times, t) ==> !t.before(#[trigger] times[i]),
    decreases times.len(),
{
    if times.len() > 0 {
        let init = times.drop_last();
        lemma_slot_is_first_later(init, t);
        assert forall|i: int| 0 <= i < slot_for(times, t) implies !t.before(
            #[trigger] times[i],
        ) by {
            if i < init.len() {
                assert(init[i] == times[i]);
            }
        }
    }
}

/// A key added to keys in order of time leaves them in order, as many times as keys:
/// either one key takes another's place and the times stay, or there is one more of
/// both.
pub proof fn law_added_key_stays_in_order(
    t: TrackShape,
    time: F64,
    value: TrackValue,
    interp: Option<Interp>,
    coincident: Option<usize>,
)
    requires
        ascending(t.times),
        t.times.len() == t.keys.len(),
        !time.nan(),
    ensures
        ({
            let r = key_added(t, time, value, interp, coincident);
            &&& ascending(r.times)
            &&& r.times.len() == r.keys.len()
            &&& if replaces_key(t, coincident) {
                r.times == t.times && r.keys == t.keys.update(
                    coincident->0 as int,
                    flat_key(value, interp_or(interp, t)),
                )
            } else {
                let at = slot_for(t.times, time);
                &&& 0 <= at <= t.times.len()
                &&& r.times == t.times.insert(at, time)
                &&& r.keys == t.keys.insert(at, flat_key(value, interp_or(interp, t)))
            }
        }),
{
    lemma_slot_is_first_later(t.times, time);
    let at = slot_for(t.times, time);
    let all = t.times.insert(at, time);
    assert forall|i: int| 0 <= i < all.len() implies !(#[trigger] all[i]).nan() by {
        if i < at {
            assert(all[i] == t.times[i]);
        } else if i > at {
            assert(all[i] == t.times[i - 1]);
        }
    }
    assert forall|i: int, j: int| 0 <= i < j < all.len() implies !(#[trigger] all[j]).before(
        #[trigger] all[i],
    ) by {
        if j < at {
            assert(!t.times[j].before(t.times[i]));
        } else if i > at {
            assert(!t.times[j - 1].before(t.times[i - 1]));
        } else if i < at && j > at {
            assert(!t.times[j - 1].before(t.times[i]));
        } else if j == at {
            assert(!time.before(t.times[i]));
            assert(!t.times[i].nan());
        } else {
            let k = j - 1;
            assert(!t.times[k].nan());
            assert(time.before(t.times[at]));
            if k > at {
                assert(!t.times[k].before(t.times[at]));
            }
        }
    }
}

/// The track with a key put in at an index, or at the end.
pub open spec fn key_inserted(t: TrackShape, index: usize, time: F64, key: Keyframe) -> TrackShape {
    TrackShape {
        times: t.times.insert(capped(index, t.times.len()), time),
        keys: t.keys.insert(
            if capped(index, t.times.len()) < t.keys.len() {
                capped(index, t.times.len())
            } else {
                t.keys.len() as int
            },
            key,
        ),
        ..t
    }
}

/// The track without the key at an index.
pub open spec fn key_deleted(t: TrackShape, index: usize) -> TrackShape {
    if index < t.times.len() && index < t.keys.len() {
        TrackShape {
            times: t.times.remove(index as int),
            keys: t.keys.remove(index as int),
            ..t
        }
    } else {
        t
    }
}

/// The track with a key changed; the time only where it has one.
pub open spec fn key_set(t: TrackShape, index: usize, c: KeyChange) -> TrackShape {
    if index < t.keys.len() {
        TrackShape {
            times: if c.time is Some && index < t.times.len() {
                t.times.update(index as int, c.time->0)
            } else {
                t.times
            },
            keys: t.keys.update(index as int, key_changed(t.keys[index as int], c)),
            ..t
        }
    } else {
        t
    }
}

/// The former values of the parts that a change touches.
pub open spec fn former(t: TrackShape, index: usize, c: KeyChange) -> KeyChange {
    let k = t.keys[index as int];
    KeyChange {
        time: if c.time is Some && index < t.times.len() {
            Some(t.times[index as int])
        } else {
            None
        },
        value: if c.value is Some {
            Some(k.value)
        } else {
            None
        },
        interp: if c.interp is Some {
            Some(k.interp)
        } else {
            None
        },
        in_tangent: if c.in_tangent is Some {
            Some(k.in_tangent)
        } else {
            None
        },
        out_tangent: if c.out_tangent is Some {
            Some(k.out_tangent)
        } else {
            None
        },
    }
}

/// All parts of a key, as a change.
pub open spec fn whole_key(k: Keyframe) -> KeyChange {
    KeyChange {
        time: None,
        value: Some(k.value),
        interp: Some(k.interp),
        in_tangent: Some(k.in_tangent),
        out_tangent: Some(k.out_tangent),
    }
}

/// Why an edit of tracks is refused, if it is.
pub open spec fn track_refusal(v: TimelineView, cmd: TrackCommand, f: Seq<Tree>, ms: Seq<
    CustomMaterial,
>) -> Option<EditorError> {
    let missing = Some(EditorError::TargetNotFound);
    match cmd {
        TrackCommand::AddTrack { clip, target } => if target_alive(target, f, ms) && !v.has_clip(
            clip,
        ) {
            missing
        } else {
            None
        },
        TrackCommand::AddSpinTrack { clip, node, .. } => if within(f, node) && !v.has_clip(clip) {
            missing
        } else {
            None
        },
        TrackCommand::RestoreTrack { clip, .. } => if v.has_clip(clip) {
            None
        } else {
            missing
        },
        TrackCommand::DeleteTrack { clip, track } => if v.has_track(clip, track) {
            None
        } else {
            missing
        },
        TrackCommand::SetTrackSampler { clip, track, .. } => if v.has_track(clip, track) {
            None
        } else {
            missing
        },
        TrackCommand::SetTrackMute { clip, track, .. } => if v.has_track(clip, track) {
            None
        } else {
            missing
        },
        TrackCommand::SetTrackSolo { clip, track, .. } => if v.has_track(clip, track) {
            None
        } else {
            missing
        },
        TrackCommand::SetTrackKeys { clip, track, times, values, keys, .. } => if !v.has_track(
            clip,
            track,
        ) {
            missing
        } else if keys@.len() > 0 {
            if keys@.len() != times@.len() {
                Some(
                    EditorError::KeyCount { times: times@.len() as usize, keys: keys@.len() as usize },
                )
            } else {
                None
            }
        } else if values@.len() != times@.len() {
            Some(
                EditorError::ValueCount {
                    times: times@.len() as usize,
                    values: values@.len() as usize,
                },
            )
        } else {
            None
        },
        TrackCommand::AddKeyframe { clip, track, .. } => if v.has_track(clip, track) {
            None
        } else {
            missing
        },
        TrackCommand::DeleteKeyframe { clip, track, .. } => if v.has_track(clip, track) {
            None
        } else {
            missing
        },
        TrackCommand::InsertKeyframe { clip, track, .. } => if v.has_track(clip, track) {
            None
        } else {
            missing
        },
        TrackCommand::SetKeyframe { clip, track, .. } => if v.has_track(clip, track) {
            None
        } else {
            missing
        },
    }
}

/// The spin track that an edit adds.
pub open spec fn spin_track(node: NodeId, times: Seq<F64>, keys: Seq<Keyframe>) -> TrackShape {
    TrackShape {
        times,
        keys,
        ..empty_track(
            TrackTarget::Transform { node, prop: crate::clips::TransformProp::Rotation },
        )
    }
}

/// The timeline after an edit of tracks that is not refused.
pub open spec fn track_after(v: TimelineView, cmd: TrackCommand, f: Seq<Tree>, ms: Seq<
    CustomMaterial,
>) -> TimelineView {
    match cmd {
        TrackCommand::AddTrack { clip, target } => if target_alive(target, f, ms) {
            v.with_tracks(clip, v.clip(clip).tracks.push(empty_track(target)))
        } else {
            v
        },
        TrackCommand::AddSpinTrack { clip, node, times, keys } => if within(f, node) {
            v.with_tracks(clip, v.clip(clip).tracks.push(spin_track(node, times@, keys@)))
        } else {
            v
        },
        TrackCommand::DeleteTrack { clip, track } => v.with_tracks(
            clip,
            v.clip(clip).tracks.remove(track as int),
        ),
        TrackCommand::RestoreTrack { clip, index, doc } => v.with_tracks(
            clip,
            v.clip(clip).tracks.insert(capped(index, v.clip(clip).tracks.len()), doc.shape()),
        ),
        TrackCommand::SetTrackSampler { clip, track, sampler } => v.with_track(
            clip,
            track,
            TrackShape { sampler, ..v.track(clip, track) },
        ),
        TrackCommand::SetTrackMute { clip, track, mute } => v.with_track(
            clip,
            track,
            TrackShape { mute, ..v.track(clip, track) },
        ),
        TrackCommand::SetTrackSolo { clip, track, solo } => v.with_track(
            clip,
            track,
            TrackShape { solo, ..v.track(clip, track) },
        ),
        TrackCommand::SetTrackKeys { clip, track, times, values, interp, keys } => v.with_track(
            clip,
            track,
            rekeyed(v.track(clip, track), times@, values@, interp, keys@),
        ),
        TrackCommand::AddKeyframe { clip, track, time, value, interp, coincident } => v.with_track(
            clip,
            track,
            key_added(v.track(clip, track), time, value, interp, coincident),
        ),
        TrackCommand::DeleteKeyframe { clip, track, index } => v.with_track(
            clip,
            track,
            key_deleted(v.track(clip, track), index),
        ),
        TrackCommand::InsertKeyframe { clip, track, index, time, key } => v.with_track(
            clip,
            track,
            key_inserted(v.track(clip, track), index, time, key),
        ),
        TrackCommand::SetKeyframe { clip, track, index, change } => v.with_track(
            clip,
            track,
            key_set(v.track(clip, track), index, change),
        ),
    }
}

/// What takes an edit of tracks back.
pub open spec fn track_inverse(
    v: TimelineView,
    cmd: TrackCommand,
    f: Seq<Tree>,
    ms: Seq<CustomMaterial>,
    inv: Option<TrackCommand>,
) -> bool {
    match cmd {
        TrackCommand::AddTrack { clip, target } => if target_alive(target, f, ms) {
            inv matches Some(TrackCommand::DeleteTrack { clip: c, track }) && c == clip && track
                == v.clip(clip).tracks.len()
        } else {
            inv is None
        },
        TrackCommand::AddSpinTrack { clip, node, .. } => if within(f, node) {
            inv matches Some(TrackCommand::DeleteTrack { clip: c, track }) && c == clip && track
                == v.clip(clip).tracks.len()
        } else {
            inv is None
        },
        TrackCommand::DeleteTrack { clip, track } => inv matches Some(
            TrackCommand::RestoreTrack { clip: c, index, doc },
        ) && c == clip && index == track && doc.shape() == v.track(clip, track),
        TrackCommand::RestoreTrack { clip, index, .. } => inv == Some(
            TrackCommand::DeleteTrack { clip, track: index },
        ),
        TrackCommand::SetTrackSampler { clip, track, .. } => inv == Some(
            TrackCommand::SetTrackSampler { clip, track, sampler: v.track(clip, track).sampler },
        ),
        TrackCommand::SetTrackMute { clip, track, .. } => inv == Some(
            TrackCommand::SetTrackMute { clip, track, mute: v.track(clip, track).mute },
        ),
        TrackCommand::SetTrackSolo { clip, track, .. } => inv == Some(
            TrackCommand::SetTrackSolo { clip, track, solo: v.track(clip, track).solo },
        ),
        TrackCommand::SetTrackKeys { clip, track, .. } => inv matches Some(
            TrackCommand::SetTrackKeys { clip: c, track: t, times, values, interp, keys },
        ) && c == clip && t == track && times@ == v.track(clip, track).times && values@.len() == 0
            && interp is None && keys@ == v.track(clip, track).keys,
        TrackCommand::AddKeyframe { clip, track, time, coincident, .. } => if replaces_key(
            v.track(clip, track),
            coincident,
        ) {
            inv == Some(
                TrackCommand::SetKeyframe {
                    clip,
                    track,
                    index: coincident->0,
                    change: whole_key(v.track(clip, track).keys[coincident->0 as int]),
                },
            )
        } else {
            inv matches Some(TrackCommand::DeleteKeyframe { clip: c, track: t, index }) && c == clip
                && t == track && index == slot_for(v.track(clip, track).times, time)
        },
        TrackCommand::DeleteKeyframe { clip, track, index } => if index < v.track(
            clip,
            track,
        ).times.len() && index < v.track(clip, track).keys.len() {
            inv == Some(
                TrackCommand::InsertKeyframe {
                    clip,
                    track,
                    index,
                    time: v.track(clip, track).times[index as int],
                    key: v.track(clip, track).keys[index as int],
                },
            )
        } else {
            inv is None
        },
        TrackCommand::InsertKeyframe { clip, track, index, .. } => inv == Some(
            TrackCommand::DeleteKeyframe { clip, track, index },
        ),
        TrackCommand::SetKeyframe { clip, track, index, change } => if index < v.track(
            clip,
            track,
        ).keys.len() {
            inv == Some(
                TrackCommand::SetKeyframe {
                    clip,
                    track,
                    index,
                    change: former(v.track(clip, track), index, change),
                },
            )
        } else {
            inv is None
        },
    }
}

/// An edit of tracks: what it leaves behind and what it hands back.
pub open spec fn track_step(
    v: TimelineView,
    cmd: TrackCommand,
    f: Seq<Tree>,
    ms: Seq<CustomMaterial>,
    w: TimelineView,
    r: Result<Option<TrackCommand>, EditorError>,
) -> bool {
    match track_refusal(v, cmd, f, ms) {
        Some(e) => w == v && r == Err::<Option<TrackCommand>, EditorError>(e),
        None => w == track_after(v, cmd, f, ms) && match r {
            Ok(inv) => track_inverse(v, cmd, f, ms, inv),
            Err(_) => false,
        },
    }
}

impl Timeline {
    fn put_tracks(&mut self, i: usize, tracks: List<Track>)
        requires
            i < old(self).clips@.len(),
        ensures
            final(self)@ == (TimelineView {
                clips: old(self)@.clips.update(
                    i as int,
                    ClipShape { tracks: track_shapes(tracks@), ..old(self)@.clips[i as int] },
                ),
                ..old(self)@
            }),
    {
        let mut c = self.clips[i].same();
        c.tracks = tracks;
        self.put_clip(i, c);
    }

    fn put_track(&mut self, i: usize, k: usize, t: Track)
        requires
            i < old(self).clips@.len(),
            k < old(self).clips@[i as int].tracks@.len(),
        ensures
            final(self)@ == (TimelineView {
                clips: old(self)@.clips.update(
                    i as int,
                    ClipShape {
                        tracks: old(self)@.clips[i as int].tracks.update(k as int, t.shape()),
                        ..old(self)@.clips[i as int]
                    },
                ),
                ..old(self)@
            }),
    {
        let tracks = self.clips[i].tracks.with(k, t);
        assert(track_shapes(tracks@) =~= track_shapes(self.clips@[i as int].tracks@).update(
            k as int,
            t.shape(),
        ));
        self.put_tracks(i, tracks);
    }

    /// Adds a track at the end of a clip.
    pub(crate) fn push_track(&mut self, clip: AssetId, t: Track) -> (r: Option<usize>)
        ensures
            match r {
                Some(k) => {
                    &&& old(self)@.has_clip(clip)
                    &&& k == old(self)@.clip(clip).tracks.len()
                    &&& final(self)@ == old(self)@.with_tracks(
                        clip,
                        old(self)@.clip(clip).tracks.push(t.shape()),
                    )
                },
                None => !old(self)@.has_clip(clip) && final(self)@ == old(self)@,
            },
    {
        match find_clip(&self.clips, clip) {
            Some(i) => {
                let k = self.clips[i].tracks.len();
                let tracks = self.clips[i].tracks.push(t);
                assert(track_shapes(tracks@) =~= track_shapes(self.clips@[i as int].tracks@).push(
                    t.shape(),
                ));
                self.put_tracks(i, tracks);
                Some(k)
            },
            None => None,
        }
    }

    fn delete_track(&mut self, clip: AssetId, track: usize) -> (r: Option<Track>)
        ensures
            match r {
                Some(t) => {
                    &&& old(self)@.has_track(clip, track)
                    &&& t.shape() == old(self)@.track(clip, track)
                    &&& final(self)@ == old(self)@.with_tracks(
                        clip,
                        old(self)@.clip(clip).tracks.remove(track as int),
                    )
                },
                None => !old(self)@.has_track(clip, track) && final(self)@ == old(self)@,
            },
    {
        match find_track(&self.clips, clip, track) {
            Some(i) => {
                let t = self.clips[i].tracks.at(track).same();
                let tracks = self.clips[i].tracks.without(track);
                assert(track_shapes(tracks@) =~= track_shapes(
                    self.clips@[i as int].tracks@,
                ).remove(track as int));
                self.put_tracks(i, tracks);
                Some(t)
            },
            None => None,
        }
    }

    fn restore_track(&mut self, clip: AssetId, index: usize, t: Track) -> (r: bool)
        ensures
            r == old(self)@.has_clip(clip),
            r ==> final(self)@ == old(self)@.with_tracks(
                clip,
                old(self)@.clip(clip).tracks.insert(
                    capped(index, old(self)@.clip(clip).tracks.len()),
                    t.shape(),
                ),
            ),
            !r ==> final(self)@ == old(self)@,
    {
        match find_clip(&self.clips, clip) {
            Some(i) => {
                let mut tracks = self.clips[i].tracks.to_vec();
                let at = if index < tracks.len() {
                    index
                } else {
                    tracks.len()
                };
                tracks.insert(at, t);
                let tracks = List::from_vec(tracks);
                assert(track_shapes(tracks@) =~= track_shapes(
                    self.clips@[i as int].tracks@,
                ).insert(at as int, t.shape()));
                self.put_tracks(i, tracks);
                true
            },
            None => false,
        }
    }

    fn set_sampler(&mut self, clip: AssetId, track: usize, sampler: SamplerKind) -> (r: Option<SamplerKind>)
        ensures
            match r {
                Some(prev) => {
                    &&& old(self)@.has_track(clip, track)
                    &&& prev == old(self)@.track(clip, track).sampler
                    &&& final(self)@ == old(self)@.with_track(
                        clip,
                        track,
                        TrackShape { sampler, ..old(self)@.track(clip, track) },
                    )
                },
                None => !old(self)@.has_track(clip, track) && final(self)@ == old(self)@,
            },
    {
        match find_track(&self.clips, clip, track) {
            Some(i) => {
                let prev = self.clips[i].tracks.at(track).sampler;
                let mut t = self.clips[i].tracks.at(track).same();
                t.sampler = sampler;
                self.put_track(i, track, t);
                Some(prev)
            },
            None => None,
        }
    }

    fn set_mute(&mut self, clip: AssetId, track: usize, mute: bool) -> (r: Option<bool>)
        ensures
            match r {
                Some(prev) => {
                    &&& old(self)@.has_track(clip, track)
                    &&& prev == old(self)@.track(clip, track).mute
                    &&& final(self)@ == old(self)@.with_track(
                        clip,
                        track,
                        TrackShape { mute, ..old(self)@.track(clip, track) },
                    )
                },
                None => !old(self)@.has_track(clip, track) && final(self)@ == old(self)@,
            },
    {
        match find_track(&self.clips, clip, track) {
            Some(i) => {
                let prev = self.clips[i].tracks.at(track).mute;
                let mut t = self.clips[i].tracks.at(track).same();
                t.mute = mute;
                self.put_track(i, track, t);
                Some(prev)
            },
            None => None,
        }
    }

    fn set_solo(&mut self, clip: AssetId, track: usize, solo: bool) -> (r: Option<bool>)
        ensures
            match r {
                Some(prev) => {
                    &&& old(self)@.has_track(clip, track)
                    &&& prev == old(self)@.track(clip, track).solo
                    &&& final(self)@ == old(self)@.with_track(
                        clip,
                        track,
                        TrackShape { solo, ..old(self)@.track(clip, track) },
                    )
                },
                None => !old(self)@.has_track(clip, track) && final(self)@ == old(self)@,
            },
    {
        match find_track(&self.clips, clip, track) {
            Some(i) => {
                let prev = self.clips[i].tracks.at(track).solo;
                let mut t = self.clips[i].tracks.at(track).same();
                t.solo = solo;
                self.put_track(i, track, t);
                Some(prev)
            },
            None => None,
        }
    }

    fn set_keys(
        &mut self,
        clip: AssetId,
        track: usize,
        times: List<F64>,
        values: List<TrackValue>,
        interp: Option<Interp>,
        keys: List<Keyframe>,
    ) -> (r: Result<Option<TrackCommand>, EditorError>)
        ensures
            forall|f: Seq<Tree>, ms: Seq<CustomMaterial>| #[trigger]
                track_step(
                    old(self)@,
                    TrackCommand::SetTrackKeys { clip, track, times, values, interp, keys },
                    f,
                    ms,
                    final(self)@,
                    r,
                ),
    {
        let i = match find_track(&self.clips, clip, track) {
            Some(i) => i,
            None => {
                return Err(EditorError::TargetNotFound);
            },
        };
        let mut t = self.clips[i].tracks.at(track).same();
        let given = if !keys.is_empty() {
            if keys.len() != times.len() {
                return Err(EditorError::KeyCount { times: times.len(), keys: keys.len() });
            }
            keys
        } else {
            if values.len() != times.len() {
                return Err(EditorError::ValueCount { times: times.len(), values: values.len() });
            }
            let interp = match interp {
                Some(i) => i,
                None => sampler_to_interp(t.sampler),
            };
            make_flat_keys(&values, interp)
        };
        let (ts, ks) = sort_keys(&times, &given);
        let old_times = t.times.clone();
        let old_keys = t.keys.clone();
        t.times = ts;
        t.keys = ks;
        assert(t.shape() =~= rekeyed(
            old(self)@.track(clip, track),
            times@,
            values@,
            interp,
            keys@,
        ));
        self.put_track(i, track, t);
        Ok(
            Some(
                TrackCommand::SetTrackKeys {
                    clip,
                    track,
                    times: old_times,
                    values: List::empty(),
                    interp: None,
                    keys: old_keys,
                },
            ),
        )
    }

    fn add_key(
        &mut self,
        clip: AssetId,
        track: usize,
        time: F64,
        value: TrackValue,
        interp: Option<Interp>,
        coincident: Option<usize>,
    ) -> (r: Result<Option<TrackCommand>, EditorError>)
        ensures
            forall|f: Seq<Tree>, ms: Seq<CustomMaterial>| #[trigger]
                track_step(
                    old(self)@,
                    TrackCommand::AddKeyframe { clip, track, time, value, interp, coincident },
                    f,
                    ms,
                    final(self)@,
                    r,
                ),
    {
        let i = match find_track(&self.clips, clip, track) {
            Some(i) => i,
            None => {
                return Err(EditorError::TargetNotFound);
            },
        };
        let mut t = self.clips[i].tracks.at(track).same();
        let ghost was = t.shape();
        let key = new_keyframe(
            value,
            match interp {
                Some(i) => i,
                None => sampler_to_interp(t.sampler),
            },
        );
        let replaced: Option<usize> = match coincident {
            Some(k) => if k < t.keys.len() {
                Some(k)
            } else {
                None
            },
            None => None,
        };
        match replaced {
            Some(k) => {
                let prev: Keyframe = *t.keys.at(k);
                t.keys = t.keys.with(k, key);
                assert(t.shape() =~= key_added(was, time, value, interp, coincident));
                self.put_track(i, track, t);
                Ok(
                    Some(
                        TrackCommand::SetKeyframe {
                            clip,
                            track,
                            index: k,
                            change: KeyChange {
                                time: None,
                                value: Some(prev.value),
                                interp: Some(prev.interp),
                                in_tangent: Some(prev.in_tangent),
                                out_tangent: Some(prev.out_tangent),
                            },
                        },
                    ),
                )
            },
            None => {
                let at = find_slot(&t.times, time);
                let mut times = t.times.to_vec();
                let mut keys = t.keys.to_vec();
                times.insert(at, time);
                let end = keys.len();
                keys.insert(
                    if at < end {
                        at
                    } else {
                        end
                    },
                    key,
                );
                t.times = List::from_vec(times);
                t.keys = List::from_vec(keys);
                assert(t.shape() =~= key_added(was, time, value, interp, coincident));
                self.put_track(i, track, t);
                Ok(Some(TrackCommand::DeleteKeyframe { clip, track, index: at }))
            },
        }
    }

    fn delete_key(&mut self, clip: AssetId, track: usize, index: usize) -> (r: Result<
        Option<TrackCommand>,
        EditorError,
    >)
        ensures
            forall|f: Seq<Tree>, ms: Seq<CustomMaterial>| #[trigger]
                track_step(
                    old(self)@,
                    TrackCommand::DeleteKeyframe { clip, track, index },
                    f,
                    ms,
                    final(self)@,
                    r,
                ),
    {
        let i = match find_track(&self.clips, clip, track) {
            Some(i) => i,
            None => {
                return Err(EditorError::TargetNotFound);
            },
        };
        let mut t = self.clips[i].tracks.at(track).same();
        let ghost was = t.shape();
        if index >= t.times.len() || index >= t.keys.len() {
            assert(self@ =~= self@.with_track(clip, track, was)) by {
                assert(self@.clip(clip).tracks.update(track as int, was) =~= self@.clip(
                    clip,
                ).tracks);
            }
            return Ok(None);
        }
        let time: F64 = *t.times.at(index);
        let key: Keyframe = *t.keys.at(index);
        t.times = t.times.without(index);
        t.keys = t.keys.without(index);
        assert(t.shape() =~= key_deleted(was, index));
        self.put_track(i, track, t);
        Ok(Some(TrackCommand::InsertKeyframe { clip, track, index, time, key }))
    }

    fn insert_key(
        &mut self,
        clip: AssetId,
        track: usize,
        index: usize,
        time: F64,
        key: Keyframe,
    ) -> (r: Result<Option<TrackCommand>, EditorError>)
        ensures
            forall|f: Seq<Tree>, ms: Seq<CustomMaterial>| #[trigger]
                track_step(
                    old(self)@,
                    TrackCommand::InsertKeyframe { clip, track, index, time, key },
                    f,
                    ms,
                    final(self)@,
                    r,
                ),
    {
        let i = match find_track(&self.clips, clip, track) {
            Some(i) => i,
            None => {
                return Err(EditorError::TargetNotFound);
            },
        };
        let mut t = self.clips[i].tracks.at(track).same();
        let ghost was = t.shape();
        let mut times = t.times.to_vec();
        let mut keys = t.keys.to_vec();
        let at = if index < times.len() {
            index
        } else {
            times.len()
        };
        times.insert(at, time);
        let end = keys.len();
        keys.insert(
            if at < end {
                at
            } else {
                end
            },
            key,
        );
        t.times = List::from_vec(times);
        t.keys = List::from_vec(keys);
        assert(t.shape() =~= key_inserted(was, index, time, key));
        self.put_track(i, track, t);
        Ok(Some(TrackCommand::DeleteKeyframe { clip, track, index }))
    }

    fn set_key(&mut self, clip: AssetId, track: usize, index: usize, change: KeyChange) -> (r: Result<
        Option<TrackCommand>,
        EditorError,
    >)
        ensures
            forall|f: Seq<Tree>, ms: Seq<CustomMaterial>| #[trigger]
                track_step(
                    old(self)@,
                    TrackCommand::SetKeyframe { clip, track, index, change },
                    f,
                    ms,
                    final(self)@,
                    r,
                ),
    {
        let i = match find_track(&self.clips, clip, track) {
            Some(i) => i,
            None => {
                return Err(EditorError::TargetNotFound);
            },
        };
        let mut t = self.clips[i].tracks.at(track).same();
        let ghost was = t.shape();
        if index >= t.keys.len() {
            assert(self@ =~= self@.with_track(clip, track, was)) by {
                assert(self@.clip(clip).tracks.update(track as int, was) =~= self@.clip(
                    clip,
                ).tracks);
            }
            return Ok(None);
        }
        let prev: Keyframe = *t.keys.at(index);
        let prev_time: Option<F64> = if change.time.is_some() && index < t.times.len() {
            Some(*t.times.at(index))
        } else {
            None
        };
        if let Some(new) = change.time {
            if index < t.times.len() {
                t.times = t.times.with(index, new);
            }
        }
        t.keys = t.keys.with(index, change_key(prev, change));
        assert(t.shape() =~= key_set(was, index, change));
        self.put_track(i, track, t);
        let back = KeyChange {
            time: prev_time,
            value: if change.value.is_some() {
                Some(prev.value)
            } else {
                None
            },
            interp: if change.interp.is_some() {
                Some(prev.interp)
            } else {
                None
            },
            in_tangent: if change.in_tangent.is_some() {
                Some(prev.in_tangent)
            } else {
                None
            },
            out_tangent: if change.out_tangent.is_some() {
                Some(prev.out_tangent)
            } else {
                None
            },
        };
        assert(back == former(was, index, change));
        Ok(Some(TrackCommand::SetKeyframe { clip, track, index, change: back }))
    }

    /// Applies an edit of tracks and hands back what takes it back. A track that
    /// would drive something that is not there is not added.
    pub fn apply_track(
        &mut self,
        cmd: TrackCommand,
        nodes: &Vec<Node>,
        materials: &Vec<CustomMaterial>,
    ) -> (r: Result<Option<TrackCommand>, EditorError>)
        ensures
            track_step(old(self)@, cmd, forest(nodes@), materials@, final(self)@, r),
    {
        match cmd {
            TrackCommand::AddTrack { clip, target } => {
                if !is_target_alive(&target, nodes, materials) {
                    return Ok(None);
                }
                match self.push_track(clip, Track::new(target)) {
                    Some(track) => Ok(Some(TrackCommand::DeleteTrack { clip, track })),
                    None => Err(EditorError::TargetNotFound),
                }
            },
            TrackCommand::AddSpinTrack { clip, node, times, keys } => {
                if !has_node(nodes, node) {
                    return Ok(None);
                }
                let mut t = Track::new(
                    TrackTarget::Transform { node, prop: crate::clips::TransformProp::Rotation },
                );
                t.times = times;
                t.keys = keys;
                match self.push_track(clip, t) {
                    Some(track) => Ok(Some(TrackCommand::DeleteTrack { clip, track })),
                    None => Err(EditorError::TargetNotFound),
                }
            },
            TrackCommand::DeleteTrack { clip, track } => match self.delete_track(clip, track) {
                Some(doc) => Ok(Some(TrackCommand::RestoreTrack { clip, index: track, doc })),
                None => Err(EditorError::TargetNotFound),
            },
            TrackCommand::RestoreTrack { clip, index, doc } => {
                if self.restore_track(clip, index, doc) {
                    Ok(Some(TrackCommand::DeleteTrack { clip, track: index }))
                } else {
                    Err(EditorError::TargetNotFound)
                }
            },
            TrackCommand::SetTrackSampler { clip, track, sampler } => match self.set_sampler(
                clip,
                track,
                sampler,
            ) {
                Some(sampler) => Ok(Some(TrackCommand::SetTrackSampler { clip, track, sampler })),
                None => Err(EditorError::TargetNotFound),
            },
            TrackCommand::SetTrackMute { clip, track, mute } => match self.set_mute(
                clip,
                track,
                mute,
            ) {
                Some(mute) => Ok(Some(TrackCommand::SetTrackMute { clip, track, mute })),
                None => Err(EditorError::TargetNotFound),
            },
            TrackCommand::SetTrackSolo { clip, track, solo } => match self.set_solo(
                clip,
                track,
                solo,
            ) {
                Some(solo) => Ok(Some(TrackCommand::SetTrackSolo { clip, track, solo })),
                None => Err(EditorError::TargetNotFound),
            },
            TrackCommand::SetTrackKeys { clip, track, times, values, interp, keys } => self.set_keys(
                clip,
                track,
                times,
                values,
                interp,
                keys,
            ),
            TrackCommand::AddKeyframe { clip, track, time, value, interp, coincident } => self.add_key(
                clip,
                track,
                time,
                value,
                interp,
                coincident,
            ),
            TrackCommand::DeleteKeyframe { clip, track, index } => self.delete_key(
                clip,
                track,
                index,
            ),
            TrackCommand::InsertKeyframe { clip, track, index, time, key } => self.insert_key(
                clip,
                track,
                index,
                time,
                key,
            ),
            TrackCommand::SetKeyframe { clip, track, index, change } => self.set_key(
                clip,
                track,
                index,
                change,
            ),
        }
    }
}

/// Whether a track has a time for each key.
pub open spec fn paired(t: TrackShape) -> bool {
    t.times.len() == t.keys.len()
}

/// Whether an edit of tracks can be taken back exactly: an index that it names
/// lies within the row, and the keys it replaces are paired and in order.
pub open spec fn track_undoable(v: TimelineView, cmd: TrackCommand) -> bool {
    match cmd {
        TrackCommand::RestoreTrack { clip, index, .. } => index <= v.clip(clip).tracks.len(),
        TrackCommand::SetTrackKeys { clip, track, .. } => paired(v.track(clip, track)) && sorted(
            v.track(clip, track).times,
        ),
        TrackCommand::AddKeyframe { clip, track, .. } => paired(v.track(clip, track)),
        TrackCommand::DeleteKeyframe { clip, track, .. } => paired(v.track(clip, track)),
        TrackCommand::InsertKeyframe { clip, track, index, .. } => paired(v.track(clip, track))
            && index <= v.track(clip, track).times.len(),
        _ => true,
    }
}

/// The clip that an edit of tracks is about.
pub open spec fn track_clip(cmd: TrackCommand) -> AssetId {
    match cmd {
        TrackCommand::AddTrack { clip, .. } => clip,
        TrackCommand::AddSpinTrack { clip, .. } => clip,
        TrackCommand::DeleteTrack { clip, .. } => clip,
        TrackCommand::RestoreTrack { clip, .. } => clip,
        TrackCommand::SetTrackSampler { clip, .. } => clip,
        TrackCommand::SetTrackMute { clip, .. } => clip,
        TrackCommand::SetTrackSolo { clip, .. } => clip,
        TrackCommand::SetTrackKeys { clip, .. } => clip,
        TrackCommand::AddKeyframe { clip, .. } => clip,
        TrackCommand::DeleteKeyframe { clip, .. } => clip,
        TrackCommand::InsertKeyframe { clip, .. } => clip,
        TrackCommand::SetKeyframe { clip, .. } => clip,
    }
}

/// Taking back an edit of tracks leads to the timeline before it, whatever the
/// scene and the materials have become.
pub proof fn law_track_edit_is_undone(
    v: TimelineView,
    cmd: TrackCommand,
    f: Seq<Tree>,
    ms: Seq<CustomMaterial>,
    inv: TrackCommand,
    f2: Seq<Tree>,
    ms2: Seq<CustomMaterial>,
)
    requires
        track_refusal(v, cmd, f, ms) is None,
        track_inverse(v, cmd, f, ms, Some(inv)),
        track_undoable(v, cmd),
    ensures
        track_refusal(track_after(v, cmd, f, ms), inv, f2, ms2) is None,
        track_after(track_after(v, cmd, f, ms), inv, f2, ms2) == v,
{
    let id = track_clip(cmd);
    let mid = track_after(v, cmd, f, ms);
    let i = clip_at(v.clips, id);
    lemma_first(v.clips, is_clip(id));
    lemma_clip_kept(v.clips, id, mid.clips[i]);
    assert(mid.clips =~= v.clips.update(i, mid.clips[i]));
    assert(mid.clip(id) == mid.clips[i]);
    let back = track_after(mid, inv, f2, ms2);
    match cmd {
        TrackCommand::SetTrackKeys { clip, track, .. } => {
            let t = v.track(clip, track);
            law_keys_are_put_in_order(t.times, t.keys);
            if t.keys.len() == 0 {
                assert(t.times =~= Seq::empty());
                assert(by_time(t.times, flat_keys(Seq::empty(), interp_or(None, mid.track(clip, track)))) == (
                Seq::<F64>::empty(), Seq::<Keyframe>::empty()));
            }
            assert(back.clips[i].tracks[track as int] =~= t);
        },
        TrackCommand::AddKeyframe { clip, track, time, coincident, .. } => {
            let t = v.track(clip, track);
            lemma_slot_for(t.times, time);
            assert(back.clips[i].tracks[track as int] =~= t);
        },
        TrackCommand::DeleteKeyframe { clip, track, index } => {
            let t = v.track(clip, track);
            assert(back.clips[i].tracks[track as int] =~= t);
        },
        TrackCommand::InsertKeyframe { clip, track, .. } => {
            let t = v.track(clip, track);
            assert(back.clips[i].tracks[track as int] =~= t);
        },
        TrackCommand::SetKeyframe { clip, track, .. } => {
            let t = v.track(clip, track);
            assert(back.clips[i].tracks[track as int] =~= t);
        },
        _ => {},
    }
    assert(back.clips[i].tracks =~= v.clips[i].tracks);
    assert(back.clips[i] =~= v.clips[i]);
    assert(back.clips =~= v.clips);
    assert(back =~= v);
}

} // verus!

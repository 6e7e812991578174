//! The transport and the mixer: stepping the playhead, and layering strips of
//! clips.
use crate::clips::{
    empty_layer, find_clip, ClipShape, LayerDoc, LayerMode, LayerShape, StripDoc, Track,
};
use crate::errors::EditorError;
use crate::ids::{AssetId, NodeId};
use crate::list::{List, Same};
use crate::timeline::{
    capped, MixerCommand, StepKind, Timeline, TimelineView, TransportCommand,
};
use crate::values::{F32, F64};
use vstd::prelude::*;

verus! {

/// The length of the current clip; zero without one.
pub open spec fn current_length(v: TimelineView) -> F64 {
    match v.current_clip {
        Some(id) => if v.has_clip(id) {
            v.clip(id).duration
        } else {
            F64::zero()
        },
        None => F64::zero(),
    }
}

/// A time kept between zero and `hi`.
pub open spec fn kept_within(t: F64, hi: F64) -> F64 {
    if t.before(F64::zero()) {
        F64::zero()
    } else if hi.before(t) {
        hi
    } else {
        t
    }
}

/// Whether a key at `t` is one to step to: past `beyond`, in the direction.
pub open spec fn steps_to(t: F64, beyond: F64, forward: bool) -> bool {
    if forward {
        beyond.before(t)
    } else {
        t.before(beyond)
    }
}

/// Whether a clip has a key at a time.
pub open spec fn keyed(c: ClipShape, t: F64) -> bool {
    exists|k: int, j: int|
        0 <= k < c.tracks.len() && 0 <= j < c.tracks[k].times.len() && #[trigger] c.tracks[k].times[j]
            == t
}

/// Whether `t` is the nearest key time of a clip past `beyond`.
pub open spec fn nearest(c: ClipShape, beyond: F64, forward: bool, t: F64) -> bool {
    &&& keyed(c, t)
    &&& steps_to(t, beyond, forward)
    &&& forall|k: int, j: int|
        0 <= k < c.tracks.len() && 0 <= j < c.tracks[k].times.len() && steps_to(
            #[trigger] c.tracks[k].times[j],
            beyond,
            forward,
        ) ==> if forward {
            !c.tracks[k].times[j].before(t)
        } else {
            !t.before(c.tracks[k].times[j])
        }
}

/// Where a step from `from` to the neighbouring key leads: to the nearest key
/// time past `beyond`, or nowhere.
pub open spec fn neighbour(v: TimelineView, from: F64, beyond: F64, forward: bool, t: F64) -> bool {
    match v.current_clip {
        Some(id) => if v.has_clip(id) {
            let c = v.clip(id);
            if exists|u: F64| keyed(c, u) && #[trigger] steps_to(u, beyond, forward) {
                nearest(c, beyond, forward, t)
            } else {
                t == from
            }
        } else {
            t == from
        },
        None => t == from,
    }
}

/// Where the playhead stands after a step to the neighbouring key.
pub open spec fn stepped(v: TimelineView, beyond: F64, forward: bool, to: F64) -> bool {
    exists|t: F64| #[trigger]
        neighbour(v, v.playhead, beyond, forward, t) && to == kept_within(
            t,
            current_length(v).floored(),
        )
}

/// The transport after a command.
pub open spec fn transport_step(v: TimelineView, cmd: TransportCommand, w: TimelineView) -> bool {
    match cmd {
        TransportCommand::SetPlayhead { time } => w == (TimelineView {
            playhead: time.floored(),
            ..v
        }),
        TransportCommand::SetPlaying { on } => w == (TimelineView { playing: on, ..v }),
        TransportCommand::StepPlayhead { kind, beyond } => {
            let hi = current_length(v).floored();
            &&& w == (TimelineView { playhead: w.playhead, ..v })
            &&& match kind {
                StepKind::Home => w.playhead == kept_within(F64::zero(), hi),
                StepKind::End => w.playhead == kept_within(current_length(v), hi),
                StepKind::Prev => stepped(v, beyond, false, w.playhead),
                StepKind::Next => stepped(v, beyond, true, w.playhead),
            }
        },
        TransportCommand::SetAnimFps { fps } => w == (TimelineView {
            fps: if fps < 1 {
                1
            } else {
                fps
            },
            ..v
        }),
        TransportCommand::SetSoloRoot { id } => w == (TimelineView { solo_root: id, ..v }),
        TransportCommand::SetAnimSelection { sel } => w == (TimelineView { selection: sel, ..v }),
        TransportCommand::SetAnimView { view } => w == (TimelineView { dock: view, ..v }),
    }
}

fn keep_within(t: F64, hi: F64) -> (r: F64)
    ensures
        r == kept_within(t, hi),
{
    if t.lt(F64::zero()) {
        F64::zero()
    } else if hi.lt(t) {
        hi
    } else {
        t
    }
}

fn is_step(t: F64, beyond: F64, forward: bool) -> (r: bool)
    ensures
        r == steps_to(t, beyond, forward),
{
    if forward {
        beyond.lt(t)
    } else {
        t.lt(beyond)
    }
}

/// Whether `b` is the nearest among the first `n` times of a row, where one of
/// them is past `beyond`.
spec fn best_of(times: Seq<F64>, n: int, beyond: F64, forward: bool, b: Option<F64>) -> bool {
    match b {
        Some(t) => steps_to(t, beyond, forward) && forall|j: int|
            0 <= j < n && steps_to(#[trigger] times[j], beyond, forward) ==> if forward {
                !times[j].before(t)
            } else {
                !t.before(times[j])
            },
        None => forall|j: int| 0 <= j < n ==> !steps_to(#[trigger] times[j], beyond, forward),
    }
}

/// The better of what is known and the times of one track.
fn best_in_track(track: &Track, beyond: F64, forward: bool, known: Option<F64>) -> (r: Option<F64>)
    requires
        known matches Some(t) ==> steps_to(t, beyond, forward),
    ensures
        best_of(track.times@, track.times@.len() as int, beyond, forward, r),
        known is Some ==> r is Some && if forward {
            !known->0.before(r->0)
        } else {
            !r->0.before(known->0)
        },
        r matches Some(t) ==> known == Some(t) || exists|j: int|
            0 <= j < track.times@.len() && #[trigger] track.times@[j] == t,
{
    let mut best: Option<F64> = known;
    let mut i: usize = 0;
    while i < track.times.len()
        invariant
            i <= track.times@.len(),
            best_of(track.times@, i as int, beyond, forward, best),
            known is Some ==> best is Some && if forward {
                !known->0.before(best->0)
            } else {
                !best->0.before(known->0)
            },
            best matches Some(t) ==> known == Some(t) || exists|j: int|
                0 <= j < i && #[trigger] track.times@[j] == t,
        decreases track.times@.len() - i,
    {
        let t: F64 = *track.times.at(i);
        if is_step(t, beyond, forward) {
            match best {
                Some(b) => {
                    let better = if forward {
                        t.lt(b)
                    } else {
                        b.lt(t)
                    };
                    if better {
                        best = Some(t);
                    }
                },
                None => {
                    best = Some(t);
                },
            }
        }
        i += 1;
    }
    best
}

/// The timeline with one layer replaced.
pub open spec fn with_layer(v: TimelineView, layer: usize, l: LayerShape) -> TimelineView {
    TimelineView { layers: v.layers.update(layer as int, l), ..v }
}

pub open spec fn has_strip(v: TimelineView, layer: usize, strip: usize) -> bool {
    layer < v.layers.len() && strip < v.layers[layer as int].strips.len()
}

/// The timeline with other strips on a layer.
pub open spec fn with_strips(v: TimelineView, layer: usize, strips: Seq<StripDoc>) -> TimelineView {
    with_layer(v, layer, LayerShape { strips, ..v.layers[layer as int] })
}

/// The timeline with one strip replaced.
pub open spec fn with_strip(
    v: TimelineView,
    layer: usize,
    strip: usize,
    s: StripDoc,
) -> TimelineView {
    with_strips(v, layer, v.layers[layer as int].strips.update(strip as int, s))
}

pub open spec fn strip_of(v: TimelineView, layer: usize, strip: usize) -> StripDoc {
    v.layers[layer as int].strips[strip as int]
}

/// A strip of a clip at its own pace, played once.
pub open spec fn plain_strip(clip: AssetId, start: F64, len: F64) -> StripDoc {
    StripDoc { clip, start, len, scale: F64::one(), repeat: false }
}

/// Whether an edit of the mixer is refused: it changes a layer or a strip that
/// is not there. Deleting what is not there is no error.
pub open spec fn mixer_refused(v: TimelineView, cmd: MixerCommand) -> bool {
    match cmd {
        MixerCommand::AddLayer => false,
        MixerCommand::DeleteLayer { .. } => false,
        MixerCommand::RestoreLayer { .. } => false,
        MixerCommand::SetLayerMode { layer, .. } => layer >= v.layers.len(),
        MixerCommand::SetLayerWeight { layer, .. } => layer >= v.layers.len(),
        MixerCommand::SetLayerMask { layer, .. } => layer >= v.layers.len(),
        MixerCommand::AddStrip { layer, .. } => layer >= v.layers.len(),
        MixerCommand::DeleteStrip { .. } => false,
        MixerCommand::RestoreStrip { layer, .. } => layer >= v.layers.len(),
        MixerCommand::MoveStrip { layer, strip, .. } => !has_strip(v, layer, strip),
        MixerCommand::TrimStrip { layer, strip, .. } => !has_strip(v, layer, strip),
        MixerCommand::SetStripRepeat { layer, strip, .. } => !has_strip(v, layer, strip),
    }
}

/// The timeline after an edit of the mixer that is not refused.
pub open spec fn mixer_after(v: TimelineView, cmd: MixerCommand) -> TimelineView {
    match cmd {
        MixerCommand::AddLayer => TimelineView { layers: v.layers.push(empty_layer()), ..v },
        MixerCommand::DeleteLayer { layer } => if layer < v.layers.len() {
            TimelineView { layers: v.layers.remove(layer as int), ..v }
        } else {
            v
        },
        MixerCommand::RestoreLayer { layer, whole } => TimelineView {
            layers: v.layers.insert(capped(layer, v.layers.len()), whole.shape()),
            ..v
        },
        MixerCommand::SetLayerMode { layer, mode } => with_layer(
            v,
            layer,
            LayerShape { mode, ..v.layers[layer as int] },
        ),
        MixerCommand::SetLayerWeight { layer, weight } => with_layer(
            v,
            layer,
            LayerShape { weight: weight.unit_clamped(), ..v.layers[layer as int] },
        ),
        MixerCommand::SetLayerMask { layer, nodes, include_descendants } => with_layer(
            v,
            layer,
            LayerShape { mask_nodes: nodes@, include_descendants, ..v.layers[layer as int] },
        ),
        MixerCommand::AddStrip { layer, clip, start, len } => with_strips(
            v,
            layer,
            v.layers[layer as int].strips.push(plain_strip(clip, start, len)),
        ),
        MixerCommand::DeleteStrip { layer, strip } => if has_strip(v, layer, strip) {
            with_strips(v, layer, v.layers[layer as int].strips.remove(strip as int))
        } else {
            v
        },
        MixerCommand::RestoreStrip { layer, strip, doc } => with_strips(
            v,
            layer,
            v.layers[layer as int].strips.insert(
                capped(strip, v.layers[layer as int].strips.len()),
                doc,
            ),
        ),
        MixerCommand::MoveStrip { layer, strip, start } => with_strip(
            v,
            layer,
            strip,
            StripDoc { start, ..strip_of(v, layer, strip) },
        ),
        MixerCommand::TrimStrip { layer, strip, start, len } => with_strip(
            v,
            layer,
            strip,
            StripDoc { start, len: len.floored(), ..strip_of(v, layer, strip) },
        ),
        MixerCommand::SetStripRepeat { layer, strip, repeat } => with_strip(
            v,
            layer,
            strip,
            StripDoc { repeat, ..strip_of(v, layer, strip) },
        ),
    }
}

/// What takes an edit of the mixer back.
pub open spec fn mixer_inverse(
    v: TimelineView,
    cmd: MixerCommand,
    inv: Option<MixerCommand>,
) -> bool {
    match cmd {
        MixerCommand::AddLayer => inv matches Some(MixerCommand::DeleteLayer { layer }) && layer
            == v.layers.len(),
        MixerCommand::DeleteLayer { layer } => if layer < v.layers.len() {
            inv matches Some(MixerCommand::RestoreLayer { layer: l, whole }) && l == layer
                && whole.shape() == v.layers[layer as int]
        } else {
            inv is None
        },
        MixerCommand::RestoreLayer { layer, .. } => inv == Some(
            MixerCommand::DeleteLayer { layer },
        ),
        MixerCommand::SetLayerMode { layer, .. } => inv == Some(
            MixerCommand::SetLayerMode { layer, mode: v.layers[layer as int].mode },
        ),
        MixerCommand::SetLayerWeight { layer, .. } => inv == Some(
            MixerCommand::SetLayerWeight { layer, weight: v.layers[layer as int].weight },
        ),
        MixerCommand::SetLayerMask { layer, .. } => inv matches Some(
            MixerCommand::SetLayerMask { layer: l, nodes, include_descendants },
        ) && l == layer && nodes@ == v.layers[layer as int].mask_nodes && include_descendants
            == v.layers[layer as int].include_descendants,
        MixerCommand::AddStrip { layer, .. } => inv matches Some(
            MixerCommand::DeleteStrip { layer: l, strip },
        ) && l == layer && strip == v.layers[layer as int].strips.len(),
        MixerCommand::DeleteStrip { layer, strip } => if has_strip(v, layer, strip) {
            inv == Some(
                MixerCommand::RestoreStrip { layer, strip, doc: strip_of(v, layer, strip) },
            )
        } else {
            inv is None
        },
        MixerCommand::RestoreStrip { layer, strip, .. } => inv == Some(
            MixerCommand::DeleteStrip { layer, strip },
        ),
        MixerCommand::MoveStrip { layer, strip, .. } => inv == Some(
            MixerCommand::MoveStrip { layer, strip, start: strip_of(v, layer, strip).start },
        ),
        MixerCommand::TrimStrip { layer, strip, .. } => inv == Some(
            MixerCommand::TrimStrip {
                layer,
                strip,
                start: strip_of(v, layer, strip).start,
                len: strip_of(v, layer, strip).len,
            },
        ),
        MixerCommand::SetStripRepeat { layer, strip, .. } => inv == Some(
            MixerCommand::SetStripRepeat { layer, strip, repeat: strip_of(v, layer, strip).repeat },
        ),
    }
}

/// Whether an edit of the mixer can be taken back exactly: an index that it
/// names lies within the row, and a number it replaces was in range.
pub open spec fn mixer_undoable(v: TimelineView, cmd: MixerCommand) -> bool {
    match cmd {
        MixerCommand::RestoreLayer { layer, .. } => layer <= v.layers.len(),
        MixerCommand::RestoreStrip { layer, strip, .. } => strip
            <= v.layers[layer as int].strips.len(),
        MixerCommand::SetLayerWeight { layer, .. } => v.layers[layer as int].weight.unit_clamped()
            == v.layers[layer as int].weight,
        MixerCommand::TrimStrip { layer, strip, .. } => strip_of(v, layer, strip).len.floored()
            == strip_of(v, layer, strip).len,
        _ => true,
    }
}

/// Taking back an edit of the mixer leads to the mixer before it.
pub proof fn law_mixer_edit_is_undone(v: TimelineView, cmd: MixerCommand, inv: MixerCommand)
    requires
        !mixer_refused(v, cmd),
        mixer_inverse(v, cmd, Some(inv)),
        mixer_undoable(v, cmd),
    ensures
        !mixer_refused(mixer_after(v, cmd), inv),
        mixer_after(mixer_after(v, cmd), inv) == v,
{
    let mid = mixer_after(v, cmd);
    let back = mixer_after(mid, inv);
    match cmd {
        MixerCommand::AddLayer => {
            assert(back.layers =~= v.layers);
        },
        MixerCommand::DeleteLayer { .. } => {
            assert(back.layers =~= v.layers);
        },
        MixerCommand::RestoreLayer { .. } => {
            assert(back.layers =~= v.layers);
        },
        MixerCommand::AddStrip { layer, .. } => {
            assert(back.layers[layer as int].strips =~= v.layers[layer as int].strips);
        },
        MixerCommand::DeleteStrip { layer, .. } => {
            assert(back.layers[layer as int].strips =~= v.layers[layer as int].strips);
        },
        MixerCommand::RestoreStrip { layer, .. } => {
            assert(back.layers[layer as int].strips =~= v.layers[layer as int].strips);
        },
        MixerCommand::MoveStrip { layer, strip, .. } => {
            assert(back.layers[layer as int].strips =~= v.layers[layer as int].strips);
        },
        MixerCommand::TrimStrip { layer, strip, .. } => {
            assert(back.layers[layer as int].strips =~= v.layers[layer as int].strips);
        },
        MixerCommand::SetStripRepeat { layer, strip, .. } => {
            assert(back.layers[layer as int].strips =~= v.layers[layer as int].strips);
        },
        _ => {},
    }
    assert(back.layers =~= v.layers);
    assert(back =~= v);
}

impl Timeline {
    /// The time of the key next to `from`: the nearest one past `beyond`, or
    /// `from` itself where there is none.
    pub fn adjacent_keyframe_time(&self, from: F64, beyond: F64, forward: bool) -> (t: F64)
        ensures
            neighbour(self@, from, beyond, forward, t),
    {
        let id = match self.current_clip {
            Some(id) => id,
            None => {
                return from;
            },
        };
        let at = match find_clip(&self.clips, id) {
            Some(i) => i,
            None => {
                return from;
            },
        };
        let ghost c = self@.clip(id);
        let mut best: Option<F64> = None;
        let mut k: usize = 0;
        while k < self.clips[at].tracks.len()
            invariant
                at < self.clips@.len(),
                c == self.clips@[at as int].shape(),
                k <= c.tracks.len(),
                c.tracks.len() == self.clips@[at as int].tracks@.len(),
                best matches Some(t) ==> keyed(c, t) && steps_to(t, beyond, forward),
                forall|q: int|
                    #![trigger c.tracks[q]]
                    0 <= q < k ==> best_of(
                        c.tracks[q].times,
                        c.tracks[q].times.len() as int,
                        beyond,
                        forward,
                        best,
                    ),
            decreases c.tracks.len() - k,
        {
            let ghost was = best;
            best = best_in_track(self.clips[at].tracks.at(k), beyond, forward, best);
            proof {
                let row = c.tracks[k as int].times;
                if best is Some && best != was {
                    let j = choose|j: int| 0 <= j < row.len() && #[trigger] row[j] == best->0;
                    assert(c.tracks[k as int].times[j] == best->0);
                    assert(keyed(c, best->0));
                }
                assert forall|q: int| #![trigger c.tracks[q]] 0 <= q < k + 1 implies best_of(
                    c.tracks[q].times,
                    c.tracks[q].times.len() as int,
                    beyond,
                    forward,
                    best,
                ) by {
                    if q < k {
                        assert(best_of(
                            c.tracks[q].times,
                            c.tracks[q].times.len() as int,
                            beyond,
                            forward,
                            was,
                        ));
                        if was is None {
                            if best is Some {
                                assert forall|j: int|
                                    0 <= j < c.tracks[q].times.len() && steps_to(
                                        #[trigger] c.tracks[q].times[j],
                                        beyond,
                                        forward,
                                    ) implies false by {}
                            }
                        }
                    }
                }
            }
            k += 1;
        }
        match best {
            Some(t) => {
                proof {
                    assert(keyed(c, t) && steps_to(t, beyond, forward));
                    assert forall|q: int, j: int|
                        0 <= q < c.tracks.len() && 0 <= j < c.tracks[q].times.len() && steps_to(
                            #[trigger] c.tracks[q].times[j],
                            beyond,
                            forward,
                        ) implies if forward {
                        !c.tracks[q].times[j].before(t)
                    } else {
                        !t.before(c.tracks[q].times[j])
                    } by {
                        assert(best_of(
                            c.tracks[q].times,
                            c.tracks[q].times.len() as int,
                            beyond,
                            forward,
                            best,
                        ));
                    }
                }
                t
            },
            None => {
                proof {
                    assert forall|u: F64| keyed(c, u) implies !(#[trigger] steps_to(
                        u,
                        beyond,
                        forward,
                    )) by {
                        let (q, j) = choose|q: int, j: int|
                            0 <= q < c.tracks.len() && 0 <= j < c.tracks[q].times.len()
                                && #[trigger] c.tracks[q].times[j] == u;
                        assert(best_of(
                            c.tracks[q].times,
                            c.tracks[q].times.len() as int,
                            beyond,
                            forward,
                            best,
                        ));
                    }
                }
                from
            },
        }
    }

    fn length_of_current(&self) -> (r: F64)
        ensures
            r == current_length(self@),
    {
        match self.current_clip {
            Some(id) => match find_clip(&self.clips, id) {
                Some(i) => self.clips[i].duration,
                None => F64::zero(),
            },
            None => F64::zero(),
        }
    }

    fn step(&mut self, kind: StepKind, beyond: F64)
        ensures
            transport_step(
                old(self)@,
                TransportCommand::StepPlayhead { kind, beyond },
                final(self)@,
            ),
    {
        let length = self.length_of_current();
        let from = self.playhead;
        let next = match kind {
            StepKind::Home => F64::zero(),
            StepKind::End => length,
            StepKind::Prev => self.adjacent_keyframe_time(from, beyond, false),
            StepKind::Next => self.adjacent_keyframe_time(from, beyond, true),
        };
        self.playhead = keep_within(next, length.at_least_zero());
        proof {
            let v = old(self)@;
            if kind == StepKind::Prev {
                assert(neighbour(v, v.playhead, beyond, false, next));
                assert(stepped(v, beyond, false, self.playhead));
            }
            if kind == StepKind::Next {
                assert(neighbour(v, v.playhead, beyond, true, next));
                assert(stepped(v, beyond, true, self.playhead));
            }
            assert(self@ =~= TimelineView { playhead: self@.playhead, ..v });
        }
    }

    /// Applies a transport command; none of them can be taken back.
    pub fn apply_transport(&mut self, cmd: TransportCommand)
        ensures
            transport_step(old(self)@, cmd, final(self)@),
    {
        match cmd {
            TransportCommand::SetPlayhead { time } => {
                self.playhead = time.at_least_zero();
            },
            TransportCommand::SetPlaying { on } => {
                self.playing = on;
            },
            TransportCommand::StepPlayhead { kind, beyond } => {
                self.step(kind, beyond);
            },
            TransportCommand::SetAnimFps { fps } => {
                self.fps = if fps < 1 {
                    1
                } else {
                    fps
                };
            },
            TransportCommand::SetSoloRoot { id } => {
                self.solo_root = id;
            },
            TransportCommand::SetAnimSelection { sel } => {
                self.selection = sel;
            },
            TransportCommand::SetAnimView { view } => {
                self.dock = view;
            },
        }
    }

    fn put_layer(&mut self, layer: usize, l: LayerDoc)
        requires
            layer < old(self).layers@.len(),
        ensures
            final(self)@ == with_layer(old(self)@, layer, l.shape()),
    {
        let ghost before = self@;
        self.layers.set(layer, l);
        assert(self@.layers =~= before.layers.update(layer as int, l.shape()));
    }

    fn put_strips(&mut self, layer: usize, strips: List<StripDoc>)
        requires
            layer < old(self).layers@.len(),
        ensures
            final(self)@ == with_strips(old(self)@, layer, strips@),
    {
        let mut l = self.layers[layer].same();
        l.strips = strips;
        self.put_layer(layer, l);
    }

    fn put_strip(&mut self, layer: usize, strip: usize, s: StripDoc)
        requires
            has_strip(old(self)@, layer, strip),
        ensures
            final(self)@ == with_strip(old(self)@, layer, strip, s),
    {
        let strips = self.layers[layer].strips.with(strip, s);
        self.put_strips(layer, strips);
    }

    fn find_strip(&self, layer: usize, strip: usize) -> (r: Option<StripDoc>)
        ensures
            match r {
                Some(s) => has_strip(self@, layer, strip) && s == strip_of(self@, layer, strip),
                None => !has_strip(self@, layer, strip),
            },
    {
        if layer < self.layers.len() && strip < self.layers[layer].strips.len() {
            Some(*self.layers[layer].strips.at(strip))
        } else {
            None
        }
    }

    fn delete_layer(&mut self, layer: usize) -> (r: Option<LayerDoc>)
        ensures
            final(self)@ == mixer_after(old(self)@, MixerCommand::DeleteLayer { layer }),
            match r {
                Some(l) => layer < old(self)@.layers.len() && l.shape()
                    == old(self)@.layers[layer as int],
                None => layer >= old(self)@.layers.len(),
            },
    {
        if layer >= self.layers.len() {
            return None;
        }
        let ghost before = self@;
        let l = self.layers.remove(layer);
        assert(self@.layers =~= before.layers.remove(layer as int));
        Some(l)
    }

    fn restore_layer(&mut self, layer: usize, whole: LayerDoc)
        ensures
            final(self)@ == mixer_after(old(self)@, MixerCommand::RestoreLayer { layer, whole }),
    {
        let ghost before = self@;
        let at = if layer < self.layers.len() {
            layer
        } else {
            self.layers.len()
        };
        self.layers.insert(at, whole);
        assert(self@.layers =~= before.layers.insert(at as int, whole.shape()));
    }

    fn set_mode(&mut self, layer: usize, mode: LayerMode) -> (r: Option<LayerMode>)
        ensures
            match r {
                Some(prev) => {
                    &&& layer < old(self)@.layers.len()
                    &&& prev == old(self)@.layers[layer as int].mode
                    &&& final(self)@ == with_layer(
                        old(self)@,
                        layer,
                        LayerShape { mode, ..old(self)@.layers[layer as int] },
                    )
                },
                None => layer >= old(self)@.layers.len() && final(self)@ == old(self)@,
            },
    {
        if layer >= self.layers.len() {
            return None;
        }
        let prev = self.layers[layer].mode;
        let mut l = self.layers[layer].same();
        l.mode = mode;
        self.put_layer(layer, l);
        Some(prev)
    }

    fn set_weight(&mut self, layer: usize, weight: F32) -> (r: Option<F32>)
        ensures
            match r {
                Some(prev) => {
                    &&& layer < old(self)@.layers.len()
                    &&& prev == old(self)@.layers[layer as int].weight
                    &&& final(self)@ == mixer_after(
                        old(self)@,
                        MixerCommand::SetLayerWeight { layer, weight },
                    )
                },
                None => layer >= old(self)@.layers.len() && final(self)@ == old(self)@,
            },
    {
        if layer >= self.layers.len() {
            return None;
        }
        let prev = self.layers[layer].weight;
        let mut l = self.layers[layer].same();
        l.weight = weight.clamp_unit();
        self.put_layer(layer, l);
        Some(prev)
    }

    fn set_mask(&mut self, layer: usize, nodes: List<NodeId>, include_descendants: bool) -> (r: Option<
        (List<NodeId>, bool),
    >)
        ensures
            match r {
                Some((n, d)) => {
                    &&& layer < old(self)@.layers.len()
                    &&& n@ == old(self)@.layers[layer as int].mask_nodes
                    &&& d == old(self)@.layers[layer as int].include_descendants
                    &&& final(self)@ == mixer_after(
                        old(self)@,
                        MixerCommand::SetLayerMask { layer, nodes, include_descendants },
                    )
                },
                None => layer >= old(self)@.layers.len() && final(self)@ == old(self)@,
            },
    {
        if layer >= self.layers.len() {
            return None;
        }
        let prev = (self.layers[layer].mask_nodes.clone(), self.layers[layer].include_descendants);
        let mut l = self.layers[layer].same();
        l.mask_nodes = nodes;
        l.include_descendants = include_descendants;
        self.put_layer(layer, l);
        Some(prev)
    }

    fn add_strip(&mut self, layer: usize, s: StripDoc) -> (r: Option<usize>)
        ensures
            match r {
                Some(k) => {
                    &&& layer < old(self)@.layers.len()
                    &&& k == old(self)@.layers[layer as int].strips.len()
                    &&& final(self)@ == with_strips(
                        old(self)@,
                        layer,
                        old(self)@.layers[layer as int].strips.push(s),
                    )
                },
                None => layer >= old(self)@.layers.len() && final(self)@ == old(self)@,
            },
    {
        if layer >= self.layers.len() {
            return None;
        }
        let k = self.layers[layer].strips.len();
        let strips = self.layers[layer].strips.push(s);
        self.put_strips(layer, strips);
        Some(k)
    }

    fn restore_strip(&mut self, layer: usize, strip: usize, doc: StripDoc) -> (r: bool)
        ensures
            r == (layer < old(self)@.layers.len()),
            r ==> final(self)@ == mixer_after(
                old(self)@,
                MixerCommand::RestoreStrip { layer, strip, doc },
            ),
            !r ==> final(self)@ == old(self)@,
    {
        if layer >= self.layers.len() {
            return false;
        }
        let mut strips = self.layers[layer].strips.to_vec();
        let at = if strip < strips.len() {
            strip
        } else {
            strips.len()
        };
        strips.insert(at, doc);
        self.put_strips(layer, List::from_vec(strips));
        true
    }

    /// Applies an edit of the mixer and hands back what takes it back.
    pub fn apply_mixer(&mut self, cmd: MixerCommand) -> (r: Result<Option<MixerCommand>, EditorError>)
        ensures
            match r {
                Ok(inv) => {
                    &&& !mixer_refused(old(self)@, cmd)
                    &&& final(self)@ == mixer_after(old(self)@, cmd)
                    &&& mixer_inverse(old(self)@, cmd, inv)
                },
                Err(e) => {
                    &&& mixer_refused(old(self)@, cmd)
                    &&& e == EditorError::TargetNotFound
                    &&& final(self)@ == old(self)@
                },
            },
    {
        match cmd {
            MixerCommand::AddLayer => {
                let layer = self.layers.len();
                let ghost before = self@;
                self.layers.push(LayerDoc::new());
                assert(self@.layers =~= before.layers.push(empty_layer()));
                Ok(Some(MixerCommand::DeleteLayer { layer }))
            },
            MixerCommand::DeleteLayer { layer } => match self.delete_layer(layer) {
                Some(whole) => Ok(Some(MixerCommand::RestoreLayer { layer, whole })),
                None => Ok(None),
            },
            MixerCommand::RestoreLayer { layer, whole } => {
                self.restore_layer(layer, whole);
                Ok(Some(MixerCommand::DeleteLayer { layer }))
            },
            MixerCommand::SetLayerMode { layer, mode } => match self.set_mode(layer, mode) {
                Some(mode) => Ok(Some(MixerCommand::SetLayerMode { layer, mode })),
                None => Err(EditorError::TargetNotFound),
            },
            MixerCommand::SetLayerWeight { layer, weight } => match self.set_weight(layer, weight) {
                Some(weight) => Ok(Some(MixerCommand::SetLayerWeight { layer, weight })),
                None => Err(EditorError::TargetNotFound),
            },
            MixerCommand::SetLayerMask { layer, nodes, include_descendants } => match self.set_mask(
                layer,
                nodes,
                include_descendants,
            ) {
                Some((nodes, include_descendants)) => Ok(
                    Some(MixerCommand::SetLayerMask { layer, nodes, include_descendants }),
                ),
                None => Err(EditorError::TargetNotFound),
            },
            MixerCommand::AddStrip { layer, clip, start, len } => match self.add_strip(
                layer,
                StripDoc { clip, start, len, scale: F64::one(), repeat: false },
            ) {
                Some(strip) => Ok(Some(MixerCommand::DeleteStrip { layer, strip })),
                None => Err(EditorError::TargetNotFound),
            },
            MixerCommand::DeleteStrip { layer, strip } => match self.find_strip(layer, strip) {
                Some(doc) => {
                    let strips = self.layers[layer].strips.without(strip);
                    self.put_strips(layer, strips);
                    Ok(Some(MixerCommand::RestoreStrip { layer, strip, doc }))
                },
                None => Ok(None),
            },
            MixerCommand::RestoreStrip { layer, strip, doc } => {
                if self.restore_strip(layer, strip, doc) {
                    Ok(Some(MixerCommand::DeleteStrip { layer, strip }))
                } else {
                    Err(EditorError::TargetNotFound)
                }
            },
            MixerCommand::MoveStrip { layer, strip, start } => match self.find_strip(layer, strip) {
                Some(s) => {
                    let prev = s.start;
                    self.put_strip(layer, strip, StripDoc { start, ..s });
                    Ok(Some(MixerCommand::MoveStrip { layer, strip, start: prev }))
                },
                None => Err(EditorError::TargetNotFound),
            },
            MixerCommand::TrimStrip { layer, strip, start, len } => match self.find_strip(
                layer,
                strip,
            ) {
                Some(s) => {
                    let (was, long) = (s.start, s.len);
                    self.put_strip(
                        layer,
                        strip,
                        StripDoc { start, len: len.at_least_zero(), ..s },
                    );
                    Ok(Some(MixerCommand::TrimStrip { layer, strip, start: was, len: long }))
                },
                None => Err(EditorError::TargetNotFound),
            },
            MixerCommand::SetStripRepeat { layer, strip, repeat } => match self.find_strip(
                layer,
                strip,
            ) {
                Some(s) => {
                    let prev = s.repeat;
                    self.put_strip(layer, strip, StripDoc { repeat, ..s });
                    Ok(Some(MixerCommand::SetStripRepeat { layer, strip, repeat: prev }))
                },
                None => Err(EditorError::TargetNotFound),
            },
        }
    }
}

} // verus!

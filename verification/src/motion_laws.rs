//! What holds of the edits of clips, tracks, keys, layers and the playhead: each sets
//! what it names, to what it is given, and nothing else.
use crate::clips::{
    after_all, by_time, clip_at, is_clip, ClipShape, Interp, Keyframe, LayerMode, LoopStyle,
    PlayDirection, SamplerKind, StripDoc, TrackShape, TrackTarget, TransformProp,
};
use crate::custom_material::CustomMaterial;
use crate::find::lemma_first;
use crate::ids::AssetId;
use crate::import_laws::all_zero;
use crate::mixer::{
    current_length, kept_within, keyed, mixer_after, mixer_refused, neighbour, steps_to,
    transport_step,
};
use crate::read_laws::same_shape;
use crate::timeline::{
    clip_after, clip_refused, key_added, key_deleted, key_inserted, key_set, rekeyed,
    replaces_key, slot_for, target_alive, track_after, without_clip, ClipCommand, KeyChange,
    MixerCommand, StepKind, TimelineView, TrackCommand, TransportCommand,
};
use crate::tree::{within, Tree};
use crate::values::{F32, F64};
use vstd::prelude::*;

verus! {

/// What is given, or what was there.
pub open spec fn given_or<T>(given: Option<T>, was: T) -> T {
    match given {
        Some(x) => x,
        None => was,
    }
}

/// Numbers are in the order of their values: those with a sign below those without,
/// zero with a sign where zero is, and what is not a number nowhere.
pub proof fn law_numbers_are_in_order(a: F64, b: F64)
    ensures
        a.bits < b.bits <= 0x7FF0_0000_0000_0000 ==> a.before(b),
        0x8000_0000_0000_0000 <= a.bits < b.bits <= 0xFFF0_0000_0000_0000 ==> b.before(a),
        a.bits <= 0x7FF0_0000_0000_0000 && 0x8000_0000_0000_0000 < b.bits <= 0xFFF0_0000_0000_0000
            ==> b.before(a),
        0x7FF0_0000_0000_0000 < a.bits < 0x8000_0000_0000_0000 ==> !a.before(b) && !b.before(a),
        0xFFF0_0000_0000_0000 < a.bits ==> !a.before(b) && !b.before(a),
        a.bits == 0 && b.bits == 0x8000_0000_0000_0000 ==> !a.before(b) && !b.before(a),
        !a.before(a),
        a.before(b) ==> !b.before(a),
{
}

/// A number that may not be negative stays as it is where it is above zero, and is
/// zero elsewhere.
pub proof fn law_floor_keeps_what_is_above(x: F64)
    ensures
        (F64 { bits: 0 }).before(x) ==> x.floored() == x,
        !(F64 { bits: 0 }).before(x) ==> x.floored() == (F64 { bits: 0 }),
{
}

/// A number that is kept between zero and one stays as it is there, and is the nearer
/// of the two elsewhere.
pub proof fn law_clamp_keeps_what_is_between(x: F32)
    ensures
        x.bits <= 0x3F80_0000 ==> x.unit_clamped() == x,
        0x3F80_0000 < x.bits <= 0x7F80_0000 ==> x.unit_clamped() == (F32 { bits: 0x3F80_0000 }),
        0x8000_0000 < x.bits <= 0xFF80_0000 ==> x.unit_clamped() == (F32 { bits: 0 }),
        x.nan() ==> x.unit_clamped() == x,
        x.bits == 0x8000_0000 ==> x.unit_clamped() == x,
{
}

/// The clip that an edit of one part of a clip is about.
pub open spec fn edited_clip(cmd: ClipCommand) -> Option<AssetId> {
    match cmd {
        ClipCommand::AddClip { .. } => None,
        ClipCommand::DeleteClip { .. } => None,
        ClipCommand::DuplicateClip { .. } => None,
        ClipCommand::SetCurrentClip { .. } => None,
        ClipCommand::RenameClip { id, .. } => Some(id),
        ClipCommand::SetClipDuration { id, .. } => Some(id),
        ClipCommand::SetClipLoop { id, .. } => Some(id),
        ClipCommand::SetClipSpeed { id, .. } => Some(id),
        ClipCommand::SetClipDirection { id, .. } => Some(id),
        ClipCommand::SetClipColor { id, .. } => Some(id),
    }
}

/// Whether only the clips differ, and only one of them.
pub open spec fn one_clip_differs(v: TimelineView, w: TimelineView, at: int) -> bool {
    &&& w.clips.len() == v.clips.len()
    &&& forall|i: int| 0 <= i < v.clips.len() && i != at ==> #[trigger] w.clips[i] == v.clips[i]
    &&& w.current_clip == v.current_clip
    &&& rest_same(v, w)
}

/// Whether all but the clips and the current clip is as it was.
pub open spec fn rest_same(v: TimelineView, w: TimelineView) -> bool {
    &&& w.playhead == v.playhead
    &&& w.playing == v.playing
    &&& w.fps == v.fps
    &&& w.solo_root == v.solo_root
    &&& w.selection == v.selection
    &&& w.dock == v.dock
    &&& w.layers == v.layers
}

/// An edit of one part of a clip sets that part of that clip, and nothing else.
pub proof fn law_clip_edit_sets_one_part(v: TimelineView, cmd: ClipCommand, id: AssetId)
    requires
        edited_clip(cmd) == Some(id),
    ensures
        clip_refused(v, cmd) == !exists|i: int|
            0 <= i < v.clips.len() && (#[trigger] v.clips[i]).id == id,
        !clip_refused(v, cmd) ==> {
            let at = clip_at(v.clips, id);
            let w = clip_after(v, cmd);
            let a = v.clips[at];
            let b = w.clips[at];
            &&& 0 <= at < v.clips.len()
            &&& a.id == id
            &&& forall|i: int| 0 <= i < at ==> (#[trigger] v.clips[i]).id != id
            &&& one_clip_differs(v, w, at)
            &&& b.id == a.id
            &&& b.tracks == a.tracks
            &&& match cmd {
                ClipCommand::RenameClip { text, .. } => b.name == text@,
                _ => b.name == a.name,
            }
            &&& match cmd {
                ClipCommand::SetClipDuration { duration, .. } => b.duration == if (F64 {
                    bits: 0,
                }).before(duration) {
                    duration
                } else {
                    F64 { bits: 0 }
                },
                _ => b.duration == a.duration,
            }
            &&& match cmd {
                ClipCommand::SetClipLoop { loop_style, .. } => b.loop_style == loop_style,
                _ => b.loop_style == a.loop_style,
            }
            &&& match cmd {
                ClipCommand::SetClipSpeed { speed, .. } => b.speed == speed,
                _ => b.speed == a.speed,
            }
            &&& match cmd {
                ClipCommand::SetClipDirection { direction, .. } => b.direction == direction,
                _ => b.direction == a.direction,
            }
            &&& match cmd {
                ClipCommand::SetClipColor { color, .. } => b.color == color@,
                _ => b.color == a.color,
            }
        },
{
    let p = is_clip(id);
    lemma_first(v.clips, p);
    let at = clip_at(v.clips, id);
    if 0 <= at < v.clips.len() {
        assert(p(v.clips[at]));
    }
    if clip_refused(v, cmd) {
        assert forall|i: int| 0 <= i < v.clips.len() implies (#[trigger] v.clips[i]).id != id by {
            assert(!p(v.clips[i]));
        }
    } else {
        assert forall|i: int| 0 <= i < at implies (#[trigger] v.clips[i]).id != id by {
            assert(!p(v.clips[i]));
        }
    }
}

proof fn lemma_without(cs: Seq<ClipShape>, id: AssetId)
    ensures
        forall|i: int|
            0 <= i < without_clip(cs, id).len() ==> (#[trigger] without_clip(cs, id)[i]).id != id
                && cs.contains(without_clip(cs, id)[i]),
        forall|i: int|
            0 <= i < cs.len() && (#[trigger] cs[i]).id != id ==> without_clip(cs, id).contains(
                cs[i],
            ),
    decreases cs.len(),
{
    if cs.len() > 0 {
        let less = cs.drop_last();
        lemma_without(less, id);
        let a = without_clip(less, id);
        let r = without_clip(cs, id);
        assert forall|i: int| 0 <= i < r.len() implies (#[trigger] r[i]).id != id && cs.contains(
            r[i],
        ) by {
            if i < a.len() {
                assert(a[i] == r[i]);
                let j = choose|j: int| 0 <= j < less.len() && less[j] == a[i];
                assert(cs[j] == r[i]);
            } else {
                assert(cs[cs.len() - 1] == r[i]);
            }
        }
        assert forall|i: int| 0 <= i < cs.len() && (#[trigger] cs[i]).id != id implies r.contains(
            cs[i],
        ) by {
            if i < less.len() {
                assert(less[i] == cs[i]);
                let j = choose|j: int| 0 <= j < a.len() && a[j] == less[i];
                assert(r[j] == cs[i]);
            } else {
                assert(r[r.len() - 1] == cs[i]);
            }
        }
    }
}

/// A clip is added once, empty, and becomes the current one; a deleted clip is gone,
/// with no other, and is not the current one; a copy of a clip has its tracks and its
/// settings.
pub proof fn law_clips_come_and_go(v: TimelineView, cmd: ClipCommand)
    ensures
        edited_clip(cmd) is None ==> !clip_refused(v, cmd) && rest_same(v, clip_after(v, cmd)),
        cmd matches ClipCommand::SetCurrentClip { current } ==> {
            let w = clip_after(v, cmd);
            w.current_clip == current && w.clips == v.clips
        },
        cmd matches ClipCommand::AddClip { id, name } ==> {
            let w = clip_after(v, cmd);
            let n = v.clips.len() as int;
            &&& w.current_clip == Some(id)
            &&& if exists|i: int| 0 <= i < n && (#[trigger] v.clips[i]).id == id {
                w.clips == v.clips
            } else {
                &&& w.clips.len() == n + 1
                &&& w.clips.take(n) == v.clips
                &&& w.clips[n].id == id
                &&& w.clips[n].tracks.len() == 0
                &&& w.clips[n].speed == (F64 { bits: 0x3FF0_0000_0000_0000 })
                &&& w.clips[n].duration == (F64 { bits: 0x3FF0_0000_0000_0000 })
                &&& w.clips[n].loop_style == LoopStyle::Loop
                &&& w.clips[n].direction == PlayDirection::Forward
                &&& name matches Some(s) ==> (crate::text::has_ink(s@) ==> w.clips[n].name == s@)
            }
        },
        cmd matches ClipCommand::DeleteClip { id } ==> {
            let w = clip_after(v, cmd);
            &&& forall|i: int|
                0 <= i < w.clips.len() ==> (#[trigger] w.clips[i]).id != id && v.clips.contains(
                    w.clips[i],
                )
            &&& forall|i: int|
                0 <= i < v.clips.len() && (#[trigger] v.clips[i]).id != id ==> w.clips.contains(
                    v.clips[i],
                )
            &&& w.current_clip != Some(id)
            &&& v.current_clip != Some(id) ==> w.current_clip == v.current_clip
            &&& v.current_clip == Some(id) ==> w.current_clip == if w.clips.len() > 0 {
                Some(w.clips[0].id)
            } else {
                None
            }
        },
        cmd matches ClipCommand::DuplicateClip { id, new_id } ==> {
            let w = clip_after(v, cmd);
            let n = v.clips.len() as int;
            let at = clip_at(v.clips, id);
            if 0 <= at < n {
                let a = v.clips[at];
                let b = w.clips[n];
                &&& a.id == id
                &&& w.clips.len() == n + 1
                &&& w.clips.take(n) == v.clips
                &&& w.current_clip == Some(new_id)
                &&& b.id == new_id
                &&& b.name == a.name + " copy"@
                &&& b.duration == a.duration
                &&& b.loop_style == a.loop_style
                &&& b.speed == a.speed
                &&& b.direction == a.direction
                &&& b.color == a.color
                &&& b.tracks == a.tracks
            } else {
                w == v
            }
        },
{
    let w = clip_after(v, cmd);
    let n = v.clips.len() as int;
    if let ClipCommand::AddClip { id, .. } = cmd {
        let p = is_clip(id);
        lemma_first(v.clips, p);
        if v.has_clip(id) {
            assert(p(v.clips[clip_at(v.clips, id)]));
        } else {
            assert forall|i: int| 0 <= i < n implies (#[trigger] v.clips[i]).id != id by {
                assert(!p(v.clips[i]));
            }
            assert(w.clips.take(n) =~= v.clips);
        }
    }
    if let ClipCommand::DeleteClip { id } = cmd {
        lemma_without(v.clips, id);
    }
    if let ClipCommand::DuplicateClip { id, .. } = cmd {
        let p = is_clip(id);
        lemma_first(v.clips, p);
        if v.has_clip(id) {
            assert(p(v.clips[clip_at(v.clips, id)]));
            assert(w.clips.take(n) =~= v.clips);
        }
    }
}

/// Whether only the tracks of one clip differ.
pub open spec fn only_tracks_differ(v: TimelineView, w: TimelineView, id: AssetId) -> bool {
    let at = clip_at(v.clips, id);
    let a = v.clips[at];
    let b = w.clips[at];
    &&& one_clip_differs(v, w, at)
    &&& b.id == a.id
    &&& b.name == a.name
    &&& b.duration == a.duration
    &&& b.loop_style == a.loop_style
    &&& b.speed == a.speed
    &&& b.direction == a.direction
    &&& b.color == a.color
}

/// The tracks of a clip.
pub open spec fn tracks_of(v: TimelineView, id: AssetId) -> Seq<TrackShape> {
    v.clips[clip_at(v.clips, id)].tracks
}

/// Whether only one track of one clip differs, and neither in what it drives nor in
/// whether it is unfolded.
pub open spec fn one_track_differs(
    v: TimelineView,
    w: TimelineView,
    id: AssetId,
    track: usize,
) -> bool {
    let a = tracks_of(v, id);
    let b = tracks_of(w, id);
    &&& only_tracks_differ(v, w, id)
    &&& b.len() == a.len()
    &&& forall|i: int| 0 <= i < a.len() && i != track ==> #[trigger] b[i] == a[i]
    &&& b[track as int].target == a[track as int].target
    &&& b[track as int].expanded == a[track as int].expanded
}

proof fn lemma_clip_stays(v: TimelineView, id: AssetId, c: ClipShape)
    requires
        v.has_clip(id),
        c.id == v.clip(id).id,
    ensures
        clip_at(v.with_clip(id, c).clips, id) == clip_at(v.clips, id),
{
    let p = is_clip(id);
    let at = clip_at(v.clips, id);
    let w = v.with_clip(id, c);
    lemma_first(v.clips, p);
    assert(p(v.clips[at]));
    assert(p(w.clips[at]));
    assert forall|i: int| 0 <= i < at implies !p(#[trigger] w.clips[i]) by {
        assert(w.clips[i] == v.clips[i]);
        assert(!p(v.clips[i]));
    }
    crate::find::lemma_first_is(w.clips, p, at);
}

/// A track is added at the end, empty, for what it is to drive, where that exists; a
/// spin track turns its node with the given keys; a deleted track is gone and a
/// restored one is where it was.
pub proof fn law_tracks_come_and_go(
    v: TimelineView,
    cmd: TrackCommand,
    f: Seq<Tree>,
    ms: Seq<CustomMaterial>,
    id: AssetId,
)
    requires
        v.has_clip(id),
    ensures
        cmd matches TrackCommand::AddTrack { clip, target } ==> (clip == id ==> {
            let w = track_after(v, cmd, f, ms);
            let n = tracks_of(v, id).len() as int;
            if target_alive(target, f, ms) {
                let t = tracks_of(w, id)[n];
                &&& only_tracks_differ(v, w, id)
                &&& tracks_of(w, id).len() == n + 1
                &&& tracks_of(w, id).take(n) == tracks_of(v, id)
                &&& t.target == target
                &&& t.sampler == SamplerKind::Linear
                &&& t.times.len() == 0
                &&& t.keys.len() == 0
                &&& !t.mute && !t.solo
            } else {
                w == v
            }
        }),
        cmd matches TrackCommand::AddSpinTrack { clip, node, times, keys } ==> (clip == id ==> {
            let w = track_after(v, cmd, f, ms);
            let n = tracks_of(v, id).len() as int;
            if within(f, node) {
                let t = tracks_of(w, id)[n];
                &&& only_tracks_differ(v, w, id)
                &&& tracks_of(w, id).len() == n + 1
                &&& tracks_of(w, id).take(n) == tracks_of(v, id)
                &&& t.target == (TrackTarget::Transform { node, prop: TransformProp::Rotation })
                &&& t.times == times@
                &&& t.keys == keys@
                &&& !t.mute && !t.solo
            } else {
                w == v
            }
        }),
        cmd matches TrackCommand::DeleteTrack { clip, track } ==> (clip == id && track < tracks_of(
            v,
            id,
        ).len() ==> {
            let w = track_after(v, cmd, f, ms);
            &&& only_tracks_differ(v, w, id)
            &&& tracks_of(w, id).insert(track as int, tracks_of(v, id)[track as int]) == tracks_of(
                v,
                id,
            )
        }),
        cmd matches TrackCommand::RestoreTrack { clip, index, doc } ==> (clip == id && index
            <= tracks_of(v, id).len() ==> {
            let w = track_after(v, cmd, f, ms);
            let t = tracks_of(w, id)[index as int];
            &&& only_tracks_differ(v, w, id)
            &&& tracks_of(w, id).remove(index as int) == tracks_of(v, id)
            &&& t.target == doc.target
            &&& t.sampler == doc.sampler
            &&& t.mute == doc.mute
            &&& t.solo == doc.solo
            &&& t.expanded == doc.expanded
            &&& t.times == doc.times@
            &&& t.keys == doc.keys@
        }),
{
    let w = track_after(v, cmd, f, ms);
    let ts = tracks_of(v, id);
    if let TrackCommand::AddTrack { clip, target } = cmd {
        if clip == id && target_alive(target, f, ms) {
            lemma_clip_stays(v, id, w.clips[clip_at(v.clips, id)]);
            assert(w == v.with_clip(id, w.clips[clip_at(v.clips, id)]));
            assert(tracks_of(w, id).take(ts.len() as int) =~= ts);
        }
    }
    if let TrackCommand::AddSpinTrack { clip, node, .. } = cmd {
        if clip == id && within(f, node) {
            lemma_clip_stays(v, id, w.clips[clip_at(v.clips, id)]);
            assert(w == v.with_clip(id, w.clips[clip_at(v.clips, id)]));
            assert(tracks_of(w, id).take(ts.len() as int) =~= ts);
        }
    }
    if let TrackCommand::DeleteTrack { clip, track } = cmd {
        if clip == id && track < ts.len() {
            lemma_clip_stays(v, id, w.clips[clip_at(v.clips, id)]);
            assert(w == v.with_clip(id, w.clips[clip_at(v.clips, id)]));
            assert(tracks_of(w, id).insert(track as int, ts[track as int]) =~= ts);
        }
    }
    if let TrackCommand::RestoreTrack { clip, index, doc } = cmd {
        if clip == id && index <= ts.len() {
            lemma_clip_stays(v, id, w.clips[clip_at(v.clips, id)]);
            assert(w == v.with_clip(id, w.clips[clip_at(v.clips, id)]));
            assert(tracks_of(w, id).remove(index as int) =~= ts);
        }
    }
}

/// The track that an edit of a track is about.
pub open spec fn edited_track(cmd: TrackCommand) -> Option<(AssetId, usize)> {
    match cmd {
        TrackCommand::AddTrack { .. } => None,
        TrackCommand::AddSpinTrack { .. } => None,
        TrackCommand::DeleteTrack { .. } => None,
        TrackCommand::RestoreTrack { .. } => None,
        TrackCommand::SetTrackSampler { clip, track, .. } => Some((clip, track)),
        TrackCommand::SetTrackMute { clip, track, .. } => Some((clip, track)),
        TrackCommand::SetTrackSolo { clip, track, .. } => Some((clip, track)),
        TrackCommand::SetTrackKeys { clip, track, .. } => Some((clip, track)),
        TrackCommand::AddKeyframe { clip, track, .. } => Some((clip, track)),
        TrackCommand::DeleteKeyframe { clip, track, .. } => Some((clip, track)),
        TrackCommand::InsertKeyframe { clip, track, .. } => Some((clip, track)),
        TrackCommand::SetKeyframe { clip, track, .. } => Some((clip, track)),
    }
}

/// Whether an edit is one of keys.
pub open spec fn edits_keys(cmd: TrackCommand) -> bool {
    ||| cmd is SetTrackKeys
    ||| cmd is AddKeyframe
    ||| cmd is DeleteKeyframe
    ||| cmd is InsertKeyframe
    ||| cmd is SetKeyframe
}

/// An edit of a track sets the part that it names of that track: the sampler, whether
/// it is silent, whether it plays alone, or its keys.
pub proof fn law_track_edit_sets_one_part(
    v: TimelineView,
    cmd: TrackCommand,
    f: Seq<Tree>,
    ms: Seq<CustomMaterial>,
    id: AssetId,
    track: usize,
)
    requires
        edited_track(cmd) == Some((id, track)),
        v.has_track(id, track),
    ensures
        ({
            let w = track_after(v, cmd, f, ms);
            let a = tracks_of(v, id)[track as int];
            let b = tracks_of(w, id)[track as int];
            &&& one_track_differs(v, w, id, track)
            &&& match cmd {
                TrackCommand::SetTrackSampler { sampler, .. } => b.sampler == sampler,
                _ => b.sampler == a.sampler,
            }
            &&& match cmd {
                TrackCommand::SetTrackMute { mute, .. } => b.mute == mute,
                _ => b.mute == a.mute,
            }
            &&& match cmd {
                TrackCommand::SetTrackSolo { solo, .. } => b.solo == solo,
                _ => b.solo == a.solo,
            }
            &&& !edits_keys(cmd) ==> b.times == a.times && b.keys == a.keys
            &&& match cmd {
                TrackCommand::SetTrackKeys { times, values, interp, keys, .. } => b == rekeyed(
                    a,
                    times@,
                    values@,
                    interp,
                    keys@,
                ),
                TrackCommand::AddKeyframe { time, value, interp, coincident, .. } => b == key_added(
                    a,
                    time,
                    value,
                    interp,
                    coincident,
                ),
                TrackCommand::DeleteKeyframe { index, .. } => b == key_deleted(a, index),
                TrackCommand::InsertKeyframe { index, time, key, .. } => b == key_inserted(
                    a,
                    index,
                    time,
                    key,
                ),
                TrackCommand::SetKeyframe { index, change, .. } => b == key_set(a, index, change),
                _ => true,
            }
        }),
{
    let w = track_after(v, cmd, f, ms);
    lemma_clip_stays(v, id, w.clips[clip_at(v.clips, id)]);
    assert(w == v.with_clip(id, w.clips[clip_at(v.clips, id)]));
}

/// Whether a key has a value and is approached and left flat.
pub open spec fn is_flat(k: Keyframe) -> bool {
    &&& all_zero(k.in_tangent) && same_shape(k.in_tangent, k.value)
    &&& all_zero(k.out_tangent) && same_shape(k.out_tangent, k.value)
}

/// The interpolation of a sampler.
pub open spec fn interp_for(s: SamplerKind) -> Interp {
    match s {
        SamplerKind::Linear => Interp::Linear,
        SamplerKind::Step => Interp::Step,
        SamplerKind::Cubic => Interp::Cubic,
    }
}

/// A key that is added has the time and the value that are given, in the way that is
/// given or that of the track, and is flat. The other keys keep their times and values;
/// where a key stands at almost that time, the new one takes its place and its time.
pub proof fn law_added_key_is_the_given_one(
    t: TrackShape,
    time: F64,
    value: crate::clips::TrackValue,
    interp: Option<Interp>,
    coincident: Option<usize>,
)
    requires
        t.times.len() == t.keys.len(),
    ensures
        ({
            let r = key_added(t, time, value, interp, coincident);
            let at = if coincident matches Some(i) && i < t.keys.len() {
                coincident->0 as int
            } else {
                slot_for(t.times, time)
            };
            &&& 0 <= at < r.keys.len()
            &&& r.times.len() == r.keys.len()
            &&& r.keys[at].value == value
            &&& r.keys[at].interp == given_or(interp, interp_for(t.sampler))
            &&& is_flat(r.keys[at])
            &&& if coincident matches Some(i) && i < t.keys.len() {
                &&& r.times == t.times
                &&& r.keys.len() == t.keys.len()
                &&& forall|i: int|
                    0 <= i < t.keys.len() && i != at ==> #[trigger] r.keys[i] == t.keys[i]
            } else {
                &&& r.times[at] == time
                &&& r.times.remove(at) == t.times
                &&& r.keys.remove(at) == t.keys
            }
        }),
{
    let r = key_added(t, time, value, interp, coincident);
    if !replaces_key(t, coincident) {
        let at = slot_for(t.times, time);
        lemma_slot(t.times, time);
        assert(r.times.remove(at) =~= t.times);
        assert(r.keys.remove(at) =~= t.keys);
    }
}

proof fn lemma_slot(times: Seq<F64>, t: F64)
    ensures
        0 <= slot_for(times, t) <= times.len(),
    decreases times.len(),
{
    if times.len() > 0 {
        lemma_slot(times.drop_last(), t);
    }
}

/// A key that is deleted is gone and a key that is put in is where it is put, with its
/// time and all its parts; the other keys stay.
pub proof fn law_keys_come_and_go(t: TrackShape, index: usize, time: F64, key: Keyframe)
    requires
        t.times.len() == t.keys.len(),
    ensures
        index <= t.keys.len() ==> {
            let r = key_inserted(t, index, time, key);
            &&& r.times.len() == t.times.len() + 1
            &&& r.keys.len() == t.keys.len() + 1
            &&& r.times[index as int] == time
            &&& r.keys[index as int] == key
            &&& r.times.remove(index as int) == t.times
            &&& r.keys.remove(index as int) == t.keys
        },
        index < t.keys.len() ==> {
            let r = key_deleted(t, index);
            &&& r.times.insert(index as int, t.times[index as int]) == t.times
            &&& r.keys.insert(index as int, t.keys[index as int]) == t.keys
        },
        index >= t.keys.len() ==> key_deleted(t, index) == t,
{
    if index <= t.keys.len() {
        let r = key_inserted(t, index, time, key);
        assert(r.times.remove(index as int) =~= t.times);
        assert(r.keys.remove(index as int) =~= t.keys);
    }
    if index < t.keys.len() {
        let r = key_deleted(t, index);
        assert(r.times.insert(index as int, t.times[index as int]) =~= t.times);
        assert(r.keys.insert(index as int, t.keys[index as int]) =~= t.keys);
    }
}

/// A change of a key sets the parts that it gives and keeps those that it does not.
pub proof fn law_key_change_sets_its_parts(t: TrackShape, index: usize, c: KeyChange)
    requires
        t.times.len() == t.keys.len(),
        index < t.keys.len(),
    ensures
        ({
            let r = key_set(t, index, c);
            let a = t.keys[index as int];
            let b = r.keys[index as int];
            &&& r.times.len() == t.times.len()
            &&& r.keys.len() == t.keys.len()
            &&& r.times[index as int] == given_or(c.time, t.times[index as int])
            &&& b.value == given_or(c.value, a.value)
            &&& b.interp == given_or(c.interp, a.interp)
            &&& b.in_tangent == given_or(c.in_tangent, a.in_tangent)
            &&& b.out_tangent == given_or(c.out_tangent, a.out_tangent)
            &&& forall|i: int|
                0 <= i < t.keys.len() && i != index ==> #[trigger] r.keys[i] == t.keys[i]
            &&& forall|i: int|
                0 <= i < t.times.len() && i != index ==> #[trigger] r.times[i] == t.times[i]
        }),
{
}

/// Whether a key stands at a time.
pub open spec fn has_pair(times: Seq<F64>, keys: Seq<Keyframe>, t: F64, k: Keyframe) -> bool {
    exists|j: int| 0 <= j < times.len() && #[trigger] times[j] == t && keys[j] == k
}

/// A key keeps its time when keys are put in order.
pub proof fn law_keys_keep_their_times(times: Seq<F64>, keys: Seq<Keyframe>)
    requires
        times.len() == keys.len(),
    ensures
        by_time(times, keys).0.len() == times.len(),
        by_time(times, keys).1.len() == times.len(),
        forall|i: int|
            0 <= i < times.len() ==> has_pair(
                by_time(times, keys).0,
                by_time(times, keys).1,
                #[trigger] times[i],
                keys[i],
            ),
        forall|j: int|
            0 <= j < times.len() ==> has_pair(
                times,
                keys,
                #[trigger] by_time(times, keys).0[j],
                by_time(times, keys).1[j],
            ),
    decreases times.len(),
{
    let (rt, rk) = by_time(times, keys);
    if times.len() > 0 {
        let lt = times.drop_last();
        let lk = keys.drop_last();
        law_keys_keep_their_times(lt, lk);
        let (at, ak) = by_time(lt, lk);
        lemma_after_all_within(at, times.last());
        let k = after_all(at, times.last());
        let n = times.len() - 1;
        assert forall|i: int| 0 <= i < times.len() implies has_pair(
            rt,
            rk,
            #[trigger] times[i],
            keys[i],
        ) by {
            if i < n {
                assert(lt[i] == times[i] && lk[i] == keys[i]);
                assert(has_pair(at, ak, lt[i], lk[i]));
                let j = choose|j: int|
                    0 <= j < at.len() && #[trigger] at[j] == lt[i] && ak[j] == lk[i];
                let m = if j < k {
                    j
                } else {
                    j + 1
                };
                assert(rt[m] == times[i] && rk[m] == keys[i]);
            } else {
                assert(rt[k] == times[i] && rk[k] == keys[i]);
            }
        }
        assert forall|j: int| 0 <= j < times.len() implies has_pair(
            times,
            keys,
            #[trigger] rt[j],
            rk[j],
        ) by {
            if j == k {
                assert(times[n] == rt[j] && keys[n] == rk[j]);
            } else {
                let m = if j < k {
                    j
                } else {
                    j - 1
                };
                assert(rt[j] == at[m] && rk[j] == ak[m]);
                assert(has_pair(lt, lk, at[m], ak[m]));
                let i = choose|i: int|
                    0 <= i < lt.len() && #[trigger] lt[i] == at[m] && lk[i] == ak[m];
                assert(times[i] == lt[i] && keys[i] == lk[i]);
            }
        }
    }
}

proof fn lemma_after_all_within(ts: Seq<F64>, t: F64)
    ensures
        0 <= after_all(ts, t) <= ts.len(),
    decreases ts.len(),
{
    if ts.len() > 0 && !(ts.last().total_rank() <= t.total_rank()) {
        lemma_after_all_within(ts.drop_last(), t);
    }
}

/// New keys of a track are those that are given, whole where keys are given, else flat
/// keys with the given values, each with its time.
pub proof fn law_new_keys_are_the_given_ones(
    t: TrackShape,
    times: Seq<F64>,
    values: Seq<crate::clips::TrackValue>,
    interp: Option<Interp>,
    keys: Seq<Keyframe>,
    i: int,
)
    requires
        0 <= i < times.len(),
        keys.len() > 0 ==> keys.len() == times.len(),
        keys.len() == 0 ==> values.len() == times.len(),
    ensures
        ({
            let r = rekeyed(t, times, values, interp, keys);
            &&& r.times.len() == times.len()
            &&& r.keys.len() == times.len()
            &&& exists|j: int|
                0 <= j < times.len() && #[trigger] r.times[j] == times[i] && if keys.len() > 0 {
                    r.keys[j] == keys[i]
                } else {
                    &&& r.keys[j].value == values[i]
                    &&& r.keys[j].interp == given_or(interp, interp_for(t.sampler))
                    &&& is_flat(r.keys[j])
                }
        }),
{
    let given = if keys.len() > 0 {
        keys
    } else {
        crate::timeline::flat_keys(values, crate::timeline::interp_or(interp, t))
    };
    law_keys_keep_their_times(times, given);
    let (rt, rk) = by_time(times, given);
    assert(has_pair(rt, rk, times[i], given[i]));
    let j = choose|j: int| 0 <= j < rt.len() && #[trigger] rt[j] == times[i] && rk[j] == given[i];
    let r = rekeyed(t, times, values, interp, keys);
    assert(r.times[j] == times[i]);
}

/// Whether a time is another, kept between the start and an end.
pub open spec fn is_kept(r: F64, t: F64, end: F64) -> bool {
    if t.before(F64 { bits: 0 }) {
        r == (F64 { bits: 0 })
    } else if end.before(t) {
        r == end
    } else {
        r == t
    }
}

/// Whether all but the transport is as it was.
pub open spec fn clips_same(v: TimelineView, w: TimelineView) -> bool {
    w.clips == v.clips && w.current_clip == v.current_clip && w.layers == v.layers
}

/// A transport edit sets the part that it names: the playhead, whether it plays, the
/// rate, what is soloed, what is selected, or the view.
pub proof fn law_transport_edit_sets_one_part(
    v: TimelineView,
    cmd: TransportCommand,
    w: TimelineView,
)
    requires
        transport_step(v, cmd, w),
    ensures
        clips_same(v, w),
        match cmd {
            TransportCommand::SetPlayhead { time } => w.playhead == if (F64 { bits: 0 }).before(
                time,
            ) {
                time
            } else {
                F64 { bits: 0 }
            },
            TransportCommand::StepPlayhead { .. } => true,
            _ => w.playhead == v.playhead,
        },
        match cmd {
            TransportCommand::SetPlaying { on } => w.playing == on,
            _ => w.playing == v.playing,
        },
        match cmd {
            TransportCommand::SetAnimFps { fps } => w.fps >= 1 && (fps >= 1 ==> w.fps == fps),
            _ => w.fps == v.fps,
        },
        match cmd {
            TransportCommand::SetSoloRoot { id } => w.solo_root == id,
            _ => w.solo_root == v.solo_root,
        },
        match cmd {
            TransportCommand::SetAnimSelection { sel } => w.selection == sel,
            _ => w.selection == v.selection,
        },
        match cmd {
            TransportCommand::SetAnimView { view } => w.dock == view,
            _ => w.dock == v.dock,
        },
{
}

/// Where a clip ends: its length, which is never negative.
pub open spec fn end_of(c: ClipShape) -> F64 {
    if (F64 { bits: 0 }).before(c.duration) {
        c.duration
    } else {
        F64 { bits: 0 }
    }
}

/// Whether a time is that of the next key past another, or the playhead where there is
/// no key past it.
pub open spec fn is_next_key(c: ClipShape, beyond: F64, playhead: F64, t: F64) -> bool {
    ||| {
        &&& keyed(c, t)
        &&& beyond.before(t)
        &&& forall|u: F64| keyed(c, u) && #[trigger] beyond.before(u) ==> !u.before(t)
    }
    ||| {
        &&& t == playhead
        &&& forall|u: F64| #[trigger] keyed(c, u) ==> !beyond.before(u)
    }
}

/// Whether a time is that of the last key before another, or the playhead where there
/// is no key before it.
pub open spec fn is_former_key(c: ClipShape, beyond: F64, playhead: F64, t: F64) -> bool {
    ||| {
        &&& keyed(c, t)
        &&& t.before(beyond)
        &&& forall|u: F64| keyed(c, u) && #[trigger] u.before(beyond) ==> !t.before(u)
    }
    ||| {
        &&& t == playhead
        &&& forall|u: F64| #[trigger] keyed(c, u) ==> !u.before(beyond)
    }
}

proof fn lemma_next(v: TimelineView, beyond: F64, t: F64)
    requires
        v.current_clip is Some,
        v.has_clip(v.current_clip->0),
        neighbour(v, v.playhead, beyond, true, t),
    ensures
        is_next_key(v.clip(v.current_clip->0), beyond, v.playhead, t),
{
    let c = v.clip(v.current_clip->0);
    if exists|u: F64| keyed(c, u) && #[trigger] steps_to(u, beyond, true) {
        assert forall|u: F64| keyed(c, u) && #[trigger] beyond.before(u) implies !u.before(t) by {
            let (k, j) = choose|k: int, j: int|
                0 <= k < c.tracks.len() && 0 <= j < c.tracks[k].times.len()
                    && #[trigger] c.tracks[k].times[j] == u;
            assert(steps_to(c.tracks[k].times[j], beyond, true));
        }
    } else {
        assert forall|u: F64| #[trigger] keyed(c, u) implies !beyond.before(u) by {
            assert(!steps_to(u, beyond, true));
        }
    }
}

proof fn lemma_former(v: TimelineView, beyond: F64, t: F64)
    requires
        v.current_clip is Some,
        v.has_clip(v.current_clip->0),
        neighbour(v, v.playhead, beyond, false, t),
    ensures
        is_former_key(v.clip(v.current_clip->0), beyond, v.playhead, t),
{
    let c = v.clip(v.current_clip->0);
    if exists|u: F64| keyed(c, u) && #[trigger] steps_to(u, beyond, false) {
        assert forall|u: F64| keyed(c, u) && #[trigger] u.before(beyond) implies !t.before(u) by {
            let (k, j) = choose|k: int, j: int|
                0 <= k < c.tracks.len() && 0 <= j < c.tracks[k].times.len()
                    && #[trigger] c.tracks[k].times[j] == u;
            assert(steps_to(c.tracks[k].times[j], beyond, false));
        }
    } else {
        assert forall|u: F64| #[trigger] keyed(c, u) implies !u.before(beyond) by {
            assert(!steps_to(u, beyond, false));
        }
    }
}

/// A step goes to the start, to the end, or to the key that is next in its direction;
/// no key on the way is skipped. It stays within the current clip.
pub proof fn law_step_goes_to_the_next_key(
    v: TimelineView,
    kind: StepKind,
    beyond: F64,
    w: TimelineView,
)
    requires
        transport_step(v, TransportCommand::StepPlayhead { kind, beyond }, w),
        v.current_clip is Some,
        v.has_clip(v.current_clip->0),
    ensures
        ({
            let c = v.clip(v.current_clip->0);
            match kind {
                StepKind::Home => w.playhead == (F64 { bits: 0 }),
                StepKind::End => is_kept(w.playhead, c.duration, end_of(c)),
                StepKind::Next => exists|t: F64|
                    is_next_key(c, beyond, v.playhead, t) && #[trigger] is_kept(
                        w.playhead,
                        t,
                        end_of(c),
                    ),
                StepKind::Prev => exists|t: F64|
                    is_former_key(c, beyond, v.playhead, t) && #[trigger] is_kept(
                        w.playhead,
                        t,
                        end_of(c),
                    ),
            }
        }),
{
    let c = v.clip(v.current_clip->0);
    let end = current_length(v).floored();
    assert(end == end_of(c));
    if kind == StepKind::Next {
        let t = choose|t: F64| #[trigger]
            neighbour(v, v.playhead, beyond, true, t) && w.playhead == kept_within(t, end);
        lemma_next(v, beyond, t);
        assert(is_kept(w.playhead, t, end_of(c)));
    }
    if kind == StepKind::Prev {
        let t = choose|t: F64| #[trigger]
            neighbour(v, v.playhead, beyond, false, t) && w.playhead == kept_within(t, end);
        lemma_former(v, beyond, t);
        assert(is_kept(w.playhead, t, end_of(c)));
    }
}

/// The layer that an edit of a layer or of its strips is about.
pub open spec fn edited_layer(cmd: MixerCommand) -> Option<usize> {
    match cmd {
        MixerCommand::AddLayer => None,
        MixerCommand::DeleteLayer { .. } => None,
        MixerCommand::RestoreLayer { .. } => None,
        MixerCommand::SetLayerMode { layer, .. } => Some(layer),
        MixerCommand::SetLayerWeight { layer, .. } => Some(layer),
        MixerCommand::SetLayerMask { layer, .. } => Some(layer),
        MixerCommand::AddStrip { layer, .. } => Some(layer),
        MixerCommand::DeleteStrip { layer, .. } => Some(layer),
        MixerCommand::RestoreStrip { layer, .. } => Some(layer),
        MixerCommand::MoveStrip { layer, .. } => Some(layer),
        MixerCommand::TrimStrip { layer, .. } => Some(layer),
        MixerCommand::SetStripRepeat { layer, .. } => Some(layer),
    }
}

/// Whether all but the layers is as it was.
pub open spec fn only_layers_differ(v: TimelineView, w: TimelineView) -> bool {
    &&& w.clips == v.clips
    &&& w.current_clip == v.current_clip
    &&& w.playhead == v.playhead
    &&& w.playing == v.playing
    &&& w.fps == v.fps
    &&& w.solo_root == v.solo_root
    &&& w.selection == v.selection
    &&& w.dock == v.dock
}

/// A layer is added at the end: empty, replacing what is below, at full weight. A
/// deleted layer is gone, and a restored one is where it was.
pub proof fn law_layers_come_and_go(v: TimelineView, cmd: MixerCommand)
    ensures
        only_layers_differ(v, mixer_after(v, cmd)),
        edited_layer(cmd) is None ==> !mixer_refused(v, cmd),
        cmd is AddLayer ==> {
            let w = mixer_after(v, cmd);
            let n = v.layers.len() as int;
            let l = w.layers[n];
            &&& w.layers.len() == n + 1
            &&& w.layers.take(n) == v.layers
            &&& l.mode == LayerMode::Replace
            &&& l.weight == (F32 { bits: 0x3F80_0000 })
            &&& l.mask_nodes.len() == 0
            &&& !l.include_descendants
            &&& l.strips.len() == 0
        },
        cmd matches MixerCommand::DeleteLayer { layer } ==> {
            let w = mixer_after(v, cmd);
            if layer < v.layers.len() {
                w.layers.insert(layer as int, v.layers[layer as int]) == v.layers
            } else {
                w.layers == v.layers
            }
        },
        cmd matches MixerCommand::RestoreLayer { layer, whole } ==> {
            let w = mixer_after(v, cmd);
            let at = if layer < v.layers.len() {
                layer as int
            } else {
                v.layers.len() as int
            };
            let l = w.layers[at];
            &&& w.layers.remove(at) == v.layers
            &&& l.mode == whole.mode
            &&& l.weight == whole.weight
            &&& l.mask_nodes == whole.mask_nodes@
            &&& l.include_descendants == whole.include_descendants
            &&& l.strips == whole.strips@
        },
{
    let w = mixer_after(v, cmd);
    match cmd {
        MixerCommand::AddLayer => {
            assert(w.layers.take(v.layers.len() as int) =~= v.layers);
        },
        MixerCommand::DeleteLayer { layer } => {
            if layer < v.layers.len() {
                assert(w.layers.insert(layer as int, v.layers[layer as int]) =~= v.layers);
            }
        },
        MixerCommand::RestoreLayer { layer, .. } => {
            let at = if layer < v.layers.len() {
                layer as int
            } else {
                v.layers.len() as int
            };
            assert(w.layers.remove(at) =~= v.layers);
        },
        _ => {},
    }
}

/// An edit of a layer sets the part that it names of that layer, and nothing else.
pub proof fn law_layer_edit_sets_one_part(v: TimelineView, cmd: MixerCommand, layer: usize)
    requires
        edited_layer(cmd) == Some(layer),
        layer < v.layers.len(),
    ensures
        ({
            let w = mixer_after(v, cmd);
            let a = v.layers[layer as int];
            let b = w.layers[layer as int];
            &&& w.layers.len() == v.layers.len()
            &&& forall|i: int|
                0 <= i < v.layers.len() && i != layer ==> #[trigger] w.layers[i] == v.layers[i]
            &&& match cmd {
                MixerCommand::SetLayerMode { mode, .. } => b.mode == mode,
                _ => b.mode == a.mode,
            }
            &&& match cmd {
                MixerCommand::SetLayerWeight { weight, .. } => b.weight == weight.unit_clamped(),
                _ => b.weight == a.weight,
            }
            &&& match cmd {
                MixerCommand::SetLayerMask { nodes, include_descendants, .. } => b.mask_nodes
                    == nodes@ && b.include_descendants == include_descendants,
                _ => b.mask_nodes == a.mask_nodes && b.include_descendants == a.include_descendants,
            }
            &&& cmd is SetLayerMode || cmd is SetLayerWeight || cmd is SetLayerMask ==> b.strips
                == a.strips && !mixer_refused(v, cmd)
        }),
{
}

/// Whether only one strip of a layer differs, and not in the clip or the pace.
pub open spec fn one_strip_differs(a: Seq<StripDoc>, b: Seq<StripDoc>, strip: usize) -> bool {
    &&& b.len() == a.len()
    &&& forall|i: int| 0 <= i < a.len() && i != strip ==> #[trigger] b[i] == a[i]
    &&& b[strip as int].clip == a[strip as int].clip
    &&& b[strip as int].scale == a[strip as int].scale
}

/// A strip is added at the end for the clip, from where and for how long it is given, at
/// its own pace and once. Each other edit of a strip sets the part that it names.
pub proof fn law_strip_edit_sets_one_part(v: TimelineView, cmd: MixerCommand, layer: usize)
    requires
        edited_layer(cmd) == Some(layer),
        layer < v.layers.len(),
        !mixer_refused(v, cmd),
    ensures
        ({
            let a = v.layers[layer as int].strips;
            let b = mixer_after(v, cmd).layers[layer as int].strips;
            match cmd {
                MixerCommand::AddStrip { clip, start, len, .. } => {
                    let s = b[a.len() as int];
                    &&& b.len() == a.len() + 1
                    &&& b.take(a.len() as int) == a
                    &&& s.clip == clip
                    &&& s.start == start
                    &&& s.len == len
                    &&& s.scale == (F64 { bits: 0x3FF0_0000_0000_0000 })
                    &&& !s.repeat
                },
                MixerCommand::DeleteStrip { strip, .. } => if strip < a.len() {
                    b.insert(strip as int, a[strip as int]) == a
                } else {
                    b == a
                },
                MixerCommand::RestoreStrip { strip, doc, .. } => {
                    let at = if strip < a.len() {
                        strip as int
                    } else {
                        a.len() as int
                    };
                    b.remove(at) == a && b[at] == doc
                },
                MixerCommand::MoveStrip { strip, start, .. } => {
                    &&& one_strip_differs(a, b, strip)
                    &&& b[strip as int].start == start
                    &&& b[strip as int].len == a[strip as int].len
                    &&& b[strip as int].repeat == a[strip as int].repeat
                },
                MixerCommand::TrimStrip { strip, start, len, .. } => {
                    &&& one_strip_differs(a, b, strip)
                    &&& b[strip as int].start == start
                    &&& b[strip as int].len == if (F64 { bits: 0 }).before(len) {
                        len
                    } else {
                        F64 { bits: 0 }
                    }
                    &&& b[strip as int].repeat == a[strip as int].repeat
                },
                MixerCommand::SetStripRepeat { strip, repeat, .. } => {
                    &&& one_strip_differs(a, b, strip)
                    &&& b[strip as int].start == a[strip as int].start
                    &&& b[strip as int].len == a[strip as int].len
                    &&& b[strip as int].repeat == repeat
                },
                _ => true,
            }
        }),
{
    let a = v.layers[layer as int].strips;
    let b = mixer_after(v, cmd).layers[layer as int].strips;
    match cmd {
        MixerCommand::AddStrip { .. } => {
            assert(b.take(a.len() as int) =~= a);
        },
        MixerCommand::DeleteStrip { strip, .. } => {
            if strip < a.len() {
                assert(b.insert(strip as int, a[strip as int]) =~= a);
            }
        },
        MixerCommand::RestoreStrip { strip, .. } => {
            let at = if strip < a.len() {
                strip as int
            } else {
                a.len() as int
            };
            assert(b.remove(at) =~= a);
        },
        _ => {},
    }
}

} // verus!

//! What holds of the edits of nodes and of their places in the scene: each sets what it
//! names, to what it is given, and nothing else.
use crate::clips::ClipShape;
use crate::custom_material::CustomMaterial;
use crate::errors::EditorError;
use crate::ids::NodeId;
use crate::motion_laws::given_or;
use crate::node::{
    emitter_patched, structure_text, CameraProjection, EmitterDef, EmitterPatch, LightConfig,
    NodeKind,
};
use crate::node_edit::{kind_step, node_step, NodeCommand, NodeEdit, NodeReply};
use crate::timeline::TimelineView;
use crate::tree::{
    added, at, find, inserted, lemma_at, lemma_at_is, lemma_find, removed, within, NodeData,
    Tree,
};
use crate::tree_edit::{living, orphaned, posed, pruned, rested, without_id};
use crate::tree_laws::{
    distinct, law_insert_is_undone, law_put_changes_one_node, law_removal_keeps_ids_distinct,
    moved, owns,
};
use crate::values::{F32, Trs};
use vstd::prelude::*;

verus! {

/// Whether an edit sets a field of a node other than its kind.
pub open spec fn sets_field(edit: NodeEdit) -> bool {
    ||| edit is SetTransform
    ||| edit is Rename
    ||| edit is SetVisible
    ||| edit is SetLocked
    ||| edit is SetPrefab
}

/// Whether the fields other than the kind are those after an edit.
pub open spec fn fields_after(a: NodeData, edit: NodeEdit, b: NodeData) -> bool {
    &&& match edit {
        NodeEdit::SetTransform(t) => {
            &&& b.transform.translation == t.translation
            &&& b.transform.rotation == t.rotation
            &&& a.kind is Collider ==> {
                let unit = F32 { bits: 0x3F80_0000 };
                let s = b.transform.scale;
                s.x == unit && s.y == unit && s.z == unit
            }
            &&& !(a.kind is Collider) ==> b.transform.scale == t.scale
        },
        _ => b.transform == a.transform,
    }
    &&& match edit {
        NodeEdit::Rename(name) => b.name == name,
        _ => b.name == a.name,
    }
    &&& match edit {
        NodeEdit::SetVisible(x) => b.visible == x,
        _ => b.visible == a.visible,
    }
    &&& match edit {
        NodeEdit::SetLocked(x) => b.locked == x,
        _ => b.locked == a.locked,
    }
    &&& match edit {
        NodeEdit::SetPrefab(x) => b.prefab == x,
        _ => b.prefab == a.prefab,
    }
}

/// An edit of a node sets the field that it names of that node, and keeps the others,
/// what is below it, and every other node. A collider is never scaled.
pub proof fn law_node_edit_sets_one_field(
    f: Seq<Tree>,
    cmd: NodeCommand,
    ms: Seq<CustomMaterial>,
    g: Seq<Tree>,
    r: Result<NodeReply, EditorError>,
    other: NodeId,
)
    requires
        node_step(f, cmd, ms, g, r),
        within(f, cmd.node),
    ensures
        ({
            let a = find(f, cmd.node)->0;
            let b = find(g, cmd.node)->0;
            &&& find(f, cmd.node) is Some
            &&& find(g, cmd.node) is Some
            &&& b.children == a.children
            &&& r is Ok ==> fields_after(a.data, cmd.edit, b.data)
            &&& r is Err ==> g == f
            &&& sets_field(cmd.edit) ==> r is Ok && b.data.kind == a.data.kind
            &&& cmd.edit matches NodeEdit::SetKind(k) ==> r is Ok && b.data.kind == k
            &&& cmd.edit matches NodeEdit::PatchKind(Ok(k)) ==> r is Ok && b.data.kind == k
            &&& cmd.edit matches NodeEdit::PatchKind(Err(why)) ==> r == Err::<
                NodeReply,
                EditorError,
            >(EditorError::Outside(why))
            &&& (find(g, other) is Some) == (find(f, other) is Some)
            &&& other != cmd.node && find(f, other) is Some ==> find(g, other)->0.data == find(
                f,
                other,
            )->0.data
        }),
{
    lemma_find(f, cmd.node);
    let a = find(f, cmd.node)->0;
    let b = find(g, cmd.node)->0;
    match crate::node_edit::field_edited(a.data, cmd.edit) {
        Some(d) => {
            law_put_changes_one_node(f, cmd.node, d, other);
        },
        None => {
            if r matches Ok(reply) && reply.inverse is Some {
                law_put_changes_one_node(
                    f,
                    cmd.node,
                    NodeData { kind: b.data.kind, ..a.data },
                    other,
                );
            }
        },
    }
}

/// A patch of an emitter sets the settings that it gives and keeps those that it does
/// not; a texture is bound as new, or taken away.
#[verifier::rlimit(60)]
pub proof fn law_emitter_patch_sets_its_parts(d: EmitterDef, p: EmitterPatch)
    ensures
        ({
            let r = emitter_patched(d, p);
            &&& r.spawn_rate == given_or(p.spawn_rate, d.spawn_rate)
            &&& r.burst_count == given_or(p.burst_count, d.burst_count)
            &&& r.max_alive == given_or(p.max_alive, d.max_alive)
            &&& r.one_shot == given_or(p.one_shot, d.one_shot)
            &&& r.space == given_or(p.space, d.space)
            &&& r.shape == given_or(p.shape, d.shape)
            &&& r.initial_speed == given_or(p.initial_speed, d.initial_speed)
            &&& r.lifetime == given_or(p.lifetime, d.lifetime)
            &&& r.size == given_or(p.size, d.size)
            &&& r.forces == given_or(p.forces, d.forces)
            &&& r.color_over_life == given_or(p.color_over_life, d.color_over_life)
            &&& r.size_over_life == given_or(p.size_over_life, d.size_over_life)
            &&& r.blend == given_or(p.blend, d.blend)
            &&& match p.texture {
                None => r.texture == d.texture,
                Some(None) => r.texture is None,
                Some(Some(a)) => r.texture matches Some(t) && t.asset == a,
            }
        }),
{
}

/// An emitter edit patches an emitter; an edit of copies sets where they stand, and
/// their colors where these are given. Of any other kind both are refused.
pub proof fn law_kind_edit_is_for_its_kind(
    k: NodeKind,
    edit: NodeEdit,
    ms: Seq<CustomMaterial>,
    r: Result<Option<NodeKind>, EditorError>,
)
    requires
        kind_step(k, edit, ms, r),
    ensures
        edit matches NodeEdit::SetParticleEmitter(p) ==> match k {
            NodeKind::ParticleEmitter(d) => r == Ok::<Option<NodeKind>, EditorError>(
                Some(NodeKind::ParticleEmitter(emitter_patched(d, p))),
            ),
            _ => r == Err::<Option<NodeKind>, EditorError>(EditorError::NotAParticleEmitter),
        },
        edit matches NodeEdit::SetInstancerTransforms { transforms, colors } ==> match k {
            NodeKind::Instancer(d) => r matches Ok(Some(NodeKind::Instancer(e))) && {
                &&& e.mesh == d.mesh
                &&& e.transforms == transforms
                &&& e.per_instance_colors == given_or(colors, d.per_instance_colors)
            },
            _ => r == Err::<Option<NodeKind>, EditorError>(EditorError::NotAnInstancer),
        },
{
}

/// Lights have one structure where they are of one kind, and cameras where they project
/// alike.
pub proof fn law_structure_goes_by_kind(
    a: LightConfig,
    b: LightConfig,
    c: crate::node::CameraConfig,
    d: crate::node::CameraConfig,
)
    ensures
        (structure_text(NodeKind::Light(a)) == structure_text(NodeKind::Light(b))) == match (a, b) {
            (LightConfig::Directional { .. }, LightConfig::Directional { .. }) => true,
            (LightConfig::Point { .. }, LightConfig::Point { .. }) => true,
            (LightConfig::Spot { .. }, LightConfig::Spot { .. }) => true,
            _ => false,
        },
        (structure_text(NodeKind::Camera(c)) == structure_text(NodeKind::Camera(d))) == match (
            c.projection,
            d.projection,
        ) {
            (CameraProjection::Perspective { .. }, CameraProjection::Perspective { .. }) => true,
            (CameraProjection::Orthographic { .. }, CameraProjection::Orthographic { .. }) => true,
            _ => false,
        },
{
    reveal_strlit("light/dir");
    reveal_strlit("light/point");
    reveal_strlit("light/spot");
    reveal_strlit("cam/persp");
    reveal_strlit("cam/ortho");
    assert("light/dir"@.len() == 9 && "light/point"@.len() == 11 && "light/spot"@.len() == 10);
    assert("cam/persp"@[4] == 'p' && "cam/ortho"@[4] == 'o');
}

/// Where a node goes among others: at the index that is given, or last.
pub open spec fn slot_in(index: Option<usize>, n: nat) -> int {
    if index matches Some(i) && i <= n {
        index->0 as int
    } else {
        n as int
    }
}

proof fn lemma_inserted_at(f: Seq<Tree>, p: NodeId, index: Option<usize>, t: Tree)
    requires
        within(f, p),
    ensures
        find(f, p) is Some,
        find(inserted(f, p, index, t), p) is Some,
        ({
            let row = find(f, p)->0.children;
            let b = find(inserted(f, p, index, t), p)->0;
            &&& b.children == row.insert(slot_in(index, row.len()), t)
            &&& b.data == find(f, p)->0.data
        }),
    decreases f,
{
    lemma_at(f, p);
    lemma_find(f, p);
    let i = at(f, p);
    let g = inserted(f, p, index, t);
    if f[i].id != p {
        lemma_inserted_at(f[i].children, p, index, t);
        lemma_find(inserted(f[i].children, p, index, t), p);
    }
    assert forall|j: int| 0 <= j < i implies (#[trigger] g[j]).id != p && !within(
        g[j].children,
        p,
    ) by {
        assert(g[j] == f[j]);
    }
    lemma_at_is(g, p, i);
}

/// A node that is put into the scene stands below its parent, or at the top, at the
/// index that is given or last; the nodes beside it keep their order.
pub proof fn law_node_is_put_in_its_place(
    f: Seq<Tree>,
    parent: Option<NodeId>,
    index: Option<usize>,
    t: Tree,
)
    requires
        parent matches Some(p) ==> within(f, p),
    ensures
        ({
            let g = added(f, parent, index, t);
            match parent {
                None => g == f.insert(slot_in(index, f.len()), t),
                Some(p) => {
                    let row = find(f, p)->0.children;
                    &&& find(f, p) is Some
                    &&& find(g, p) is Some
                    &&& find(g, p)->0.data == find(f, p)->0.data
                    &&& find(g, p)->0.children == row.insert(slot_in(index, row.len()), t)
                },
            }
        }),
{
    if let Some(p) = parent {
        lemma_inserted_at(f, p, index, t);
    }
}

/// A node that is moved stands in its new place with all that is below it.
pub proof fn law_moved_node_is_in_its_place(
    f: Seq<Tree>,
    id: NodeId,
    parent: Option<NodeId>,
    index: Option<usize>,
)
    requires
        distinct(f),
        within(f, id),
        parent matches Some(p) ==> within(removed(f, id), p),
    ensures
        ({
            let g = moved(f, id, parent, index);
            let rest = removed(f, id);
            &&& find(g, id) == find(f, id)
            &&& match parent {
                None => g == rest.insert(slot_in(index, rest.len()), find(f, id)->0),
                Some(p) => {
                    let row = find(rest, p)->0.children;
                    find(g, p) is Some && find(g, p)->0.children == row.insert(
                        slot_in(index, row.len()),
                        find(f, id)->0,
                    )
                },
            }
        }),
{
    lemma_find(f, id);
    law_removal_keeps_ids_distinct(f, id);
    let t = find(f, id)->0;
    law_insert_is_undone(removed(f, id), parent, index, t);
    law_node_is_put_in_its_place(removed(f, id), parent, index, t);
}

proof fn lemma_removed_keeps(f: Seq<Tree>, id: NodeId, x: NodeId)
    requires
        distinct(f),
        within(f, id),
    ensures
        within(removed(f, id), x) == (within(f, x) && !owns(find(f, id)->0, x)),
    decreases f,
{
    lemma_at(f, id);
    lemma_find(f, id);
    let i = at(f, id);
    let g = removed(f, id);
    if f[i].id == id {
        if within(f, x) && !owns(f[i], x) {
            lemma_at(f, x);
            let j = at(f, x);
            assert(j != i);
            let m = if j < i {
                j
            } else {
                j - 1
            };
            assert(g[m] == f[j]);
            assert(g[m].id == x || within(g[m].children, x));
        }
        if within(g, x) {
            lemma_at(g, x);
            let m = at(g, x);
            let j = if m < i {
                m
            } else {
                m + 1
            };
            assert(f[j] == g[m]);
            assert(owns(f[j], x));
            assert(!owns(f[i], x));
        }
    } else {
        lemma_removed_keeps(f[i].children, id, x);
        let row = f[i].children;
        assert(find(f, id) == find(row, id));
        lemma_find(row, id);
        if owns(find(f, id)->0, x) {
            lemma_below_is_within(row, id, x);
            assert(owns(f[i], x));
            if f[i].id == x {
                assert(within(f[i].children, f[i].id));
            }
        }
        if within(f, x) && !owns(find(f, id)->0, x) {
            lemma_at(f, x);
            let j = at(f, x);
            if j != i {
                assert(g[j] == f[j]);
                assert(g[j].id == x || within(g[j].children, x));
            } else {
                assert(g[i].id == x || within(g[i].children, x));
            }
        }
        if within(g, x) {
            lemma_at(g, x);
            let j = at(g, x);
            if j != i {
                assert(g[j] == f[j]);
                assert(owns(f[j], x));
                assert(!owns(f[i], x));
            } else if g[i].id != x {
                assert(owns(f[i], x));
            }
            assert(f[j].id == x || within(f[j].children, x));
        }
    }
}

proof fn lemma_below_is_within(f: Seq<Tree>, id: NodeId, x: NodeId)
    requires
        within(f, id),
        owns(find(f, id)->0, x),
    ensures
        within(f, x),
    decreases f,
{
    lemma_at(f, id);
    lemma_find(f, id);
    let i = at(f, id);
    if f[i].id != id {
        lemma_below_is_within(f[i].children, id, x);
    }
    assert(f[i].id == x || within(f[i].children, x));
}

/// A node that is removed goes with all that is below it, and nothing else goes.
pub proof fn law_removal_takes_what_is_below(f: Seq<Tree>, id: NodeId, x: NodeId)
    requires
        distinct(f),
        within(f, id),
    ensures
        within(removed(f, id), x) == (within(f, x) && !owns(find(f, id)->0, x)),
{
    lemma_removed_keeps(f, id, x);
}

/// A reset puts each node of a row that has a rest pose at its rest pose, and keeps the
/// rest of it; every other node stays as it is.
pub proof fn law_reset_goes_to_the_rest_pose(
    f: Seq<Tree>,
    row: Seq<NodeId>,
    rest: Map<u128, Trs>,
    x: NodeId,
)
    ensures
        ({
            let g = rested(f, row, rest);
            let a = find(f, x)->0.data;
            let b = find(g, x)->0.data;
            &&& (find(g, x) is Some) == (find(f, x) is Some)
            &&& find(f, x) is Some ==> {
                &&& row.contains(x) && rest.contains_key(x.0) ==> b.transform == rest[x.0]
                &&& !(row.contains(x) && rest.contains_key(x.0)) ==> b.transform == a.transform
                &&& b.name == a.name
                &&& b.kind == a.kind
                &&& b.visible == a.visible
                &&& b.locked == a.locked
                &&& b.prefab == a.prefab
            }
        }),
    decreases row.len(),
{
    if row.len() > 0 {
        let less = row.drop_last();
        law_reset_goes_to_the_rest_pose(f, less, rest, x);
        let g = rested(f, less, rest);
        let id = row.last();
        if less.contains(x) {
            let j = choose|j: int| 0 <= j < less.len() && less[j] == x;
            assert(row[j] == x);
        }
        if row.contains(x) && !less.contains(x) {
            let j = choose|j: int| 0 <= j < row.len() && row[j] == x;
            if j < less.len() {
                assert(less[j] == x);
            }
        }
        if id == x {
            assert(row[row.len() - 1] == x);
        }
        lemma_find(g, id);
        if posed(g, id, rest) {
            law_put_changes_one_node(
                g,
                id,
                NodeData { transform: rest[id.0], ..find(g, id)->0.data },
                x,
            );
        }
    }
}

proof fn lemma_living(cs: Seq<ClipShape>, f: Seq<Tree>)
    ensures
        forall|i: int|
            0 <= i < living(cs, f).len() ==> cs.contains(#[trigger] living(cs, f)[i]) && !orphaned(
                living(cs, f)[i],
                f,
            ),
        forall|i: int|
            0 <= i < cs.len() && !orphaned(#[trigger] cs[i], f) ==> living(cs, f).contains(cs[i]),
    decreases cs.len(),
{
    if cs.len() > 0 {
        let less = cs.drop_last();
        lemma_living(less, f);
        let a = living(less, f);
        let r = living(cs, f);
        assert forall|i: int| 0 <= i < r.len() implies cs.contains(#[trigger] r[i]) && !orphaned(
            r[i],
            f,
        ) by {
            if i < a.len() {
                assert(a[i] == r[i]);
                let j = choose|j: int| 0 <= j < less.len() && less[j] == a[i];
                assert(cs[j] == r[i]);
            } else {
                assert(cs[cs.len() - 1] == r[i]);
            }
        }
        assert forall|i: int| 0 <= i < cs.len() && !orphaned(#[trigger] cs[i], f) implies r.contains(
            cs[i],
        ) by {
            if i < less.len() {
                assert(less[i] == cs[i]);
                let j = choose|j: int| 0 <= j < a.len() && a[j] == less[i];
                assert(r[j] == cs[i]);
            } else {
                assert(r[r.len() - 1] == cs[i]);
            }
        }
    }
}

/// A clip stays as long as a track of it drives something that exists; a clip with
/// tracks all of whose nodes are gone goes, and no other.
pub proof fn law_only_orphaned_clips_go(v: TimelineView, f: Seq<Tree>, c: ClipShape)
    requires
        v.clips.contains(c),
    ensures
        pruned(v, f).clips.contains(c) == !(c.tracks.len() > 0 && forall|i: int|
            0 <= i < c.tracks.len() ==> ((#[trigger] c.tracks[i]).target.node_of() matches Some(n)
                && !within(f, n))),
        forall|i: int| 0 <= i < pruned(v, f).clips.len() ==> v.clips.contains(#[trigger] pruned(v, f).clips[i]),
        pruned(v, f).layers == v.layers,
        pruned(v, f).playhead == v.playhead,
        v.current_clip is None ==> pruned(v, f).current_clip is None,
{
    lemma_living(v.clips, f);
    let i = choose|i: int| 0 <= i < v.clips.len() && v.clips[i] == c;
    assert(orphaned(c, f) == (c.tracks.len() > 0 && forall|i: int|
        0 <= i < c.tracks.len() ==> ((#[trigger] c.tracks[i]).target.node_of() matches Some(n)
            && !within(f, n))));
    if !orphaned(c, f) {
        assert(living(v.clips, f).contains(v.clips[i]));
    }
}

/// An id that is taken out of a row is gone, and the others stay.
pub proof fn law_id_is_taken_out(s: Seq<NodeId>, id: NodeId, x: NodeId)
    ensures
        without_id(s, id).contains(x) == (s.contains(x) && x != id),
    decreases s.len(),
{
    if s.len() > 0 {
        let less = s.drop_last();
        law_id_is_taken_out(less, id, x);
        let a = without_id(less, id);
        let r = without_id(s, id);
        if s.contains(x) {
            let j = choose|j: int| 0 <= j < s.len() && s[j] == x;
            if j < less.len() {
                assert(less[j] == x);
            }
        }
        if less.contains(x) {
            let j = choose|j: int| 0 <= j < less.len() && less[j] == x;
            assert(s[j] == x);
        }
        if a.contains(x) {
            let j = choose|j: int| 0 <= j < a.len() && a[j] == x;
            assert(r[j] == x);
        }
        if r.contains(x) {
            let j = choose|j: int| 0 <= j < r.len() && r[j] == x;
            if j < a.len() {
                assert(a[j] == x);
            } else {
                assert(s[s.len() - 1] == x);
            }
        }
        if s.last() == x && x != id {
            assert(r[r.len() - 1] == x);
            assert(s[s.len() - 1] == x);
        }
    }
}

} // verus!

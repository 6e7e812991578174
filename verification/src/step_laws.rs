//! What holds of the steps that can be taken back and forth, and of the messages that go
//! with them.
use crate::activity::compile_text;
use crate::activity_feed::{batch_child, described, is_worth_telling, told_command};
use crate::assets::{MeshData, ModifierStack, VertexOverrides};
use crate::command::{own_cost, row_cost, step_cost, transient, EditorCommand};
use crate::compiling::{import_failure, quiet};
use crate::controller::{
    apply_step, buffer_command, buffer_stored, cleared, dispatch_step, popped, pushed,
    redo_step, undo_step, ControllerView, Log,
};
use crate::errors::{error_text, EditorError};
use crate::find::lemma_first;
use crate::ids::{hyphenated, AssetId, NodeId};
use crate::list::List;
use crate::node_edit::NodeEdit;
use crate::query_errors::{query_error_text, QueryError};
use crate::selections::recent;
use crate::table::Table;
use crate::text::{decimal, holds};
use crate::tree::find;
use crate::workspace::WorkView;
use vstd::prelude::*;

verus! {

/// An edit that is kept and can be taken back leaves something to save, and nothing to
/// take forth again; a refused one leaves the steps as they are.
pub proof fn law_kept_edit_is_to_be_saved<
    F: Fn(&ModifierStack, &VertexOverrides, &Table<MeshData>) -> MeshData,
>(
    eval: F,
    v: ControllerView,
    cmd: EditorCommand,
    w: ControllerView,
    r: Result<(), EditorError>,
)
    requires
        dispatch_step(eval, v, cmd, w, r),
        !(cmd is NewProject),
        !(cmd is Batch),
    ensures
        r is Ok && !transient(cmd) ==> w.work.dirty,
        r is Ok && transient(cmd) ==> w.undo == v.undo && w.redo == v.redo,
        r is Ok ==> w.redo == v.redo || w.redo.steps.len() == 0,
        r is Err ==> w.undo == v.undo && w.redo == v.redo,
        w.undo.budget == v.undo.budget,
{
}

/// Taking a step back takes the newest one off and leaves the older ones; what takes it
/// forth again is the newest of the steps forth. With no step nothing happens.
pub proof fn law_newest_step_is_taken_back<
    F: Fn(&ModifierStack, &VertexOverrides, &Table<MeshData>) -> MeshData,
>(eval: F, v: ControllerView, w: ControllerView)
    requires
        undo_step(eval, v, w),
    ensures
        v.undo.steps.len() == 0 ==> w == v,
        v.undo.steps.len() > 0 ==> exists|
            mid: ControllerView,
            r: Result<Option<EditorCommand>, EditorError>,
        |
            #[trigger] apply_step(
                eval,
                (ControllerView { undo: popped(v.undo), ..v }),
                v.undo.steps.last(),
                mid,
                r,
            ) && w.work == mid.work && w.undo == mid.undo && (r is Err ==> w.redo == mid.redo) && (
            r matches Ok(Some(inv)) ==> w.redo == pushed(mid.redo, inv, v.undo.keys.last())),
{
}

/// Taking a step forth takes the newest one off; what takes it back again is the newest
/// of the steps back.
pub proof fn law_newest_step_is_taken_forth<
    F: Fn(&ModifierStack, &VertexOverrides, &Table<MeshData>) -> MeshData,
>(eval: F, v: ControllerView, w: ControllerView)
    requires
        redo_step(eval, v, w),
    ensures
        v.redo.steps.len() == 0 ==> w == v,
        v.redo.steps.len() > 0 ==> exists|
            mid: ControllerView,
            r: Result<Option<EditorCommand>, EditorError>,
        |
            #[trigger] apply_step(
                eval,
                (ControllerView { redo: popped(v.redo), ..v }),
                v.redo.steps.last(),
                mid,
                r,
            ) && w.work == mid.work && w.redo == mid.redo && (r is Err ==> w.undo == mid.undo) && (
            r matches Ok(Some(inv)) ==> w.undo == pushed(mid.undo, inv, v.redo.keys.last())),
{
}

/// A step that is taken off was the newest; the others keep their places, keys and
/// costs.
pub proof fn law_taken_step_was_the_newest(log: Log, i: int)
    requires
        log.steps.len() > 0,
        log.keys.len() == log.steps.len(),
        log.costs.len() == log.steps.len(),
        0 <= i < log.steps.len() - 1,
    ensures
        popped(log).steps.len() == log.steps.len() - 1,
        popped(log).steps[i] == log.steps[i],
        popped(log).keys[i] == log.keys[i],
        popped(log).costs[i] == log.costs[i],
        popped(log).budget == log.budget,
        cleared(log).steps.len() == 0 && cleared(log).budget == log.budget,
{
}

/// A step that is recorded where there is room for it is added, with its key and its
/// cost, after the others.
pub proof fn law_step_is_added_where_there_is_room(
    log: Log,
    step: EditorCommand,
    key: Option<(u8, NodeId)>,
)
    requires
        crate::history::cost_of(log.costs.push(step_cost(step))) <= log.budget,
    ensures
        pushed(log, step, key).steps == log.steps.push(step),
        pushed(log, step, key).keys == log.keys.push(key),
        pushed(log, step, key).costs == log.costs.push(step_cost(step)),
{
    let costs = log.costs.push(step_cost(step));
    assert(crate::history::overdue(costs, log.budget) == 0);
    assert(log.steps.push(step).skip(0) =~= log.steps.push(step));
    assert(log.keys.push(key).skip(0) =~= log.keys.push(key));
    assert(costs.skip(0) =~= costs);
}

/// Each command of a batch adds its own cost to that of the batch.
pub proof fn law_batch_costs_what_its_commands_cost(row: Seq<EditorCommand>, c: EditorCommand)
    requires
        row_cost(row) + own_cost(c) <= u64::MAX,
    ensures
        row_cost(row.push(c)) == row_cost(row) + own_cost(c),
        own_cost(c) >= 256,
        row_cost(Seq::empty()) == 256,
{
    assert(row.push(c).drop_last() =~= row);
}

/// Words that are bound to a slot are kept as a buffer of the project, and the slot is
/// bound to that buffer. Nothing is kept for a node that renders with nothing.
pub proof fn law_bound_words_are_kept(
    v: WorkView,
    node: NodeId,
    data: Option<List<u32>>,
    fresh: AssetId,
    w: WorkView,
    buffer: Option<AssetId>,
    named: String,
)
    requires
        buffer_stored(v, node, data, fresh, w, buffer),
    ensures
        data is None ==> w == v && buffer is None,
        !(find(v.nodes, node) matches Some(t) && t.data.kind.assigned()) ==> w == v && buffer
            is None,
        data is Some && (find(v.nodes, node) matches Some(t) && t.data.kind.assigned()) ==> buffer
            is Some,
        buffer matches Some(id) ==> {
            &&& data is Some
            &&& w.buffers.contains_key(id.0)
            &&& w.buffers[id.0] == (data->0)@
            &&& w.store.assets.contains_key(id.0)
            &&& w.store.assets[id.0].source is Buffer
            &&& w.nodes == v.nodes && w.library == v.library && w.timeline == v.timeline
        },
        buffer_command(node, named, buffer) matches EditorCommand::Node(c) && c.node == node && (
        c.edit matches NodeEdit::SetMaterialBuffer { named: n, buffer: b } && n == named && b
            == buffer),
{
}

/// Of a batch the first command that is worth telling is told; of one with none of
/// these, the first.
pub proof fn law_batch_is_told_by_its_first_deed(cmds: Seq<EditorCommand>)
    ensures
        cmds.len() == 0 ==> batch_child(cmds) is None,
        cmds.len() > 0 ==> batch_child(cmds) is Some && cmds.contains(batch_child(cmds)->0),
        forall|i: int|
            0 <= i < cmds.len() && is_worth_telling()(#[trigger] cmds[i]) && (forall|j: int|
                0 <= j < i ==> !is_worth_telling()(#[trigger] cmds[j])) ==> batch_child(cmds)
                == Some(cmds[i]),
        (forall|i: int| 0 <= i < cmds.len() ==> !is_worth_telling()(#[trigger] cmds[i]))
            && cmds.len() > 0 ==> batch_child(cmds) == Some(cmds[0]),
{
    let p = is_worth_telling();
    lemma_first(cmds, p);
    let k = crate::find::first(cmds, p);
    if k < cmds.len() {
        assert(p(cmds[k]));
    } else if cmds.len() > 0 {
        assert(cmds.contains(cmds[0]));
    }
}

/// A command that is not a batch is told as it is; what is worth telling has words.
pub proof fn law_single_command_is_told_as_it_is(c: EditorCommand)
    ensures
        !(c is Batch) ==> told_command(c) == c,
        is_worth_telling()(c) ==> described(c) is Some && !(c is Batch),
{
}

/// What compiles is counted: the pipelines where there are any, else the materials; one
/// is not spoken of as many.
pub proof fn law_compiling_is_counted(materials: usize, subcompiles: u32)
    ensures
        subcompiles > 1 ==> compile_text(materials, subcompiles) == "Compiling "@ + decimal(
            subcompiles as nat,
        ) + (" render pipeline"@ + "s"@ + "\u{2026}"@),
        subcompiles == 1 ==> compile_text(materials, subcompiles) == "Compiling "@ + decimal(1)
            + (" render pipeline"@ + ""@ + "\u{2026}"@),
        subcompiles == 0 && materials != 1 ==> compile_text(materials, subcompiles)
            == "Compiling "@ + decimal(materials as nat) + (" material"@ + "s"@ + "\u{2026}"@),
        subcompiles == 0 && materials == 1 ==> compile_text(materials, subcompiles)
            == "Compiling "@ + decimal(1) + (" material"@ + ""@ + "\u{2026}"@),
{
}

/// Nothing compiles where nothing is pending anywhere.
pub proof fn law_quiet_is_when_nothing_is_pending(a: u32, b: u32, c: u32)
    ensures
        quiet(a, b, c) == (a == 0 && b == 0 && c == 0),
        quiet(a, b, c) == quiet(c, b, a),
{
}

/// A failed import is told with the reason that is given.
pub proof fn law_failed_import_tells_its_reason(e: Seq<char>)
    ensures
        holds(import_failure(e), e),
        import_failure(e).len() >= 15 + e.len(),
{
    reveal_strlit("import failed: ");
    let s = import_failure(e);
    assert("import failed: "@.len() == 15);
    assert(s.subrange(15, 15int + e.len()) =~= e);
}

/// The recent lines are the last ones, in order, no more than are asked for.
pub proof fn law_recent_lines_are_the_last<T>(row: Seq<T>, limit: u32, i: int)
    requires
        0 <= i < recent(row, limit).len(),
    ensures
        recent(row, limit).len() == if row.len() <= limit {
            row.len() as int
        } else {
            limit as int
        },
        recent(row, limit)[recent(row, limit).len() - 1 - i] == row[row.len() - 1 - i],
{
}

proof fn lemma_middle(a: Seq<char>, b: Seq<char>, c: Seq<char>)
    ensures
        holds(a + b + c, b),
        holds(a + b, b),
{
    let s = a + b + c;
    assert(s.subrange(a.len() as int, a.len() as int + b.len()) =~= b);
    let t = a + b;
    assert(t.subrange(a.len() as int, a.len() as int + b.len()) =~= b);
}

/// A refusal names what it is about: the node, the asset, the slot, or the number.
pub proof fn law_refusal_names_its_subject(
    node: NodeId,
    asset: AssetId,
    handle: u32,
    name: String,
)
    ensures
        holds(error_text(EditorError::NoNode(node)), hyphenated(node.0)),
        holds(error_text(EditorError::NodeNotFound(node)), hyphenated(node.0)),
        holds(error_text(EditorError::SkinnedNode(node)), hyphenated(node.0)),
        holds(error_text(EditorError::NotAMeshNode(node)), hyphenated(node.0)),
        holds(error_text(EditorError::NoGeometry(node)), hyphenated(node.0)),
        holds(error_text(EditorError::NotAnEditableMesh(asset)), hyphenated(asset.0)),
        holds(error_text(EditorError::NoMaterial(asset)), hyphenated(asset.0)),
        holds(error_text(EditorError::NotBuiltin(asset)), hyphenated(asset.0)),
        holds(error_text(EditorError::NotBuiltinAlpha(asset)), hyphenated(asset.0)),
        holds(error_text(EditorError::NoLibraryMaterial(asset)), hyphenated(asset.0)),
        holds(error_text(EditorError::NoSelectionHandle(handle)), decimal(handle as nat)),
        holds(error_text(EditorError::NoUniform(name)), name@),
        holds(error_text(EditorError::NamedSlotUnbound(name)), name@),
        error_text(EditorError::Outside(name)) == name@,
{
    let n = hyphenated(node.0);
    let a = hyphenated(asset.0);
    lemma_middle("no node "@, n, seq![]);
    lemma_middle("node "@, n, " not found"@);
    lemma_middle("node "@, n, " is skinned; call drop_skinning first"@);
    lemma_middle("node "@, n, " has no editable mesh (not a Mesh node)"@);
    lemma_middle("node "@, n, " has no resolvable mesh geometry"@);
    lemma_middle("asset "@, a, " is not an editable mesh"@);
    lemma_middle("no material "@, a, seq![]);
    lemma_middle(
        "material "@,
        a,
        " is not a built-in (custom WGSL materials use the SetCustomMaterial* commands)"@,
    );
    lemma_middle(
        "material "@,
        a,
        " is not a built-in (custom WGSL materials author their alpha via set_material_alpha_wgsl)"@,
    );
    lemma_middle("add_material_variant: no library material with id "@, a, seq![]);
    lemma_middle(
        "no vertex-selection handle "@,
        decimal(handle as nat),
        " (create one with select_vertices_where { store: true })"@,
    );
    lemma_middle("material has no uniform named `"@, name@, "` — check the layout"@);
    lemma_middle(
        "texture slot `"@,
        name@,
        "` has no texture bound — bind one first (set_node_texture / set_material_texture)"@,
    );
}

/// A question that is refused is answered with what it was about.
pub proof fn law_refused_question_names_its_subject(
    node: NodeId,
    asset: AssetId,
    handle: u32,
)
    ensures
        holds(query_error_text(QueryError::NoCustomMaterial(asset)), hyphenated(asset.0)),
        holds(query_error_text(QueryError::NoNode(node)), hyphenated(node.0)),
        holds(query_error_text(QueryError::SkinnedNode(node)), hyphenated(node.0)),
        holds(query_error_text(QueryError::NoMesh(node)), hyphenated(node.0)),
        holds(query_error_text(QueryError::NotAMeshAsset(asset)), hyphenated(asset.0)),
        holds(query_error_text(QueryError::NoAsset(asset)), hyphenated(asset.0)),
        holds(query_error_text(QueryError::NoMeshAsset(node)), hyphenated(node.0)),
        holds(query_error_text(QueryError::NoSkin(node)), hyphenated(node.0)),
        holds(query_error_text(QueryError::EndNotMade(node)), hyphenated(node.0)),
        holds(query_error_text(QueryError::RootNotMade(node)), hyphenated(node.0)),
        holds(query_error_text(QueryError::NoSelectionHandle(handle)), decimal(handle as nat)),
{
    let n = hyphenated(node.0);
    let a = hyphenated(asset.0);
    lemma_middle("no custom material "@, a, seq![]);
    lemma_middle("no node "@, n, seq![]);
    lemma_middle("node "@, n, " is skinned; call drop_skinning first"@);
    lemma_middle("node "@, n, " has no resolvable mesh"@);
    lemma_middle("asset "@, a, " is not a mesh"@);
    lemma_middle("no asset "@, a, seq![]);
    lemma_middle("node "@, n, " is not a Mesh / has no resolvable mesh asset"@);
    lemma_middle("node "@, n, " has no materialized skin"@);
    lemma_middle("end_node "@, n, " not materialized"@);
    lemma_middle("root_node "@, n, " not materialized"@);
    lemma_middle("no vertex-selection handle "@, decimal(handle as nat), seq![]);
}

} // verus!

//! The editor: the one place that every command goes through. It keeps the undo
//! and the redo log, and counts the changes that others follow.
use crate::asset_edit::{intern_buffer_asset, interned};
use crate::assets::{MeshData, ModifierStack, VertexOverrides};
use crate::bundle::emptied_for;
use crate::command::{
    animates, coalesce_key, command_name, edit_key, reshapes, step_cost, transient, EditorCommand,
};
use crate::errors::EditorError;
use crate::history::{lemma_overdue, overdue, BoundedHistory};
use crate::ids::{AssetId, NodeId};
use crate::list::{reversed, List};
use crate::mesh_edit::{total, StoreView};
use crate::node_edit::{NodeCommand, NodeEdit};
use crate::query::{answers, Answer, EditorQuery};
use crate::snapshot::{snapshot, tells_state, EditorSnapshot};
use crate::table::Table;
use crate::tree::{find, find_by_id, lemma_model};
use crate::workspace::{
    as_row, count32, counted32, counted64, one, work_step, WorkView, Workspace,
};
use crate::world::EnvironmentConfig;
use vstd::prelude::*;

verus! {

/// What tells which continuous edit a step stands for.
pub type EditKey = Option<(u8, NodeId)>;

/// A step of a log: what is applied to take it, and the key of the edit that it
/// stands for.
pub struct Step {
    pub back: EditorCommand,
    pub key: EditKey,
}

/// A log as a value: the steps, the keys of the edits that they stand for, what they
/// cost, and what they may cost.
#[verifier::ext_equal]
pub struct Log {
    pub steps: Seq<EditorCommand>,
    pub keys: Seq<EditKey>,
    pub costs: Seq<u64>,
    pub budget: u64,
}

/// The log that a history is.
pub open spec fn log_of(h: BoundedHistory<Step>) -> Log {
    Log {
        steps: h@.steps.map_values(|s: Step| s.back),
        keys: h@.steps.map_values(|s: Step| s.key),
        costs: h@.costs,
        budget: h@.budget,
    }
}

/// The log with a step added, without the oldest ones that no longer fit.
pub open spec fn pushed(log: Log, step: EditorCommand, key: EditKey) -> Log {
    let costs = log.costs.push(step_cost(step));
    let n = overdue(costs, log.budget) as int;
    Log {
        steps: log.steps.push(step).skip(n),
        keys: log.keys.push(key).skip(n),
        costs: costs.skip(n),
        ..log
    }
}

/// The log without its newest step.
pub open spec fn popped(log: Log) -> Log {
    Log {
        steps: log.steps.drop_last(),
        keys: log.keys.drop_last(),
        costs: log.costs.drop_last(),
        ..log
    }
}

/// The log without any step.
pub open spec fn cleared(log: Log) -> Log {
    Log { steps: seq![], keys: seq![], costs: seq![], ..log }
}

/// The words of a buffer before they are bound to a slot of a node: stored as an
/// asset, where there are any and the node renders with a material.
pub open spec fn buffer_stored(
    v: WorkView,
    node: NodeId,
    data: Option<List<u32>>,
    fresh: AssetId,
    w: WorkView,
    buffer: Option<AssetId>,
) -> bool {
    let painted = find(v.nodes, node) matches Some(t) && t.data.kind.assigned();
    match data {
        Some(words) => if painted {
            match buffer {
                Some(id) => interned(v.store.assets, words@, fresh, w.store.assets, id) && w == (
                WorkView {
                    store: StoreView { assets: w.store.assets, ..v.store },
                    buffers: v.buffers.insert(id.0, words@),
                    ..v
                }),
                None => false,
            }
        } else {
            buffer is None && w == v
        },
        None => buffer is None && w == v,
    }
}

/// The command that binds a buffer to a slot of a node.
pub open spec fn buffer_command(node: NodeId, named: String, buffer: Option<AssetId>) -> EditorCommand {
    EditorCommand::Node(NodeCommand { node, edit: NodeEdit::SetMaterialBuffer { named, buffer } })
}

/// The editor.
pub struct EditorController {
    pub work: Workspace,
    undo: BoundedHistory<Step>,
    redo: BoundedHistory<Step>,
}

/// The editor as a value.
#[verifier::ext_equal]
pub struct ControllerView {
    pub work: WorkView,
    pub undo: Log,
    pub redo: Log,
}

impl View for EditorController {
    type V = ControllerView;

    closed spec fn view(&self) -> ControllerView {
        ControllerView { work: self.work@, undo: log_of(self.undo), redo: log_of(self.redo) }
    }
}

/// Whether a command starts a new project, on its own or within a batch.
pub open spec fn starts_over(cmd: EditorCommand) -> bool {
    match cmd {
        EditorCommand::Batch(row) => any_new(row@),
        _ => cmd is NewProject,
    }
}

/// Whether one of some commands is that for a new project.
pub open spec fn any_new(row: Seq<EditorCommand>) -> bool {
    exists|i: int| 0 <= i < row.len() && #[trigger] row[i] is NewProject
}

/// The logs after an edit went through: a new project has no past.
pub open spec fn past_kept(v: ControllerView, fresh: bool, work: WorkView) -> ControllerView {
    if fresh {
        ControllerView { work, undo: cleared(v.undo), redo: cleared(v.redo) }
    } else {
        ControllerView { work, ..v }
    }
}

/// A workspace that is set back after a batch was refused: as it was, but for the
/// counts of changes, which go on.
pub open spec fn set_back(v: WorkView, reached: WorkView) -> WorkView {
    WorkView {
        structure_rev: reached.structure_rev,
        external_rev: reached.external_rev,
        anim_revision: reached.anim_revision,
        mesh_revision: reached.mesh_revision,
        scene_revision: reached.scene_revision,
        ..v
    }
}

/// A workspace after the changes of a command were counted.
pub open spec fn revised(v: WorkView, cmd: EditorCommand) -> WorkView {
    WorkView {
        anim_revision: counted32(v.anim_revision, animates(cmd)),
        mesh_revision: counted32(v.mesh_revision, reshapes(cmd)),
        ..v
    }
}

/// What a command on its own does, its changes counted even where it is refused.
pub open spec fn leaf_step<
    F: Fn(&ModifierStack, &VertexOverrides, &Table<MeshData>) -> MeshData,
>(
    eval: F,
    v: WorkView,
    cmd: EditorCommand,
    w: WorkView,
    r: Result<Seq<EditorCommand>, EditorError>,
) -> bool {
    exists|mid: WorkView| #[trigger] work_step(eval, v, cmd, mid, r) && w == revised(mid, cmd)
}

/// What takes rows of edits back: the last row first.
pub open spec fn unwound(rows: Seq<Seq<EditorCommand>>) -> Seq<EditorCommand>
    decreases rows.len(),
{
    if rows.len() == 0 {
        seq![]
    } else {
        rows.last() + unwound(rows.drop_last())
    }
}

/// Whether commands lead from state to state, each handing back its row.
pub open spec fn leaf_run<
    F: Fn(&ModifierStack, &VertexOverrides, &Table<MeshData>) -> MeshData,
>(
    eval: F,
    states: Seq<WorkView>,
    cmds: Seq<EditorCommand>,
    rows: Seq<Seq<EditorCommand>>,
) -> bool {
    &&& states.len() == rows.len() + 1
    &&& rows.len() <= cmds.len()
    &&& forall|i: int|
        0 <= i < rows.len() ==> leaf_step(
            eval,
            states[i],
            cmds[i],
            states[i + 1],
            Ok(#[trigger] rows[i]),
        )
}

/// The error of a batch: which command it was and what was wrong.
pub open spec fn batch_error(
    e: EditorError,
    step: nat,
    cmd: EditorCommand,
    cause: EditorError,
) -> bool {
    e matches EditorError::InBatch { step: i, label, cause: c } && i == step && label@
        == command_name(cmd) && *c == cause
}

/// What a batch does: its commands one after the other, or none of them. What takes
/// it back is a batch too. Where one is refused, the workspace is set back.
pub open spec fn batch_step<
    F: Fn(&ModifierStack, &VertexOverrides, &Table<MeshData>) -> MeshData,
>(
    eval: F,
    v: WorkView,
    cmds: Seq<EditorCommand>,
    w: WorkView,
    r: Result<Option<EditorCommand>, EditorError>,
) -> bool {
    exists|states: Seq<WorkView>, rows: Seq<Seq<EditorCommand>>|
        #[trigger] leaf_run(eval, states, cmds, rows) && states[0] == v && match r {
            Ok(inv) => {
                &&& rows.len() == cmds.len()
                &&& w == states.last()
                &&& inv matches Some(EditorCommand::Batch(b)) && b@ == unwound(rows)
            },
            Err(e) => {
                let n = rows.len() as int;
                &&& n < cmds.len()
                &&& exists|mid: WorkView, cause: EditorError| #[trigger]
                    work_step(eval, states.last(), cmds[n], mid, Err(cause)) && batch_error(
                        e,
                        n as nat,
                        cmds[n],
                        cause,
                    ) && w == set_back(v, mid)
            },
        }
}

/// A row of commands as one step: nothing, the one command, or a batch.
pub open spec fn packs(row: Seq<EditorCommand>, inv: Option<EditorCommand>) -> bool {
    if row.len() == 0 {
        inv is None
    } else if row.len() == 1 {
        inv == Some(row[0])
    } else {
        inv matches Some(EditorCommand::Batch(b)) && b@ == row
    }
}

/// What a command does to the workspace.
pub open spec fn applied<
    F: Fn(&ModifierStack, &VertexOverrides, &Table<MeshData>) -> MeshData,
>(
    eval: F,
    v: WorkView,
    cmd: EditorCommand,
    w: WorkView,
    r: Result<Option<EditorCommand>, EditorError>,
) -> bool {
    match cmd {
        EditorCommand::Batch(cmds) => batch_step(eval, v, cmds@, w, r),
        _ => match r {
            Err(e) => leaf_step(eval, v, cmd, w, Err(e)),
            Ok(inv) => exists|row: Seq<EditorCommand>| #[trigger]
                leaf_step(eval, v, cmd, w, Ok(row)) && packs(row, inv),
        },
    }
}

/// What a command does. A new project has no past.
pub open spec fn apply_step<
    F: Fn(&ModifierStack, &VertexOverrides, &Table<MeshData>) -> MeshData,
>(
    eval: F,
    v: ControllerView,
    cmd: EditorCommand,
    w: ControllerView,
    r: Result<Option<EditorCommand>, EditorError>,
) -> bool {
    applied(eval, v.work, cmd, w.work, r) && w == past_kept(
        v,
        r is Ok && starts_over(cmd),
        w.work,
    )
}

/// Whether the newest step stands for the edit with a key.
pub open spec fn continued(undo: Log, key: EditKey) -> bool {
    key is Some && undo.keys.len() > 0 && undo.keys.last() == key
}

/// Whether an edit goes on with the one that the newest step stands for.
pub open spec fn goes_on(undo: Log, cmd: EditorCommand) -> bool {
    continued(undo, edit_key(cmd))
}

/// The editor after a lasting edit with a key is recorded. A continuous edit is one
/// step; any other edit is a new step and ends what could be redone.
pub open spec fn logged(
    v: ControllerView,
    key: EditKey,
    inv: Option<EditorCommand>,
) -> ControllerView {
    let marked = ControllerView { work: WorkView { dirty: true, ..v.work }, ..v };
    match inv {
        Some(step) => if continued(v.undo, key) {
            marked
        } else {
            ControllerView {
                undo: pushed(v.undo, step, key),
                redo: cleared(v.redo),
                ..marked
            }
        },
        None => marked,
    }
}

/// The editor after a command was applied and is recorded, where it is lasting.
pub open spec fn recorded(
    v: ControllerView,
    cmd: EditorCommand,
    inv: Option<EditorCommand>,
) -> ControllerView {
    if transient(cmd) {
        v
    } else {
        logged(v, edit_key(cmd), inv)
    }
}

/// What dispatching a command does.
pub open spec fn dispatch_step<
    F: Fn(&ModifierStack, &VertexOverrides, &Table<MeshData>) -> MeshData,
>(
    eval: F,
    v: ControllerView,
    cmd: EditorCommand,
    w: ControllerView,
    r: Result<(), EditorError>,
) -> bool {
    match r {
        Err(e) => apply_step(eval, v, cmd, w, Err(e)),
        Ok(_) => exists|mid: ControllerView, inv: Option<EditorCommand>| #[trigger]
            apply_step(eval, v, cmd, mid, Ok(inv)) && w == recorded(mid, cmd, inv),
    }
}

/// A step as a row of commands: those of a batch, else the one command.
pub open spec fn flat(inv: Option<EditorCommand>) -> Seq<EditorCommand> {
    match inv {
        None => seq![],
        Some(EditorCommand::Batch(b)) => b@,
        Some(c) => seq![c],
    }
}

/// Whether dispatched commands lead from state to state. The rows hold what
/// takes the lasting ones back.
pub open spec fn apply_run<
    F: Fn(&ModifierStack, &VertexOverrides, &Table<MeshData>) -> MeshData,
>(
    eval: F,
    states: Seq<WorkView>,
    cmds: Seq<EditorCommand>,
    invs: Seq<Option<EditorCommand>>,
) -> bool {
    &&& states.len() == invs.len() + 1
    &&& invs.len() <= cmds.len()
    &&& forall|i: int|
        0 <= i < invs.len() ==> applied(
            eval,
            states[i],
            cmds[i],
            states[i + 1],
            Ok(#[trigger] invs[i]),
        )
}

/// The rows that take the lasting ones of some commands back.
pub open spec fn lasting_rows(
    cmds: Seq<EditorCommand>,
    invs: Seq<Option<EditorCommand>>,
) -> Seq<Seq<EditorCommand>> {
    Seq::new(
        invs.len(),
        |i: int|
            if transient(cmds[i]) {
                seq![]
            } else {
                flat(invs[i])
            },
    )
}

/// Whether any of some commands is lasting.
pub open spec fn any_lasting(cmds: Seq<EditorCommand>) -> bool {
    exists|i: int| 0 <= i < cmds.len() && !transient(#[trigger] cmds[i])
}

/// The editor after a row of commands is recorded as one step.
pub open spec fn recorded_row(
    v: ControllerView,
    cmds: Seq<EditorCommand>,
    back: Seq<EditorCommand>,
    w: ControllerView,
) -> bool {
    &&& w.work == (WorkView { dirty: v.work.dirty || any_lasting(cmds), ..v.work })
    &&& if back.len() == 0 {
        w.undo == v.undo && w.redo == v.redo
    } else {
        &&& w.redo == cleared(v.redo)
        &&& exists|b: Vec<EditorCommand>|
            b@ == back && w.undo == #[trigger] pushed(v.undo, EditorCommand::Batch(b), None)
    }
}

/// Whether one of some commands starts a new project.
pub open spec fn any_over(cmds: Seq<EditorCommand>) -> bool {
    exists|i: int| 0 <= i < cmds.len() && starts_over(#[trigger] cmds[i])
}

/// What dispatching a row of commands as one step does. Where one is refused,
/// nothing of them stays.
pub open spec fn dispatch_batch_step<
    F: Fn(&ModifierStack, &VertexOverrides, &Table<MeshData>) -> MeshData,
>(
    eval: F,
    v: ControllerView,
    cmds: Seq<EditorCommand>,
    w: ControllerView,
    r: Result<(), EditorError>,
) -> bool {
    exists|states: Seq<WorkView>, invs: Seq<Option<EditorCommand>>|
        #[trigger] apply_run(eval, states, cmds, invs) && states[0] == v.work && match r {
            Ok(_) => invs.len() == cmds.len() && recorded_row(
                past_kept(v, any_over(cmds), states.last()),
                cmds,
                unwound(lasting_rows(cmds, invs)),
                w,
            ),
            Err(e) => {
                let n = invs.len() as int;
                &&& n < cmds.len()
                &&& exists|mid: WorkView, cause: EditorError| #[trigger]
                    applied(eval, states.last(), cmds[n], mid, Err(cause)) && batch_error(
                        e,
                        n as nat,
                        cmds[n],
                        cause,
                    ) && w == (ControllerView { work: set_back(v.work, mid), ..v })
            },
        }
}

/// What taking the newest step back does; what takes that back can be redone.
pub open spec fn undo_step<
    F: Fn(&ModifierStack, &VertexOverrides, &Table<MeshData>) -> MeshData,
>(eval: F, v: ControllerView, w: ControllerView) -> bool {
    if v.undo.steps.len() == 0 {
        w == v
    } else {
        let from = ControllerView { undo: popped(v.undo), ..v };
        exists|mid: ControllerView, r: Result<Option<EditorCommand>, EditorError>| #[trigger]
            apply_step(eval, from, v.undo.steps.last(), mid, r) && w == match r {
                Ok(Some(inv)) => ControllerView { redo: pushed(mid.redo, inv, v.undo.keys.last()), ..mid },
                _ => mid,
            }
    }
}

/// What doing the newest undone step again does.
pub open spec fn redo_step<
    F: Fn(&ModifierStack, &VertexOverrides, &Table<MeshData>) -> MeshData,
>(eval: F, v: ControllerView, w: ControllerView) -> bool {
    if v.redo.steps.len() == 0 {
        w == v
    } else {
        let from = ControllerView { redo: popped(v.redo), ..v };
        exists|mid: ControllerView, r: Result<Option<EditorCommand>, EditorError>| #[trigger]
            apply_step(eval, from, v.redo.steps.last(), mid, r) && w == match r {
                Ok(Some(inv)) => ControllerView { undo: pushed(mid.undo, inv, v.redo.keys.last()), ..mid },
                _ => mid,
            }
    }
}

fn flatten(inv: Option<EditorCommand>) -> (r: Vec<EditorCommand>)
    ensures
        r@ == flat(inv),
{
    match inv {
        None => Vec::new(),
        Some(c) => match c {
            EditorCommand::Batch(b) => b,
            c => one(c),
        },
    }
}

fn pack(row: Vec<EditorCommand>) -> (r: Option<EditorCommand>)
    ensures
        packs(row@, r),
{
    if row.len() == 0 {
        None
    } else if row.len() == 1 {
        let mut row = row;
        row.pop()
    } else {
        Some(EditorCommand::Batch(row))
    }
}

fn same_key(a: EditKey, b: EditKey) -> (r: bool)
    ensures
        r == (a == b),
{
    match (a, b) {
        (Some((x, m)), Some((y, n))) => x == y && m == n,
        (None, None) => true,
        _ => false,
    }
}

fn has_new(row: &Vec<EditorCommand>) -> (r: bool)
    ensures
        r == any_new(row@),
{
    let mut i: usize = 0;
    while i < row.len()
        invariant
            i <= row@.len(),
            forall|j: int| 0 <= j < i ==> !(#[trigger] row@[j] is NewProject),
        decreases row@.len() - i,
    {
        if let EditorCommand::NewProject { .. } = &row[i] {
            assert(row@[i as int] is NewProject);
            return true;
        }
        i += 1;
    }
    false
}

fn is_over(cmd: &EditorCommand) -> (r: bool)
    ensures
        r == starts_over(*cmd),
{
    match cmd {
        EditorCommand::NewProject { .. } => true,
        EditorCommand::Batch(row) => has_new(row),
        _ => false,
    }
}

/// Sets a workspace back to what it was, but for the counts of changes.
fn go_back(work: &mut Workspace, before: Workspace)
    ensures
        final(work)@ == set_back(before@, old(work)@),
{
    let structure_rev = work.structure_rev;
    let external_rev = work.external_rev;
    let anim_revision = work.anim_revision;
    let mesh_revision = work.mesh_revision;
    let scene_revision = work.scene_revision;
    *work = before;
    work.structure_rev = structure_rev;
    work.external_rev = external_rev;
    work.anim_revision = anim_revision;
    work.mesh_revision = mesh_revision;
    work.scene_revision = scene_revision;
}

fn leaf<F: Fn(&ModifierStack, &VertexOverrides, &Table<MeshData>) -> MeshData>(
    work: &mut Workspace,
    cmd: EditorCommand,
    eval: &F,
) -> (r: Result<Vec<EditorCommand>, EditorError>)
    requires
        total(*eval),
    ensures
        leaf_step(*eval, old(work)@, cmd, final(work)@, as_row(r)),
{
    let ghost v = work@;
    let touches_anim = cmd.affects_animation();
    let touches_mesh = cmd.affects_mesh();
    let r = work.apply_inner(cmd, eval);
    let ghost mid = work@;
    work.anim_revision = count32(work.anim_revision, touches_anim);
    work.mesh_revision = count32(work.mesh_revision, touches_mesh);
    proof {
        assert(work_step(*eval, v, cmd, mid, as_row(r)));
        assert(work@ =~= revised(mid, cmd));
    }
    r
}

fn sub_command<F: Fn(&ModifierStack, &VertexOverrides, &Table<MeshData>) -> MeshData>(
    work: &mut Workspace,
    cmd: EditorCommand,
    eval: &F,
) -> (r: Result<Vec<EditorCommand>, EditorError>)
    requires
        total(*eval),
    ensures
        match r {
            Ok(row) => leaf_step(*eval, old(work)@, cmd, final(work)@, Ok(row@)),
            Err(e) => work_step(*eval, old(work)@, cmd, final(work)@, Err(e)),
        },
{
    let ghost v = work@;
    let touches_anim = cmd.affects_animation();
    let touches_mesh = cmd.affects_mesh();
    match work.apply_inner(cmd, eval) {
        Ok(row) => {
            let ghost mid = work@;
            work.anim_revision = count32(work.anim_revision, touches_anim);
            work.mesh_revision = count32(work.mesh_revision, touches_mesh);
            proof {
                assert(work_step(*eval, v, cmd, mid, Ok(row@)));
                assert(work@ =~= revised(mid, cmd));
            }
            Ok(row)
        },
        Err(e) => Err(e),
    }
}

fn batch<F: Fn(&ModifierStack, &VertexOverrides, &Table<MeshData>) -> MeshData>(
    work: &mut Workspace,
    cmds: Vec<EditorCommand>,
    eval: &F,
) -> (r: Result<Option<EditorCommand>, EditorError>)
    requires
        total(*eval),
    ensures
        batch_step(*eval, old(work)@, cmds@, final(work)@, r),
{
    let ghost all = cmds@;
    let ghost v = work@;
    let before = work.copied();
    let n: usize = cmds.len();
    let mut rest = reversed(cmds);
    let mut back: Vec<EditorCommand> = Vec::new();
    let mut step: usize = 0;
    let ghost mut states: Seq<WorkView> = seq![v];
    let ghost mut rows: Seq<Seq<EditorCommand>> = seq![];
    assert(unwound(rows) =~= seq![]);
    assert(rest@ =~= all.reverse().take(rest@.len() as int));
    while rest.len() > 0
        invariant
            total(*eval),
            v == old(work)@,
            before@ == v,
            all == cmds@,
            all.len() == n,
            rest@.len() + step == n,
            rest@ == all.reverse().take(rest@.len() as int),
            rows.len() == step,
            leaf_run(*eval, states, all, rows),
            states[0] == v,
            states.last() == work@,
            back@ == unwound(rows),
        decreases rest@.len(),
    {
        if let Some(c) = rest.pop() {
            assert(c == all[step as int]);
            assert(rest@ =~= all.reverse().take(rest@.len() as int));
            let label = c.label();
            match sub_command(work, c, eval) {
                Ok(row) => {
                    let ghost own = row@;
                    let ghost was = rows;
                    proof {
                        lemma_leaf_run_goes_on(*eval, states, all, rows, work@, own);
                        states = states.push(work@);
                        rows = rows.push(own);
                        assert(rows.drop_last() =~= was);
                    }
                    let mut next = row;
                    next.append(&mut back);
                    back = next;
                    assert(back@ =~= unwound(rows));
                },
                Err(cause) => {
                    let e = EditorError::InBatch {
                        step,
                        label: label.to_owned(),
                        cause: Box::new(cause),
                    };
                    assert(batch_error(e, step as nat, c, cause));
                    let ghost mid = work@;
                    assert(work_step(*eval, states.last(), c, mid, Err(cause)));
                    go_back(work, before);
                    return Err(e);
                },
            }
            step += 1;
        }
    }
    Ok(Some(EditorCommand::Batch(back)))
}

fn apply_work<F: Fn(&ModifierStack, &VertexOverrides, &Table<MeshData>) -> MeshData>(
    work: &mut Workspace,
    cmd: EditorCommand,
    eval: &F,
) -> (r: Result<Option<EditorCommand>, EditorError>)
    requires
        total(*eval),
    ensures
        applied(*eval, old(work)@, cmd, final(work)@, r),
{
    let ghost v = work@;
    match cmd {
        EditorCommand::Batch(cmds) => batch(work, cmds, eval),
        cmd => match leaf(work, cmd, eval) {
            Err(e) => Err(e),
            Ok(row) => {
                assert(leaf_step(*eval, v, cmd, work@, Ok(row@)));
                Ok(pack(row))
            },
        },
    }
}

impl EditorController {
    /// An editor at work on what is given, with nothing to undo.
    pub fn new(work: Workspace) -> (c: EditorController)
        ensures
            c@.work == work@,
            c@.undo == (Log { steps: seq![], keys: seq![], costs: seq![], budget: 0x1000_0000 }),
            c@.redo == c@.undo,
    {
        let c = EditorController {
            work,
            undo: BoundedHistory::with_default_budget(),
            redo: BoundedHistory::with_default_budget(),
        };
        assert(c@.undo =~= Log { steps: seq![], keys: seq![], costs: seq![], budget: 0x1000_0000 });
        assert(c@.redo =~= c@.undo);
        c
    }

    /// Counts an edit that did not come from the controls themselves.
    pub fn note_external_mutation(&mut self)
        ensures
            final(self)@ == (ControllerView {
                work: WorkView {
                    external_rev: counted64(old(self)@.work.external_rev, true),
                    ..old(self)@.work
                },
                ..old(self)@
            }),
    {
        self.work.external_rev = self.work.external_rev.wrapping_add(1);
    }

    /// The state of the editor.
    pub fn snapshot(&self) -> (r: EditorSnapshot)
        ensures
            tells_state(self@.work, self@.undo.steps.len(), self@.redo.steps.len(), r),
    {
        snapshot(&self.work, self.undo.len(), self.redo.len())
    }

    /// Every step of the two logs has a key and a cost.
    pub proof fn law_steps_have_keys_and_costs(&self)
        ensures
            self@.undo.keys.len() == self@.undo.steps.len(),
            self@.undo.costs.len() == self@.undo.steps.len(),
            self@.redo.keys.len() == self@.redo.steps.len(),
            self@.redo.costs.len() == self@.redo.steps.len(),
    {
        self.undo.lemma_costs();
        self.redo.lemma_costs();
    }

    /// Answers a question.
    pub fn query(&mut self, q: EditorQuery) -> (a: Answer)
        ensures
            answers(
                old(self)@.work,
                old(self)@.undo.steps.len(),
                old(self)@.redo.steps.len(),
                q,
                final(self)@.work,
                a,
            ),
            final(self)@.undo == old(self)@.undo,
            final(self)@.redo == old(self)@.redo,
    {
        let undo: usize = self.undo.len();
        let redo: usize = self.redo.len();
        self.work.query(undo, redo, q)
    }

    pub fn can_undo(&self) -> (r: bool)
        ensures
            r == (self@.undo.steps.len() > 0),
    {
        !self.undo.is_empty()
    }

    pub fn can_redo(&self) -> (r: bool)
        ensures
            r == (self@.redo.steps.len() > 0),
    {
        !self.redo.is_empty()
    }

    /// Forgets what could be undone and redone.
    pub fn reset_history(&mut self)
        ensures
            final(self)@ == (ControllerView {
                undo: cleared(old(self)@.undo),
                redo: cleared(old(self)@.redo),
                ..old(self)@
            }),
    {
        let ghost v = self@;
        self.undo.clear();
        self.redo.clear();
        assert(self@.undo =~= cleared(v.undo));
        assert(self@.redo =~= cleared(v.redo));
    }

    fn push_undo(&mut self, back: EditorCommand, key: EditKey)
        ensures
            final(self)@ == (ControllerView {
                undo: pushed(old(self)@.undo, back, key),
                ..old(self)@
            }),
    {
        let ghost v = self@.undo;
        let ghost was = self.undo@.steps;
        let cost = back.cost();
        let ghost step = Step { back, key };
        proof {
            self.undo.lemma_costs();
            lemma_overdue(v.costs.push(cost), v.budget);
        }
        self.undo.push(Step { back, key }, cost);
        proof {
            let n = overdue(v.costs.push(cost), v.budget) as int;
            assert(self.undo@.steps == was.push(step).skip(n));
            assert(self@.undo.steps =~= v.steps.push(back).skip(n));
            assert(self@.undo.keys =~= v.keys.push(key).skip(n));
            assert(self@.undo =~= pushed(v, back, key));
        }
    }

    fn push_redo(&mut self, back: EditorCommand, key: EditKey)
        ensures
            final(self)@ == (ControllerView {
                redo: pushed(old(self)@.redo, back, key),
                ..old(self)@
            }),
    {
        let ghost v = self@.redo;
        let ghost was = self.redo@.steps;
        let cost = back.cost();
        let ghost step = Step { back, key };
        proof {
            self.redo.lemma_costs();
            lemma_overdue(v.costs.push(cost), v.budget);
        }
        self.redo.push(Step { back, key }, cost);
        proof {
            let n = overdue(v.costs.push(cost), v.budget) as int;
            assert(self.redo@.steps == was.push(step).skip(n));
            assert(self@.redo.steps =~= v.steps.push(back).skip(n));
            assert(self@.redo.keys =~= v.keys.push(key).skip(n));
            assert(self@.redo =~= pushed(v, back, key));
        }
    }

    fn continues(&self, key: EditKey) -> (r: bool)
        ensures
            r == continued(self@.undo, key),
    {
        match self.undo.last() {
            Some(last) => {
                assert(self@.undo.keys.last() == last.key);
                key.is_some() && same_key(last.key, key)
            },
            None => false,
        }
    }

    fn record(&mut self, key: EditKey, inverse: Option<EditorCommand>)
        ensures
            final(self)@ == logged(old(self)@, key, inverse),
    {
        if let Some(step) = inverse {
            if !self.continues(key) {
                self.push_undo(step, key);
                self.forget_redo();
            }
        }
        self.work.dirty = true;
    }

    fn record_row(&mut self, back: Vec<EditorCommand>)
        ensures
            final(self)@.work == old(self)@.work,
            if back@.len() == 0 {
                final(self)@ == old(self)@
            } else {
                &&& final(self)@.redo == cleared(old(self)@.redo)
                &&& final(self)@.undo == pushed(old(self)@.undo, EditorCommand::Batch(back), None)
            },
    {
        if back.len() > 0 {
            self.push_undo(EditorCommand::Batch(back), None);
            self.forget_redo();
        }
    }

    fn forget_redo(&mut self)
        ensures
            final(self)@ == (ControllerView { redo: cleared(old(self)@.redo), ..old(self)@ }),
    {
        let ghost v = self@.redo;
        self.redo.clear();
        assert(self@.redo =~= cleared(v));
    }

    /// Empties the project for the reload of a bundle: it has no past.
    pub fn empty_for_bundle(&mut self, environment: EnvironmentConfig)
        ensures
            final(self)@ == (ControllerView {
                work: emptied_for(old(self)@.work, environment),
                undo: cleared(old(self)@.undo),
                redo: cleared(old(self)@.redo),
            }),
    {
        self.work.empty_for_bundle(environment);
        self.reset_history();
    }

    /// Applies a command and counts its changes: the one way in which anything is
    /// changed, also by undo and redo.
    fn apply<F: Fn(&ModifierStack, &VertexOverrides, &Table<MeshData>) -> MeshData>(
        &mut self,
        cmd: EditorCommand,
        eval: &F,
    ) -> (r: Result<Option<EditorCommand>, EditorError>)
        requires
            total(*eval),
        ensures
            apply_step(*eval, old(self)@, cmd, final(self)@, r),
    {
        let fresh = is_over(&cmd);
        let r = apply_work(&mut self.work, cmd, eval);
        if fresh && r.is_ok() {
            self.reset_history();
        }
        r
    }

    /// Dispatches a command. What takes it back becomes a step of the undo log,
    /// unless it goes on with the edit that the newest step stands for.
    #[verifier::rlimit(40)]
    pub fn dispatch<F: Fn(&ModifierStack, &VertexOverrides, &Table<MeshData>) -> MeshData>(
        &mut self,
        cmd: EditorCommand,
        eval: &F,
    ) -> (r: Result<(), EditorError>)
        requires
            total(*eval),
        ensures
            dispatch_step(*eval, old(self)@, cmd, final(self)@, r),
    {
        let ghost v = self@;
        let is_transient = cmd.is_transient();
        let key = coalesce_key(&cmd);
        match self.apply(cmd, eval) {
            Err(e) => Err(e),
            Ok(inverse) => {
                let ghost mid = self@;
                let ghost inv = inverse;
                assert(apply_step(*eval, v, cmd, mid, Ok(inv)));
                if !is_transient {
                    self.record(key, inverse);
                }
                assert(self@ =~= recorded(mid, cmd, inv));
                Ok(())
            },
        }
    }

    fn store_buffer(&mut self, node: NodeId, data: Option<List<u32>>, fresh: AssetId) -> (r: Option<
        AssetId,
    >)
        ensures
            buffer_stored(old(self)@.work, node, data, fresh, final(self)@.work, r),
            final(self)@.undo == old(self)@.undo,
            final(self)@.redo == old(self)@.redo,
    {
        let ghost v = self@.work;
        let painted = match find_by_id(&self.work.nodes, node) {
            Some(n) => {
                proof {
                    lemma_model(*n);
                }
                n.data.kind.selected_material().is_some()
            },
            None => false,
        };
        match data {
            Some(words) => if painted {
                let id = intern_buffer_asset(
                    &mut self.work.store.assets,
                    &mut self.work.buffers,
                    words,
                    fresh,
                );
                assert(self@.work =~= WorkView {
                    store: StoreView { assets: self@.work.store.assets, ..v.store },
                    buffers: v.buffers.insert(id.0, words@),
                    ..v
                });
                Some(id)
            } else {
                None
            },
            None => None,
        }
    }

    /// Binds the words of a buffer to a slot of the material that a node renders
    /// with, or takes the binding away. The words are stored as an asset; one with
    /// the same content is used again.
    pub fn set_material_buffer<F: Fn(&ModifierStack, &VertexOverrides, &Table<MeshData>) -> MeshData>(
        &mut self,
        node: NodeId,
        named: String,
        data: Option<List<u32>>,
        fresh: AssetId,
        eval: &F,
    ) -> (r: Result<(), EditorError>)
        requires
            total(*eval),
        ensures
            exists|mid: ControllerView, buffer: Option<AssetId>|
                {
                    &&& buffer_stored(old(self)@.work, node, data, fresh, mid.work, buffer)
                    &&& mid.undo == old(self)@.undo
                    &&& mid.redo == old(self)@.redo
                    &&& #[trigger] dispatch_step(
                        *eval,
                        mid,
                        buffer_command(node, named, buffer),
                        final(self)@,
                        r,
                    )
                },
    {
        let buffer = self.store_buffer(node, data, fresh);
        let ghost mid = self@;
        let edit = NodeEdit::SetMaterialBuffer { named, buffer };
        let r = self.dispatch(EditorCommand::Node(NodeCommand { node, edit }), eval);
        assert(dispatch_step(*eval, mid, buffer_command(node, named, buffer), self@, r));
        r
    }

    /// Dispatches commands as one step: all of them, or none where one is refused.
    #[verifier::rlimit(60)]
    #[verifier::spinoff_prover]
    pub fn dispatch_batch<F: Fn(&ModifierStack, &VertexOverrides, &Table<MeshData>) -> MeshData>(
        &mut self,
        cmds: Vec<EditorCommand>,
        eval: &F,
    ) -> (r: Result<(), EditorError>)
        requires
            total(*eval),
        ensures
            dispatch_batch_step(*eval, old(self)@, cmds@, final(self)@, r),
    {
        let ghost all = cmds@;
        let ghost v = self@;
        let before = self.work.copied();
        let n: usize = cmds.len();
        let mut rest = reversed(cmds);
        let mut back: Vec<EditorCommand> = Vec::new();
        let mut any_recorded = false;
        let mut fresh = false;
        let mut step: usize = 0;
        let ghost mut states: Seq<WorkView> = seq![v.work];
        let ghost mut invs: Seq<Option<EditorCommand>> = seq![];
        assert(unwound(lasting_rows(all, invs)) =~= seq![]);
        assert(rest@ =~= all.reverse().take(rest@.len() as int));
        while rest.len() > 0
            invariant
                total(*eval),
                v == old(self)@,
                before@ == v.work,
                self@ == (ControllerView { work: self@.work, ..v }),
                all == cmds@,
                all.len() == n,
                rest@.len() + step == n,
                rest@ == all.reverse().take(rest@.len() as int),
                invs.len() == step,
                apply_run(*eval, states, all, invs),
                states[0] == v.work,
                states.last() == self@.work,
                back@ == unwound(lasting_rows(all, invs)),
                any_recorded == any_lasting(all.take(step as int)),
                fresh == any_over(all.take(step as int)),
            decreases rest@.len(),
        {
            if let Some(c) = rest.pop() {
                assert(c == all[step as int]);
                assert(rest@ =~= all.reverse().take(rest@.len() as int));
                let is_transient = c.is_transient();
                let over = is_over(&c);
                let label = c.label();
                match apply_work(&mut self.work, c, eval) {
                    Ok(inv) => {
                        let ghost own = inv;
                        let ghost old_invs = invs;
                        proof {
                            lemma_apply_run_goes_on(*eval, states, all, invs, self@.work, own);
                            states = states.push(self@.work);
                            invs = invs.push(own);
                            assert(lasting_rows(all, invs).drop_last() =~= lasting_rows(
                                all,
                                old_invs,
                            ));
                            lemma_any_lasting(all, step as int);
                            lemma_any_over(all, step as int);
                        }
                        fresh = fresh || over;
                        if !is_transient {
                            any_recorded = true;
                            let mut next = flatten(inv);
                            next.append(&mut back);
                            back = next;
                        }
                        assert(back@ =~= unwound(lasting_rows(all, invs)));
                    },
                    Err(cause) => {
                        let e = EditorError::InBatch {
                            step,
                            label: label.to_owned(),
                            cause: Box::new(cause),
                        };
                        let ghost mid = self@.work;
                        assert(applied(*eval, states.last(), c, mid, Err(cause)));
                        assert(batch_error(e, step as nat, c, cause));
                        go_back(&mut self.work, before);
                        return Err(e);
                    },
                }
                step += 1;
            }
        }
        assert(all.take(step as int) =~= all);
        if fresh {
            self.reset_history();
        }
        let ghost mid = self@;
        assert(mid =~= past_kept(v, any_over(all), states.last()));
        let ghost row = back;
        self.record_row(back);
        if any_recorded {
            self.work.dirty = true;
        }
        assert(self@.work =~= WorkView { dirty: mid.work.dirty || any_lasting(all), ..mid.work });
        Ok(())
    }

    /// Takes the newest step back.
    pub fn undo<F: Fn(&ModifierStack, &VertexOverrides, &Table<MeshData>) -> MeshData>(
        &mut self,
        eval: &F,
    )
        requires
            total(*eval),
        ensures
            undo_step(*eval, old(self)@, final(self)@),
    {
        let ghost v = self@;
        match self.undo.pop() {
            Some(step) => {
                let ghost from = self@;
                assert(from.undo.steps =~= v.undo.steps.drop_last());
                assert(from.undo.keys =~= v.undo.keys.drop_last());
                assert(from =~= ControllerView { undo: popped(v.undo), ..v });
                let key = step.key;
                assert(v.undo.keys.last() == key);
                assert(v.undo.steps.last() == step.back);
                let cmd = step.back;
                let r = self.apply(cmd, eval);
                let ghost mid = self@;
                assert(apply_step(*eval, from, cmd, mid, r));
                if let Ok(Some(inv)) = r {
                    self.push_redo(inv, key);
                }
            },
            None => {
                assert(self@ =~= v);
            },
        }
    }

    /// Does the newest undone step again.
    pub fn redo<F: Fn(&ModifierStack, &VertexOverrides, &Table<MeshData>) -> MeshData>(
        &mut self,
        eval: &F,
    )
        requires
            total(*eval),
        ensures
            redo_step(*eval, old(self)@, final(self)@),
    {
        let ghost v = self@;
        match self.redo.pop() {
            Some(step) => {
                let ghost from = self@;
                assert(from.redo.steps =~= v.redo.steps.drop_last());
                assert(from.redo.keys =~= v.redo.keys.drop_last());
                assert(from =~= ControllerView { redo: popped(v.redo), ..v });
                let key = step.key;
                assert(v.redo.keys.last() == key);
                assert(v.redo.steps.last() == step.back);
                let cmd = step.back;
                let r = self.apply(cmd, eval);
                let ghost mid = self@;
                assert(apply_step(*eval, from, cmd, mid, r));
                if let Ok(Some(inv)) = r {
                    self.push_undo(inv, key);
                }
            },
            None => {
                assert(self@ =~= v);
            },
        }
    }
}

proof fn lemma_leaf_run_goes_on<
    F: Fn(&ModifierStack, &VertexOverrides, &Table<MeshData>) -> MeshData,
>(
    eval: F,
    states: Seq<WorkView>,
    cmds: Seq<EditorCommand>,
    rows: Seq<Seq<EditorCommand>>,
    next: WorkView,
    row: Seq<EditorCommand>,
)
    requires
        leaf_run(eval, states, cmds, rows),
        rows.len() < cmds.len(),
        leaf_step(eval, states.last(), cmds[rows.len() as int], next, Ok(row)),
    ensures
        leaf_run(eval, states.push(next), cmds, rows.push(row)),
{
    let more = states.push(next);
    let all = rows.push(row);
    assert forall|i: int| 0 <= i < all.len() implies leaf_step(
        eval,
        more[i],
        cmds[i],
        more[i + 1],
        Ok(#[trigger] all[i]),
    ) by {
        if i < rows.len() {
            assert(rows[i] == all[i]);
            assert(states[i] == more[i]);
            assert(states[i + 1] == more[i + 1]);
        }
    }
}

proof fn lemma_apply_run_goes_on<
    F: Fn(&ModifierStack, &VertexOverrides, &Table<MeshData>) -> MeshData,
>(
    eval: F,
    states: Seq<WorkView>,
    cmds: Seq<EditorCommand>,
    invs: Seq<Option<EditorCommand>>,
    next: WorkView,
    inv: Option<EditorCommand>,
)
    requires
        apply_run(eval, states, cmds, invs),
        invs.len() < cmds.len(),
        applied(eval, states.last(), cmds[invs.len() as int], next, Ok(inv)),
    ensures
        apply_run(eval, states.push(next), cmds, invs.push(inv)),
{
    let more = states.push(next);
    let all = invs.push(inv);
    assert forall|i: int| 0 <= i < all.len() implies applied(
        eval,
        more[i],
        cmds[i],
        more[i + 1],
        Ok(#[trigger] all[i]),
    ) by {
        if i < invs.len() {
            assert(invs[i] == all[i]);
            assert(states[i] == more[i]);
            assert(states[i + 1] == more[i + 1]);
        }
    }
}

proof fn lemma_any_lasting(cmds: Seq<EditorCommand>, n: int)
    requires
        0 <= n < cmds.len(),
    ensures
        any_lasting(cmds.take(n + 1)) == (any_lasting(cmds.take(n)) || !transient(cmds[n])),
{
    let some = cmds.take(n);
    let more = cmds.take(n + 1);
    if any_lasting(some) {
        let i = choose|i: int| 0 <= i < some.len() && !transient(#[trigger] some[i]);
        assert(more[i] == some[i]);
    }
    if any_lasting(more) {
        let i = choose|i: int| 0 <= i < more.len() && !transient(#[trigger] more[i]);
        if i < n {
            assert(some[i] == more[i]);
        }
    }
    assert(more[n] == cmds[n]);
}

proof fn lemma_any_over(cmds: Seq<EditorCommand>, n: int)
    requires
        0 <= n < cmds.len(),
    ensures
        any_over(cmds.take(n + 1)) == (any_over(cmds.take(n)) || starts_over(cmds[n])),
{
    let some = cmds.take(n);
    let more = cmds.take(n + 1);
    if any_over(some) {
        let i = choose|i: int| 0 <= i < some.len() && starts_over(#[trigger] some[i]);
        assert(more[i] == some[i]);
    }
    if any_over(more) {
        let i = choose|i: int| 0 <= i < more.len() && starts_over(#[trigger] more[i]);
        if i < n {
            assert(some[i] == more[i]);
        }
    }
    assert(more[n] == cmds[n]);
}

} // verus!

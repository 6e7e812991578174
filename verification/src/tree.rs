//! The scene tree: an ordered forest of nodes, found by id in pre-order.
use crate::find::{first, lemma_first, lemma_first_is};
use crate::ids::NodeId;
use crate::list::Same;
use crate::node::NodeKind;
use crate::values::Trs;
use vstd::prelude::*;

verus! {

/// Everything of a node but its id and its children.
pub struct NodeData {
    pub name: String,
    pub transform: Trs,
    pub kind: NodeKind,
    pub visible: bool,
    pub locked: bool,
    pub prefab: bool,
}

impl Same for NodeData {
    fn same(&self) -> (res: Self) {
        NodeData {
            name: self.name.clone(),
            transform: self.transform,
            kind: self.kind.same(),
            visible: self.visible,
            locked: self.locked,
            prefab: self.prefab,
        }
    }
}

/// A node of the scene with everything below it.
pub struct Node {
    pub id: NodeId,
    pub data: NodeData,
    pub children: Vec<Node>,
}

/// A node as a value: what `Node` stands for.
#[verifier::ext_equal]
pub struct Tree {
    pub id: NodeId,
    pub data: NodeData,
    pub children: Seq<Tree>,
}

impl Node {
    /// The tree that a node stands for.
    pub open spec fn model(self) -> Tree
        decreases self,
    {
        Tree {
            id: self.id,
            data: self.data,
            children: Seq::new(
                self.children@.len(),
                |i: int|
                    if 0 <= i < self.children@.len() {
                        self.children@[i].model()
                    } else {
                        arbitrary()
                    },
            ),
        }
    }
}

/// The trees that a row of nodes stands for.
pub open spec fn forest(nodes: Seq<Node>) -> Seq<Tree> {
    Seq::new(nodes.len(), |i: int| nodes[i].model())
}

/// The children of a node's tree are the trees of its children.
pub proof fn lemma_model(n: Node)
    ensures
        n.model().children == forest(n.children@),
{
    assert(n.model().children =~= forest(n.children@));
}

/// The same nodes, with everything below them.
pub fn copied_nodes(nodes: &Vec<Node>) -> (r: Vec<Node>)
    ensures
        forest(r@) == forest(nodes@),
    decreases nodes,
{
    let mut out: Vec<Node> = Vec::new();
    let mut i: usize = 0;
    while i < nodes.len()
        invariant
            i <= nodes@.len(),
            out@.len() == i,
            forall|j: int| 0 <= j < i ==> (#[trigger] out@[j]).model() == nodes@[j].model(),
        decreases nodes@.len() - i,
    {
        let n = &nodes[i];
        assert(decreases_to!(nodes => nodes@[i as int].children));
        let children = copied_nodes(&n.children);
        let copy = Node { id: n.id, data: n.data.same(), children };
        proof {
            lemma_model(*n);
            lemma_model(copy);
            assert(copy.model() =~= n.model());
        }
        out.push(copy);
        i += 1;
    }
    assert(forest(out@) =~= forest(nodes@));
    out
}

/// Whether a node with the given id stands anywhere in the forest.
pub open spec fn within(f: Seq<Tree>, id: NodeId) -> bool
    decreases f,
{
    exists|i: int| 0 <= i < f.len() && ((#[trigger] f[i]).id == id || within(f[i].children, id))
}

/// Whether a tree is, or holds, the node `id`.
pub open spec fn holds_id(id: NodeId) -> spec_fn(Tree) -> bool {
    |t: Tree| t.id == id || within(t.children, id)
}

/// The position of the first tree that is or holds the node `id`.
pub open spec fn at(f: Seq<Tree>, id: NodeId) -> int {
    first(f, holds_id(id))
}

/// The first node with the id, in pre-order.
pub open spec fn find(f: Seq<Tree>, id: NodeId) -> Option<Tree>
    decreases f,
{
    let i = at(f, id);
    if 0 <= i < f.len() {
        if f[i].id == id {
            Some(f[i])
        } else {
            find(f[i].children, id)
        }
    } else {
        None
    }
}

/// The forest with other data on the node `id`.
pub open spec fn put(f: Seq<Tree>, id: NodeId, data: NodeData) -> Seq<Tree>
    decreases f,
{
    let i = at(f, id);
    if 0 <= i < f.len() {
        if f[i].id == id {
            f.update(i, Tree { data, ..f[i] })
        } else {
            f.update(i, Tree { children: put(f[i].children, id, data), ..f[i] })
        }
    } else {
        f
    }
}

/// The forest without the node `id` and what is below it.
pub open spec fn removed(f: Seq<Tree>, id: NodeId) -> Seq<Tree>
    decreases f,
{
    let i = at(f, id);
    if 0 <= i < f.len() {
        if f[i].id == id {
            f.remove(i)
        } else {
            f.update(i, Tree { children: removed(f[i].children, id), ..f[i] })
        }
    } else {
        f
    }
}

/// Where the node `id` stands: its parent, and its position among the parent's
/// children. `above` is the parent of the forest itself.
pub open spec fn place(f: Seq<Tree>, id: NodeId, above: Option<NodeId>) -> Option<
    (Option<NodeId>, int),
>
    decreases f,
{
    let i = at(f, id);
    if 0 <= i < f.len() {
        if f[i].id == id {
            Some((above, i))
        } else {
            place(f[i].children, id, Some(f[i].id))
        }
    } else {
        None
    }
}

/// The position that an index means in a row of `len`: the end where it is
/// missing or past it.
pub open spec fn clamped(index: Option<usize>, len: int) -> int {
    match index {
        Some(i) => if i <= len {
            i as int
        } else {
            len
        },
        None => len,
    }
}

/// The forest with `t` added below the node `parent`.
pub open spec fn inserted(f: Seq<Tree>, parent: NodeId, index: Option<usize>, t: Tree) -> Seq<Tree>
    decreases f,
{
    let i = at(f, parent);
    if 0 <= i < f.len() {
        if f[i].id == parent {
            let row = f[i].children;
            f.update(
                i,
                Tree { children: row.insert(clamped(index, row.len() as int), t), ..f[i] },
            )
        } else {
            f.update(i, Tree { children: inserted(f[i].children, parent, index, t), ..f[i] })
        }
    } else {
        f
    }
}

/// The forest with `t` added at the top or below a node.
pub open spec fn added(
    f: Seq<Tree>,
    parent: Option<NodeId>,
    index: Option<usize>,
    t: Tree,
) -> Seq<Tree> {
    match parent {
        None => f.insert(clamped(index, f.len() as int), t),
        Some(p) => inserted(f, p, index, t),
    }
}

/// The ids of the forest in pre-order.
pub open spec fn ids(f: Seq<Tree>) -> Seq<NodeId>
    decreases f,
{
    if f.len() == 0 {
        seq![]
    } else {
        seq![f[0].id] + ids(f[0].children) + ids(f.drop_first())
    }
}

/// What is known of the position of an id.
pub proof fn lemma_at(f: Seq<Tree>, id: NodeId)
    ensures
        0 <= at(f, id) <= f.len(),
        within(f, id) == (at(f, id) < f.len()),
        at(f, id) < f.len() ==> (f[at(f, id)].id == id || within(f[at(f, id)].children, id)),
        forall|j: int|
            0 <= j < at(f, id) ==> (#[trigger] f[j]).id != id && !within(f[j].children, id),
{
    lemma_first(f, holds_id(id));
    let p = holds_id(id);
    if within(f, id) {
        let i = choose|i: int|
            0 <= i < f.len() && ((#[trigger] f[i]).id == id || within(f[i].children, id));
        assert(p(f[i]));
        if at(f, id) >= f.len() {
            assert(!p(f[i]));
        }
    }
    if at(f, id) < f.len() {
        assert(p(f[at(f, id)]));
    }
    assert forall|j: int| 0 <= j < at(f, id) implies (#[trigger] f[j]).id != id && !within(
        f[j].children,
        id,
    ) by {
        assert(!p(f[j]));
    }
}

/// A position that is or holds an id, with none before it, is the id's.
pub proof fn lemma_at_is(f: Seq<Tree>, id: NodeId, i: int)
    requires
        0 <= i <= f.len(),
        i < f.len() ==> (f[i].id == id || within(f[i].children, id)),
        forall|j: int| 0 <= j < i ==> (#[trigger] f[j]).id != id && !within(f[j].children, id),
    ensures
        at(f, id) == i,
{
    let p = holds_id(id);
    assert forall|j: int| 0 <= j < i implies !p(#[trigger] f[j]) by {}
    lemma_first_is(f, p, i);
}

/// A node is found exactly where the forest has it.
pub proof fn lemma_find(f: Seq<Tree>, id: NodeId)
    ensures
        find(f, id) is Some == within(f, id),
        find(f, id) is Some ==> find(f, id)->0.id == id,
        place(f, id, None) is Some == within(f, id),
    decreases f,
{
    lemma_find_above(f, id, None);
}

proof fn lemma_find_above(f: Seq<Tree>, id: NodeId, above: Option<NodeId>)
    ensures
        find(f, id) is Some == within(f, id),
        find(f, id) is Some ==> find(f, id)->0.id == id,
        place(f, id, above) is Some == within(f, id),
    decreases f,
{
    lemma_at(f, id);
    let i = at(f, id);
    if i < f.len() && f[i].id != id {
        lemma_find_above(f[i].children, id, Some(f[i].id));
    }
}

/// Whether a node stands in a row of nodes or below it.
pub fn has_node(nodes: &Vec<Node>, id: NodeId) -> (r: bool)
    ensures
        r == within(forest(nodes@), id),
    decreases nodes@,
{
    node_position(nodes, id).is_some()
}

/// The position of the first node that is, or holds, the node `id`.
fn node_position(nodes: &Vec<Node>, id: NodeId) -> (r: Option<usize>)
    ensures
        match r {
            Some(i) => i < nodes@.len() && at(forest(nodes@), id) == i && within(forest(nodes@), id),
            None => at(forest(nodes@), id) == nodes@.len() && !within(forest(nodes@), id),
        },
    decreases nodes@,
{
    let ghost f = forest(nodes@);
    let mut i: usize = 0;
    while i < nodes.len()
        invariant
            f == forest(nodes@),
            i <= nodes@.len(),
            forall|j: int| 0 <= j < i ==> (#[trigger] f[j]).id != id && !within(f[j].children, id),
        decreases nodes@.len() - i,
    {
        proof {
            lemma_model(nodes@[i as int]);
        }
        if nodes[i].id == id {
            proof {
                lemma_at_is(f, id, i as int);
                lemma_at(f, id);
            }
            return Some(i);
        }
        let below = node_position(&nodes[i].children, id);
        if below.is_some() {
            proof {
                lemma_at_is(f, id, i as int);
                lemma_at(f, id);
            }
            return Some(i);
        }
        i += 1;
    }
    proof {
        lemma_at_is(f, id, i as int);
        lemma_at(f, id);
    }
    None
}

/// The first node with the id, in pre-order.
pub fn find_by_id(nodes: &Vec<Node>, id: NodeId) -> (r: Option<&Node>)
    ensures
        match r {
            Some(n) => find(forest(nodes@), id) == Some(n.model()),
            None => find(forest(nodes@), id) is None,
        },
    decreases nodes@,
{
    match node_position(nodes, id) {
        Some(i) => {
            if nodes[i].id == id {
                Some(&nodes[i])
            } else {
                proof {
                    lemma_model(nodes@[i as int]);
                }
                find_by_id(&nodes[i].children, id)
            }
        },
        None => None,
    }
}

/// Gives the node `id` other data.
pub fn put_data(nodes: &mut Vec<Node>, id: NodeId, data: NodeData)
    ensures
        forest(final(nodes)@) == put(forest(old(nodes)@), id, data),
    decreases old(nodes)@,
{
    let ghost f = forest(nodes@);
    match node_position(nodes, id) {
        Some(i) => {
            if nodes[i].id == id {
                nodes[i].data = data;
                assert(forest(nodes@) =~= put(f, id, data)) by {
                    lemma_model(nodes@[i as int]);
                    lemma_model(old(nodes)@[i as int]);
                }
            } else {
                proof {
                    lemma_model(nodes@[i as int]);
                }
                put_data(&mut nodes[i].children, id, data);
                assert(forest(nodes@) =~= put(f, id, data)) by {
                    lemma_model(nodes@[i as int]);
                }
            }
        },
        None => {},
    }
}

/// Takes the node `id` out, with everything below it.
pub fn remove_by_id(nodes: &mut Vec<Node>, id: NodeId) -> (r: Option<Node>)
    ensures
        forest(final(nodes)@) == removed(forest(old(nodes)@), id),
        match r {
            Some(n) => find(forest(old(nodes)@), id) == Some(n.model()),
            None => find(forest(old(nodes)@), id) is None,
        },
    decreases old(nodes)@,
{
    let ghost f = forest(nodes@);
    match node_position(nodes, id) {
        Some(i) => {
            if nodes[i].id == id {
                let n = nodes.remove(i);
                assert(forest(nodes@) =~= removed(f, id));
                Some(n)
            } else {
                proof {
                    lemma_model(nodes@[i as int]);
                }
                let n = remove_by_id(&mut nodes[i].children, id);
                assert(forest(nodes@) =~= removed(f, id)) by {
                    lemma_model(nodes@[i as int]);
                }
                n
            }
        },
        None => None,
    }
}

/// Where the node `id` stands: its parent, and its position among the parent's
/// children.
pub fn find_place(nodes: &Vec<Node>, id: NodeId) -> (r: Option<(Option<NodeId>, usize)>)
    ensures
        match r {
            Some((parent, i)) => place(forest(nodes@), id, None) == Some((parent, i as int)),
            None => place(forest(nodes@), id, None) is None,
        },
{
    find_place_below(nodes, id, None)
}

fn find_place_below(nodes: &Vec<Node>, id: NodeId, above: Option<NodeId>) -> (r: Option<
    (Option<NodeId>, usize),
>)
    ensures
        match r {
            Some((parent, i)) => place(forest(nodes@), id, above) == Some((parent, i as int)),
            None => place(forest(nodes@), id, above) is None,
        },
    decreases nodes@,
{
    match node_position(nodes, id) {
        Some(i) => {
            if nodes[i].id == id {
                Some((above, i))
            } else {
                proof {
                    lemma_model(nodes@[i as int]);
                }
                find_place_below(&nodes[i].children, id, Some(nodes[i].id))
            }
        },
        None => None,
    }
}

fn clamp_index(index: Option<usize>, len: usize) -> (r: usize)
    ensures
        r == clamped(index, len as int),
        r <= len,
{
    match index {
        Some(i) => if i <= len {
            i
        } else {
            len
        },
        None => len,
    }
}

/// Adds a node below the node `parent`. The node comes back where there is no
/// such parent.
fn insert_below(nodes: &mut Vec<Node>, parent: NodeId, index: Option<usize>, node: Node) -> (r:
    Option<Node>)
    ensures
        forest(final(nodes)@) == inserted(forest(old(nodes)@), parent, index, node.model()),
        r is None == within(forest(old(nodes)@), parent),
    decreases old(nodes)@,
{
    let ghost f = forest(nodes@);
    let ghost t = node.model();
    match node_position(nodes, parent) {
        Some(i) => {
            proof {
                lemma_model(nodes@[i as int]);
                lemma_at(f, parent);
            }
            if nodes[i].id == parent {
                let k = clamp_index(index, nodes[i].children.len());
                nodes[i].children.insert(k, node);
                assert(forest(nodes@) =~= inserted(f, parent, index, t)) by {
                    lemma_model(nodes@[i as int]);
                    lemma_model(old(nodes)@[i as int]);
                    assert(nodes@[i as int].model().children =~= f[i as int].children.insert(
                        k as int,
                        t,
                    ));
                }
                None
            } else {
                let back = insert_below(&mut nodes[i].children, parent, index, node);
                assert(forest(nodes@) =~= inserted(f, parent, index, t)) by {
                    lemma_model(nodes@[i as int]);
                }
                back
            }
        },
        None => Some(node),
    }
}

/// Adds a node at the top or below a node, at `index` or at the end. Returns
/// false, and adds nothing, where the parent is not there.
pub fn insert_tree(
    nodes: &mut Vec<Node>,
    parent: Option<NodeId>,
    index: Option<usize>,
    node: Node,
) -> (r: bool)
    ensures
        r == (parent matches Some(p) ==> within(forest(old(nodes)@), p)),
        forest(final(nodes)@) == if r {
            added(forest(old(nodes)@), parent, index, node.model())
        } else {
            forest(old(nodes)@)
        },
{
    let ghost f = forest(nodes@);
    match parent {
        None => {
            let k = clamp_index(index, nodes.len());
            nodes.insert(k, node);
            assert(forest(nodes@) =~= f.insert(k as int, node.model()));
            true
        },
        Some(p) => {
            let back = insert_below(nodes, p, index, node);
            proof {
                lemma_at(f, p);
            }
            back.is_none()
        },
    }
}

/// Every id of a row of nodes and below it, in pre-order.
pub fn collect_ids(nodes: &Vec<Node>) -> (r: Vec<NodeId>)
    ensures
        r@ == ids(forest(nodes@)),
{
    let mut out: Vec<NodeId> = Vec::new();
    push_ids(nodes, &mut out);
    assert(out@ =~= ids(forest(nodes@)));
    out
}

fn push_ids(nodes: &Vec<Node>, out: &mut Vec<NodeId>)
    ensures
        final(out)@ == old(out)@ + ids(forest(nodes@)),
    decreases nodes@,
{
    let ghost f = forest(nodes@);
    let ghost start = out@;
    let mut i: usize = 0;
    assert(f.skip(0) == f);
    while i < nodes.len()
        invariant
            f == forest(nodes@),
            i <= nodes@.len(),
            start + ids(f) == out@ + ids(f.skip(i as int)),
        decreases nodes@.len() - i,
    {
        let ghost before = out@;
        out.push(nodes[i].id);
        push_ids(&nodes[i].children, out);
        proof {
            lemma_model(nodes@[i as int]);
            let rest = f.skip(i as int);
            assert(rest[0] == f[i as int]);
            assert(rest.drop_first() =~= f.skip(i + 1));
            assert(out@ + ids(f.skip(i + 1)) =~= before + ids(rest));
        }
        i += 1;
    }
    assert(ids(f.skip(i as int)) =~= seq![]);
    assert(out@ =~= start + ids(f));
}

} // verus!

//! The two bones that a reach bends: which joints they hang from.
use crate::animation_sync::RenderNode;
use crate::ids::NodeId;
use crate::query_errors::QueryError;
use crate::table::Table;
use vstd::prelude::*;

verus! {

/// How far up a rig the root of a chain is looked for.
pub const MAX_CLIMB: u32 = 128;

/// The joints of a chain of two bones.
#[derive(Clone, Copy, PartialEq, Eq, Structural, Debug)]
pub struct IkChain {
    pub root_node: NodeId,
    pub mid_node: NodeId,
    pub root_key: u64,
    pub mid_key: u64,
    pub end_key: u64,
}

/// What the renderer has for a rig.
pub struct RigState {
    pub nodes: Table<RenderNode>,
    /// The transform above each transform.
    pub parents: Table<u64>,
    /// The node of each transform.
    pub owners: Table<NodeId>,
}

/// The value of a key, where it has one.
pub open spec fn lookup<V>(m: Map<u128, V>, k: u64) -> Option<V> {
    if m.contains_key(k as u128) {
        Some(m[k as u128])
    } else {
        None
    }
}

/// The joint just below `root` on the way up from `from`, in at most `n` steps.
pub open spec fn climbed(parents: Map<u128, u64>, from: u64, root: u64, n: nat) -> Option<u64>
    decreases n,
{
    if n == 0 {
        None
    } else {
        match lookup(parents, from) {
            Some(p) => if p == root {
                Some(from)
            } else {
                climbed(parents, p, root, (n - 1) as nat)
            },
            None => None,
        }
    }
}

/// The middle and the root of a chain: the two joints above its end, or, where the
/// root is named, the joint below the root on the way to the end.
pub open spec fn joints_above(parents: Map<u128, u64>, end: u64, root: Option<u64>) -> Option<(u64, u64)> {
    match root {
        Some(r) => match climbed(parents, end, r, MAX_CLIMB as nat) {
            Some(m) => Some((m, r)),
            None => None,
        },
        None => match lookup(parents, end) {
            Some(m) => match lookup(parents, m) {
                Some(r) => Some((m, r)),
                None => None,
            },
            None => None,
        },
    }
}

/// The chain of two bones that ends at a node, or why there is none.
pub open spec fn chain_of(
    nodes: Map<u128, RenderNode>,
    parents: Map<u128, u64>,
    owners: Map<u128, NodeId>,
    end: NodeId,
    root: Option<NodeId>,
) -> Result<IkChain, QueryError> {
    if !nodes.contains_key(end.0) {
        Err(QueryError::EndNotMade(end))
    } else if root matches Some(r) && !nodes.contains_key(r.0) {
        Err(QueryError::RootNotMade(root->0))
    } else {
        let end_key = nodes[end.0].transform_key;
        let root_key = match root {
            Some(r) => Some(nodes[r.0].transform_key),
            None => None,
        };
        match joints_above(parents, end_key, root_key) {
            Some(pair) => match (lookup(owners, pair.0), lookup(owners, pair.1)) {
                (Some(mid_node), Some(root_node)) => Ok(
                    IkChain { root_node, mid_node, root_key: pair.1, mid_key: pair.0, end_key },
                ),
                _ => Err(QueryError::NoChain),
            },
            None => Err(QueryError::NoChain),
        }
    }
}

fn climb(parents: &Table<u64>, from: u64, root: u64) -> (r: Option<u64>)
    ensures
        r == climbed(parents@, from, root, MAX_CLIMB as nat),
{
    let mut cur: u64 = from;
    let mut n: u32 = MAX_CLIMB;
    while n > 0
        invariant
            n <= MAX_CLIMB,
            climbed(parents@, from, root, MAX_CLIMB as nat) == climbed(
                parents@,
                cur,
                root,
                n as nat,
            ),
        decreases n,
    {
        match parents.get(cur as u128) {
            Some(p) => {
                if *p == root {
                    return Some(cur);
                }
                cur = *p;
            },
            None => {
                return None;
            },
        }
        n -= 1;
    }
    None
}

/// The chain of two bones that ends at a node. Without a root it is made of the two
/// joints above the node; a named root picks another chain.
pub fn ik_chain(rig: &RigState, end: NodeId, root: Option<NodeId>) -> (r: Result<IkChain, QueryError>)
    ensures
        r == chain_of(rig.nodes@, rig.parents@, rig.owners@, end, root),
{
    let end_key: u64 = match rig.nodes.get(end.0) {
        Some(n) => n.transform_key,
        None => {
            return Err(QueryError::EndNotMade(end));
        },
    };
    let (mid_key, root_key): (u64, u64) = match root {
        Some(id) => {
            let key: u64 = match rig.nodes.get(id.0) {
                Some(n) => n.transform_key,
                None => {
                    return Err(QueryError::RootNotMade(id));
                },
            };
            match climb(&rig.parents, end_key, key) {
                Some(m) => (m, key),
                None => {
                    return Err(QueryError::NoChain);
                },
            }
        },
        None => match rig.parents.get(end_key as u128) {
            Some(m) => match rig.parents.get(*m as u128) {
                Some(t) => (*m, *t),
                None => {
                    return Err(QueryError::NoChain);
                },
            },
            None => {
                return Err(QueryError::NoChain);
            },
        },
    };
    match rig.owners.get(mid_key as u128) {
        Some(mid_node) => match rig.owners.get(root_key as u128) {
            Some(root_node) => Ok(
                IkChain { root_node: *root_node, mid_node: *mid_node, root_key, mid_key, end_key },
            ),
            None => Err(QueryError::NoChain),
        },
        None => Err(QueryError::NoChain),
    }
}

/// The middle of a chain hangs from its root.
pub proof fn law_middle_hangs_from_root(
    nodes: Map<u128, RenderNode>,
    parents: Map<u128, u64>,
    owners: Map<u128, NodeId>,
    end: NodeId,
    root: Option<NodeId>,
)
    requires
        chain_of(nodes, parents, owners, end, root) is Ok,
    ensures
        ({
            let c = chain_of(nodes, parents, owners, end, root)->Ok_0;
            lookup(parents, c.mid_key) == Some(c.root_key)
        }),
{
    let end_key = nodes[end.0].transform_key;
    match root {
        Some(r) => {
            lemma_climbed(parents, end_key, nodes[r.0].transform_key, MAX_CLIMB as nat);
        },
        None => {},
    }
}

proof fn lemma_climbed(parents: Map<u128, u64>, from: u64, root: u64, n: nat)
    ensures
        climbed(parents, from, root, n) matches Some(m) ==> lookup(parents, m) == Some(root),
    decreases n,
{
    if n > 0 {
        match lookup(parents, from) {
            Some(p) => {
                if p != root {
                    lemma_climbed(parents, p, root, (n - 1) as nat);
                }
            },
            None => {},
        }
    }
}

} // verus!

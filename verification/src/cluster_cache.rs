//! The parsed cluster meshes of a session, by the asset they come from. They are
//! shared with whoever shows them.
use crate::ids::AssetId;
use crate::table::Table;
use std::sync::Arc;
use vstd::prelude::*;

verus! {

/// The cluster mesh of each asset.
pub struct ClusterCache<M> {
    meshes: Table<Arc<M>>,
}

impl<M> View for ClusterCache<M> {
    type V = Map<u128, M>;

    closed spec fn view(&self) -> Map<u128, M> {
        self.meshes@.map_values(|m: Arc<M>| *m)
    }
}

impl<M> ClusterCache<M> {
    /// An empty cache.
    pub fn new() -> (c: ClusterCache<M>)
        ensures
            c@ == Map::<u128, M>::empty(),
    {
        let c = ClusterCache { meshes: Table::new() };
        assert(c@ =~= Map::<u128, M>::empty());
        c
    }
}

/// Keeps the mesh of an asset, in place of the one that was kept for it.
pub fn insert<M>(cache: &mut ClusterCache<M>, source: AssetId, mesh: M)
    ensures
        final(cache)@ == old(cache)@.insert(source.0, mesh),
{
    cache.meshes.insert(source.0, Arc::new(mesh));
    assert(cache@ =~= old(cache)@.insert(source.0, mesh));
}

/// The mesh of an asset.
pub fn get<M>(cache: &ClusterCache<M>, source: AssetId) -> (r: Option<Arc<M>>)
    ensures
        match r {
            Some(mesh) => cache@.contains_key(source.0) && *mesh == cache@[source.0],
            None => !cache@.contains_key(source.0),
        },
{
    match cache.meshes.get(source.0) {
        Some(mesh) => Some(mesh.clone()),
        None => None,
    }
}

/// Drops the mesh of an asset.
pub fn remove<M>(cache: &mut ClusterCache<M>, source: AssetId)
    ensures
        final(cache)@ == old(cache)@.remove(source.0),
{
    let _ = cache.meshes.remove(source.0);
    assert(cache@ =~= old(cache)@.remove(source.0));
}

/// Drops everything.
pub fn clear<M>(cache: &mut ClusterCache<M>)
    ensures
        final(cache)@ == Map::<u128, M>::empty(),
{
    cache.meshes.clear();
    assert(cache@ =~= Map::<u128, M>::empty());
}

/// Dropping the mesh of one asset leaves those of the others.
pub proof fn law_others_stay<M>(cache: Map<u128, M>, gone: AssetId, other: AssetId)
    requires
        gone != other,
        cache.contains_key(other.0),
    ensures
        !cache.remove(gone.0).contains_key(gone.0),
        cache.remove(gone.0).contains_key(other.0),
        cache.remove(gone.0)[other.0] == cache[other.0],
{
}

} // verus!

//! The words of the buffer assets, for as long as a session lasts: the renderer
//! keeps them only in packed form.
use crate::ids::AssetId;
use crate::list::List;
use crate::table::Table;
use vstd::prelude::*;

verus! {

/// The words of each buffer asset.
pub struct BufferCache {
    words: Table<List<u32>>,
}

impl View for BufferCache {
    type V = Map<u128, Seq<u32>>;

    closed spec fn view(&self) -> Map<u128, Seq<u32>> {
        self.words@.map_values(|l: List<u32>| l@)
    }
}

impl BufferCache {
    /// An empty cache.
    pub fn new() -> (c: BufferCache)
        ensures
            c@ == Map::<u128, Seq<u32>>::empty(),
    {
        let c = BufferCache { words: Table::new() };
        assert(c@ =~= Map::<u128, Seq<u32>>::empty());
        c
    }

    /// The same words of the same assets.
    pub fn copied(&self) -> (c: BufferCache)
        ensures
            c@ == self@,
    {
        BufferCache { words: self.words.copied() }
    }
}

/// Keeps the words of an asset, in place of those that were kept for it.
pub fn store(cache: &mut BufferCache, id: AssetId, words: List<u32>)
    ensures
        final(cache)@ == old(cache)@.insert(id.0, words@),
{
    cache.words.insert(id.0, words);
    assert(cache@ =~= old(cache)@.insert(id.0, words@));
}

/// The words of an asset.
pub fn get(cache: &BufferCache, id: AssetId) -> (r: Option<List<u32>>)
    ensures
        match r {
            Some(words) => cache@.contains_key(id.0) && words@ == cache@[id.0],
            None => !cache@.contains_key(id.0),
        },
{
    match cache.words.get(id.0) {
        Some(words) => Some(words.clone()),
        None => None,
    }
}

/// Whether the words of an asset are kept.
pub fn contains(cache: &BufferCache, id: AssetId) -> (r: bool)
    ensures
        r == cache@.contains_key(id.0),
{
    cache.words.contains(id.0)
}

/// Drops everything.
pub fn clear(cache: &mut BufferCache)
    ensures
        final(cache)@ == Map::<u128, Seq<u32>>::empty(),
{
    cache.words.clear();
    assert(cache@ =~= Map::<u128, Seq<u32>>::empty());
}

} // verus!

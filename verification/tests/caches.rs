//! The caches of a session.
use scene_editor::cluster_cache::{get, insert, remove, ClusterCache};
use scene_editor::ids::AssetId;

#[test]
fn remove_drops_only_the_targeted_source() {
    let mut cache: ClusterCache<u32> = ClusterCache::new();
    let a = AssetId(1);
    let b = AssetId(2);
    insert(&mut cache, a, 0);
    insert(&mut cache, b, 0);
    assert!(get(&cache, a).is_some() && get(&cache, b).is_some());
    remove(&mut cache, a);
    assert!(get(&cache, a).is_none(), "removed source must be gone");
    assert!(get(&cache, b).is_some(), "other source must remain");
    remove(&mut cache, b);
    assert!(get(&cache, b).is_none());
}

use app_core::cache::budget::{
    CacheBudget, ContentCache, DesktopContentCache, DesktopPersistentCache, IosContentCacheStub,
    IosPersistentCacheStub, PersistentCache,
};
use app_core::cache::lru::LruTier;
use app_core::cache::tile::{TileEntry, TileKey};
use app_core::cache::tiered::{DiskAction, Lookup, PressureLevel, TileCache};
use app_core::error::CoreError;

fn key(region: u64) -> TileKey {
    TileKey { region, version: 1 }
}

fn tile(len: usize, fill: u8) -> TileEntry {
    TileEntry::new(vec![fill; len])
}

fn cache(memory: usize, disk: usize) -> TileCache {
    TileCache::new(CacheBudget::new(memory, disk).unwrap())
}

#[test]
fn budget_refuses_zero_limits() {
    assert_eq!(CacheBudget::new(0, 10).err(), Some(CoreError::InvalidBudget));
    assert_eq!(CacheBudget::new(10, 0).err(), Some(CoreError::InvalidBudget));
    assert_eq!(CacheBudget::new(0, 0).err(), Some(CoreError::InvalidBudget));
    let budget = CacheBudget::new(1, 1).unwrap();
    assert_eq!(budget.memory_limit_bytes(), 1);
    assert_eq!(budget.disk_limit_bytes(), 1);
}

#[test]
fn presets_name_their_limits() {
    assert_eq!(IosContentCacheStub::new().memory_limit_bytes(), 256 * 1024 * 1024);
    assert_eq!(IosPersistentCacheStub::new().disk_limit_bytes(), 256 * 1024 * 1024);
    assert_eq!(IosContentCacheStub::default().memory_limit_bytes(), 268_435_456);
    assert_eq!(IosPersistentCacheStub::default().disk_limit_bytes(), 268_435_456);
    assert_eq!(DesktopContentCache.memory_limit_bytes(), 2_147_483_648);
    assert_eq!(DesktopPersistentCache.disk_limit_bytes(), 2_147_483_648);
    assert!(IosContentCacheStub::new().memory_limit_bytes() < DesktopContentCache.memory_limit_bytes());
    assert!(IosPersistentCacheStub::new().disk_limit_bytes() < DesktopPersistentCache.disk_limit_bytes());
}

#[test]
fn budget_from_presets() {
    let ios = CacheBudget::from_presets(&IosContentCacheStub::new(), &IosPersistentCacheStub::new())
        .unwrap();
    assert_eq!(ios.memory_limit_bytes(), 268_435_456);
    assert_eq!(ios.disk_limit_bytes(), 268_435_456);
    let mixed =
        CacheBudget::from_presets(&DesktopContentCache, &IosPersistentCacheStub::new()).unwrap();
    assert_eq!(mixed.memory_limit_bytes(), 2_147_483_648);
    assert_eq!(mixed.disk_limit_bytes(), 268_435_456);
    assert_eq!(CacheBudget::constrained().memory_limit_bytes(), 268_435_456);
    assert_eq!(CacheBudget::desktop().disk_limit_bytes(), 2_147_483_648);
}

#[test]
fn cache_reports_its_limits() {
    let c = cache(100, 300);
    assert_eq!(c.memory_limit_bytes(), 100);
    assert_eq!(c.disk_limit_bytes(), 300);
    assert_eq!(c.resident_bytes(), 0);
    assert_eq!(c.persisted_bytes(), 0);
}

#[test]
fn tile_entry_size_and_copy() {
    let t = TileEntry::new(vec![1, 2, 3]);
    assert_eq!(t.size(), 3);
    assert!(!t.disk_backed);
    let copy = t.duplicate();
    assert_eq!(copy, t);
    assert_eq!(t.clone().data, vec![1, 2, 3]);
    let backed = TileEntry { data: vec![9], disk_backed: true };
    assert!(backed.duplicate().disk_backed);
}

#[test]
fn put_then_get_hits() {
    let mut c = cache(10, 10);
    assert_eq!(c.put(key(1), tile(4, 7)), Ok(vec![]));
    assert_eq!(c.resident_bytes(), 4);
    assert_eq!(c.get(key(1)), Lookup::Hit(tile(4, 7)));
    assert_eq!(c.get(key(2)), Lookup::Miss);
}

#[test]
fn resident_bytes_never_exceed_the_limit() {
    let mut c = cache(10, 8);
    let sizes = [3usize, 4, 2, 5, 1, 10, 6, 3, 3, 3, 7];
    for (i, len) in sizes.iter().enumerate() {
        let _ = c.put(key(i as u64 % 5), tile(*len, i as u8));
        assert!(c.resident_bytes() <= 10);
        assert!(c.persisted_bytes() <= 8);
        let _ = c.get(key((i as u64 + 2) % 5));
        assert!(c.resident_bytes() <= 10);
        assert!(c.persisted_bytes() <= 8);
    }
}

#[test]
fn oversized_entry_is_refused_and_nothing_changes() {
    let mut c = cache(10, 10);
    c.put(key(1), tile(4, 1)).unwrap();
    c.put(key(2), tile(5, 2)).unwrap();
    assert_eq!(c.put(key(3), tile(11, 3)), Err(CoreError::CapacityExceeded));
    assert_eq!(c.resident_keys(), vec![key(1), key(2)]);
    assert_eq!(c.resident_bytes(), 9);
    assert_eq!(c.persisted_keys(), vec![]);
    assert_eq!(c.get(key(3)), Lookup::Miss);
    // replacing an existing key with an oversized entry changes nothing either
    assert_eq!(c.put(key(1), tile(11, 3)), Err(CoreError::CapacityExceeded));
    assert_eq!(c.resident_keys(), vec![key(1), key(2)]);
    assert_eq!(c.get(key(1)), Lookup::Hit(tile(4, 1)));
}

#[test]
fn entry_of_exactly_the_limit_fits() {
    let mut c = cache(10, 100);
    c.put(key(1), tile(3, 1)).unwrap();
    let actions = c.put(key(2), tile(10, 2)).unwrap();
    assert_eq!(actions, vec![DiskAction::Write { key: key(1), data: vec![1; 3] }]);
    assert_eq!(c.resident_keys(), vec![key(2)]);
    assert_eq!(c.resident_bytes(), 10);
}

#[test]
fn invalidate_then_get_is_absent() {
    let mut c = cache(10, 10);
    c.put(key(1), tile(6, 1)).unwrap();
    c.put(key(2), tile(6, 2)).unwrap(); // key 1 goes to disk
    assert_eq!(c.persisted_keys(), vec![key(1)]);
    assert_eq!(c.invalidate(key(1)), vec![DiskAction::Delete { key: key(1) }]);
    assert_eq!(c.get(key(1)), Lookup::Miss);
    assert_eq!(c.invalidate(key(2)), vec![]);
    assert_eq!(c.get(key(2)), Lookup::Miss);
    // idempotent, and no error for a key that was never there
    assert_eq!(c.invalidate(key(2)), vec![]);
    assert_eq!(c.invalidate(key(9)), vec![]);
    assert_eq!(c.resident_bytes(), 0);
    assert_eq!(c.persisted_bytes(), 0);
}

#[test]
fn invalidate_removes_from_both_tiers() {
    let mut c = cache(10, 100);
    c.put(key(1), tile(6, 1)).unwrap();
    c.put(key(2), tile(6, 2)).unwrap();
    assert_eq!(c.get(key(1)), Lookup::OnDisk);
    c.finish_disk_read(key(1), Some(vec![1; 6])).unwrap();
    assert_eq!(c.resident_keys(), vec![key(1)]);
    assert!(c.persisted_keys().contains(&key(1)));
    assert_eq!(c.invalidate(key(1)), vec![DiskAction::Delete { key: key(1) }]);
    assert_eq!(c.resident_keys(), vec![]);
    assert!(!c.persisted_keys().contains(&key(1)));
    assert_eq!(c.get(key(1)), Lookup::Miss);
}

#[test]
fn least_recently_used_is_evicted_first() {
    let mut c = cache(9, 100);
    c.put(key(1), tile(3, 1)).unwrap();
    c.put(key(2), tile(3, 2)).unwrap();
    c.put(key(3), tile(3, 3)).unwrap();
    assert_eq!(c.resident_bytes(), 9);
    let actions = c.put(key(4), tile(3, 4)).unwrap();
    assert_eq!(actions, vec![DiskAction::Write { key: key(1), data: vec![1; 3] }]);
    assert_eq!(c.resident_keys(), vec![key(2), key(3), key(4)]);
}

#[test]
fn get_refreshes_recency() {
    let mut c = cache(9, 100);
    c.put(key(1), tile(3, 1)).unwrap();
    c.put(key(2), tile(3, 2)).unwrap();
    c.put(key(3), tile(3, 3)).unwrap();
    assert_eq!(c.get(key(1)), Lookup::Hit(tile(3, 1)));
    assert_eq!(c.resident_keys(), vec![key(2), key(3), key(1)]);
    let actions = c.put(key(4), tile(3, 4)).unwrap();
    assert_eq!(actions, vec![DiskAction::Write { key: key(2), data: vec![2; 3] }]);
    assert_eq!(c.resident_keys(), vec![key(3), key(1), key(4)]);
}

#[test]
fn eviction_takes_as_many_as_needed_and_no_more() {
    let mut c = cache(10, 100);
    c.put(key(1), tile(2, 1)).unwrap();
    c.put(key(2), tile(3, 2)).unwrap();
    c.put(key(3), tile(4, 3)).unwrap();
    let actions = c.put(key(4), tile(5, 4)).unwrap();
    assert_eq!(
        actions,
        vec![
            DiskAction::Write { key: key(1), data: vec![1; 2] },
            DiskAction::Write { key: key(2), data: vec![2; 3] },
        ]
    );
    assert_eq!(c.resident_keys(), vec![key(3), key(4)]);
    assert_eq!(c.resident_bytes(), 9);
    assert_eq!(c.persisted_keys(), vec![key(1), key(2)]);
    assert_eq!(c.persisted_bytes(), 5);
}

#[test]
fn put_replaces_an_entry_under_the_same_key() {
    let mut c = cache(10, 100);
    c.put(key(1), tile(4, 1)).unwrap();
    c.put(key(2), tile(4, 2)).unwrap();
    // the replaced entry is dropped, not written back, and frees its bytes
    assert_eq!(c.put(key(1), tile(6, 9)), Ok(vec![]));
    assert_eq!(c.resident_keys(), vec![key(2), key(1)]);
    assert_eq!(c.resident_bytes(), 10);
    assert_eq!(c.get(key(1)), Lookup::Hit(tile(6, 9)));
}

#[test]
fn disk_tier_evicts_its_own_least_recently_used() {
    let mut c = cache(4, 8);
    c.put(key(1), tile(4, 1)).unwrap();
    assert_eq!(
        c.put(key(2), tile(4, 2)).unwrap(),
        vec![DiskAction::Write { key: key(1), data: vec![1; 4] }]
    );
    assert_eq!(
        c.put(key(3), tile(4, 3)).unwrap(),
        vec![DiskAction::Write { key: key(2), data: vec![2; 4] }]
    );
    assert_eq!(c.persisted_keys(), vec![key(1), key(2)]);
    assert_eq!(
        c.put(key(4), tile(4, 4)).unwrap(),
        vec![
            DiskAction::Delete { key: key(1) },
            DiskAction::Write { key: key(3), data: vec![3; 4] },
        ]
    );
    assert_eq!(c.persisted_keys(), vec![key(2), key(3)]);
    assert_eq!(c.persisted_bytes(), 8);
}

#[test]
fn disk_tier_drops_what_exceeds_its_limit() {
    let mut c = cache(10, 4);
    c.put(key(1), tile(6, 1)).unwrap();
    // key 1 is evicted from memory but is larger than the whole disk limit
    assert_eq!(c.put(key(2), tile(6, 2)), Ok(vec![]));
    assert_eq!(c.persisted_keys(), vec![]);
    assert_eq!(c.get(key(1)), Lookup::Miss);
}

#[test]
fn disk_hit_is_promoted_by_the_host() {
    let mut c = cache(6, 100);
    c.put(key(1), tile(4, 1)).unwrap();
    c.put(key(2), tile(4, 2)).unwrap();
    assert_eq!(c.get(key(1)), Lookup::OnDisk);
    assert_eq!(c.resident_keys(), vec![key(2)]);
    let actions = c.finish_disk_read(key(1), Some(vec![1; 4])).unwrap();
    assert_eq!(actions, vec![DiskAction::Write { key: key(2), data: vec![2; 4] }]);
    assert_eq!(c.get(key(1)), Lookup::Hit(TileEntry { data: vec![1; 4], disk_backed: true }));
    assert_eq!(c.persisted_keys(), vec![key(1), key(2)]);
}

#[test]
fn disk_backed_entry_is_not_written_again() {
    let mut c = cache(6, 100);
    c.put(key(1), tile(4, 1)).unwrap();
    c.put(key(2), tile(4, 2)).unwrap();
    c.finish_disk_read(key(1), Some(vec![1; 4])).unwrap();
    // evicting key 1 again: its copy is on disk already, only its recency moves
    assert_eq!(c.put(key(3), tile(4, 3)), Ok(vec![]));
    assert_eq!(c.persisted_keys(), vec![key(2), key(1)]);
    assert_eq!(c.persisted_bytes(), 8);
}

#[test]
fn failed_disk_read_is_a_soft_miss() {
    let mut c = cache(6, 100);
    c.put(key(1), tile(4, 1)).unwrap();
    c.put(key(2), tile(4, 2)).unwrap();
    assert_eq!(c.get(key(1)), Lookup::OnDisk);
    assert_eq!(c.finish_disk_read(key(1), None), Err(CoreError::IoFailure));
    assert_eq!(c.get(key(1)), Lookup::Miss);
    assert_eq!(c.persisted_keys(), vec![]);
    assert_eq!(c.resident_keys(), vec![key(2)]);
}

#[test]
fn promotion_larger_than_memory_is_refused() {
    let mut c = cache(6, 100);
    c.put(key(1), tile(4, 1)).unwrap();
    assert_eq!(c.finish_disk_read(key(7), Some(vec![0; 7])), Err(CoreError::CapacityExceeded));
    assert_eq!(c.resident_keys(), vec![key(1)]);
}

#[test]
fn failed_write_back_forgets_the_copy() {
    let mut c = cache(6, 100);
    c.put(key(1), tile(4, 1)).unwrap();
    c.put(key(2), tile(4, 2)).unwrap();
    assert_eq!(c.persisted_keys(), vec![key(1)]);
    c.disk_failure(key(1));
    assert_eq!(c.persisted_keys(), vec![]);
    assert_eq!(c.persisted_bytes(), 0);
    assert_eq!(c.get(key(1)), Lookup::Miss);
    assert_eq!(c.get(key(2)), Lookup::Hit(tile(4, 2)));
    c.disk_failure(key(5));
    assert_eq!(c.resident_keys(), vec![key(2)]);
}

#[test]
fn memory_pressure_halves_the_resident_bytes() {
    let mut c = cache(10, 100);
    c.put(key(1), tile(3, 1)).unwrap();
    c.put(key(2), tile(3, 2)).unwrap();
    c.put(key(3), tile(3, 3)).unwrap();
    let actions = c.on_memory_pressure(PressureLevel::Warning);
    assert_eq!(
        actions,
        vec![
            DiskAction::Write { key: key(1), data: vec![1; 3] },
            DiskAction::Write { key: key(2), data: vec![2; 3] },
        ]
    );
    assert_eq!(c.resident_keys(), vec![key(3)]);
    assert!(c.resident_bytes() <= 5);
    assert_eq!(c.persisted_keys(), vec![key(1), key(2)]);
}

#[test]
fn critical_pressure_skips_the_write_back() {
    let mut c = cache(10, 100);
    c.put(key(1), tile(3, 1)).unwrap();
    c.put(key(2), tile(3, 2)).unwrap();
    c.put(key(3), tile(3, 3)).unwrap();
    assert_eq!(c.on_memory_pressure(PressureLevel::Critical), vec![]);
    assert_eq!(c.resident_keys(), vec![key(3)]);
    assert_eq!(c.resident_bytes(), 3);
    assert_eq!(c.persisted_keys(), vec![]);
    assert_eq!(c.get(key(1)), Lookup::Miss);
}

#[test]
fn memory_pressure_below_the_target_changes_nothing() {
    let mut c = cache(10, 100);
    c.put(key(1), tile(2, 1)).unwrap();
    c.put(key(2), tile(3, 2)).unwrap();
    assert_eq!(c.on_memory_pressure(PressureLevel::Warning), vec![]);
    assert_eq!(c.resident_keys(), vec![key(1), key(2)]);
    assert_eq!(c.on_memory_pressure(PressureLevel::Critical), vec![]);
    assert_eq!(c.resident_bytes(), 5);
}

#[test]
fn memory_pressure_on_an_odd_limit_rounds_down() {
    let mut c = cache(7, 100);
    c.put(key(1), tile(3, 1)).unwrap();
    c.put(key(2), tile(4, 2)).unwrap();
    // target is 3: four bytes are one too many
    let _ = c.on_memory_pressure(PressureLevel::Critical);
    assert_eq!(c.resident_bytes(), 0);
}

#[test]
fn reconfigure_cuts_both_tiers_down() {
    let mut c = cache(10, 10);
    c.put(key(1), tile(5, 1)).unwrap();
    c.put(key(2), tile(5, 2)).unwrap();
    c.put(key(3), tile(5, 3)).unwrap(); // disk: 1
    c.put(key(4), tile(5, 4)).unwrap(); // disk: 1, 2
    assert_eq!(c.persisted_keys(), vec![key(1), key(2)]);
    let actions = c.reconfigure(CacheBudget::new(5, 5).unwrap());
    assert_eq!(
        actions,
        vec![
            DiskAction::Delete { key: key(1) },
            DiskAction::Delete { key: key(2) },
            DiskAction::Write { key: key(3), data: vec![3; 5] },
        ]
    );
    assert_eq!(c.memory_limit_bytes(), 5);
    assert_eq!(c.disk_limit_bytes(), 5);
    assert_eq!(c.resident_keys(), vec![key(4)]);
    assert_eq!(c.persisted_keys(), vec![key(3)]);
}

#[test]
fn reconfigure_to_a_larger_budget_keeps_everything() {
    let mut c = cache(10, 10);
    c.put(key(1), tile(5, 1)).unwrap();
    c.put(key(2), tile(5, 2)).unwrap();
    assert_eq!(c.reconfigure(CacheBudget::new(20, 20).unwrap()), vec![]);
    assert_eq!(c.resident_keys(), vec![key(1), key(2)]);
    assert_eq!(c.put(key(3), tile(5, 3)), Ok(vec![]));
    assert_eq!(c.resident_bytes(), 15);
}

#[test]
fn keys_differ_by_version() {
    let mut c = cache(10, 10);
    let old = TileKey { region: 1, version: 1 };
    let new = TileKey { region: 1, version: 2 };
    c.put(old, tile(2, 1)).unwrap();
    c.put(new, tile(2, 2)).unwrap();
    assert_eq!(c.resident_keys(), vec![old, new]);
    assert_eq!(c.get(old), Lookup::Hit(tile(2, 1)));
    assert_eq!(c.get(new), Lookup::Hit(tile(2, 2)));
}

#[test]
fn empty_tile_takes_no_room() {
    let mut c = cache(1, 1);
    c.put(key(1), tile(1, 1)).unwrap();
    assert_eq!(c.put(key(2), tile(0, 0)), Ok(vec![]));
    assert_eq!(c.resident_keys(), vec![key(1), key(2)]);
    assert_eq!(c.resident_bytes(), 1);
}

#[test]
fn tier_insert_touch_remove() {
    let mut t: LruTier<u8> = LruTier::new(10);
    assert_eq!(t.limit_bytes(), 10);
    assert!(t.insert(key(1), 4, 11).unwrap().is_empty());
    assert!(t.insert(key(2), 4, 22).unwrap().is_empty());
    assert_eq!(t.used_bytes(), 8);
    assert_eq!(t.len(), 2);
    assert_eq!(t.position(key(1)), Some(0));
    assert_eq!(t.position(key(3)), None);
    assert!(t.touch(key(1)));
    assert!(!t.touch(key(3)));
    assert_eq!(t.keys(), vec![key(2), key(1)]);
    assert_eq!(t.slot_at(1).value, 11);
    let out = t.insert(key(3), 5, 33).unwrap();
    assert_eq!(out.len(), 1);
    assert_eq!(out[0].key, key(2));
    assert_eq!(out[0].value, 22);
    assert_eq!(t.used_bytes(), 9);
    let gone = t.remove(key(1)).unwrap();
    assert_eq!((gone.key, gone.size, gone.value), (key(1), 4, 11));
    assert!(t.remove(key(1)).is_none());
    assert_eq!(t.used_bytes(), 5);
    assert_eq!(t.insert(key(4), 11, 44).err(), Some(CoreError::CapacityExceeded));
    assert_eq!(t.keys(), vec![key(3)]);
}

#[test]
fn tier_shrink_and_resize() {
    let mut t: LruTier<()> = LruTier::new(10);
    for i in 1..=5 {
        t.insert(key(i), 2, ()).unwrap();
    }
    let out = t.shrink_to(5);
    assert_eq!(out.iter().map(|s| s.key).collect::<Vec<_>>(), vec![key(1), key(2), key(3)]);
    assert_eq!(t.used_bytes(), 4);
    assert_eq!(t.limit_bytes(), 10);
    assert!(t.shrink_to(4).is_empty());
    let out = t.resize(2);
    assert_eq!(out.len(), 1);
    assert_eq!(out[0].key, key(4));
    assert_eq!(t.limit_bytes(), 2);
    assert_eq!(t.keys(), vec![key(5)]);
    let out = t.shrink_to(0);
    assert_eq!(out.len(), 1);
    assert_eq!(t.used_bytes(), 0);
}

#[test]
fn error_messages() {
    assert_eq!(CoreError::CapacityExceeded.message(), "entry larger than tier limit");
    assert_eq!(CoreError::IoFailure.message(), "disk tier i/o failed");
    assert_eq!(CoreError::UnknownTouchIdentity.message(), "unknown touch identity");
    assert_eq!(CoreError::InvalidBudget.message(), "cache limits must be positive");
}

#[test]
fn replacing_a_tile_frees_its_bytes_before_others_are_evicted() {
    let mut c = cache(10, 100);
    c.put(key(1), tile(4, 1)).unwrap();
    c.put(key(2), tile(4, 2)).unwrap();
    c.put(key(3), tile(2, 3)).unwrap();
    // the old tile under key 1 is dropped, not written; key 2 has to leave, key 3 stays
    let actions = c.put(key(1), tile(8, 9)).unwrap();
    assert_eq!(actions, vec![DiskAction::Write { key: key(2), data: vec![2; 4] }]);
    assert_eq!(c.resident_keys(), vec![key(3), key(1)]);
    assert_eq!(c.resident_bytes(), 10);
    assert_eq!(c.persisted_keys(), vec![key(2)]);
}

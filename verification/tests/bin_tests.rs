use accounts_index::accounts_index::{AccountKey, AccountMapEntry, AccountVersion, KeyRange};
use accounts_index::accounts_index_storage::{AccountsIndexStorage, LifecycleState};
use accounts_index::in_mem_accounts_index::{Entry, InMemAccountsIndex};

fn live(id: u64) -> AccountVersion {
    AccountVersion { store_id: id, cached: false }
}

fn cached(id: u64) -> AccountVersion {
    AccountVersion { store_id: id, cached: true }
}

fn key(low: u64) -> AccountKey {
    AccountKey::from_low(low)
}

#[test]
fn merge_new_slot_appends() {
    let mut list = vec![(3u64, live(1))];
    let mut reclaims = vec![(1u64, live(9))];
    let addref = InMemAccountsIndex::<AccountVersion>::update_slot_list(
        &mut list,
        5,
        live(2),
        &mut reclaims,
        false,
    );
    assert_eq!(list, vec![(3u64, live(1)), (5u64, live(2))]);
    assert_eq!(reclaims, vec![(1u64, live(9))]);
    assert!(addref);
}

#[test]
fn merge_cached_into_empty_list() {
    let mut list: Vec<(u64, AccountVersion)> = Vec::new();
    let mut reclaims = Vec::new();
    let addref = InMemAccountsIndex::<AccountVersion>::update_slot_list(
        &mut list,
        9,
        cached(1),
        &mut reclaims,
        false,
    );
    assert_eq!(list, vec![(9u64, cached(1))]);
    assert!(reclaims.is_empty());
    assert!(!addref);
}

#[test]
fn merge_live_replacement_reclaims_without_addref() {
    let mut list = vec![(2u64, live(7)), (5u64, live(1))];
    let mut reclaims = Vec::new();
    let addref = InMemAccountsIndex::<AccountVersion>::update_slot_list(
        &mut list,
        5,
        live(2),
        &mut reclaims,
        false,
    );
    assert_eq!(list, vec![(2u64, live(7)), (5u64, live(2))]);
    assert_eq!(reclaims, vec![(5u64, live(1))]);
    assert!(!addref);
}

#[test]
fn merge_cache_to_live_requests_addref_without_reclaim() {
    let mut list = vec![(5u64, cached(1))];
    let mut reclaims = Vec::new();
    let addref = InMemAccountsIndex::<AccountVersion>::update_slot_list(
        &mut list,
        5,
        live(2),
        &mut reclaims,
        true,
    );
    assert_eq!(list, vec![(5u64, live(2))]);
    assert!(reclaims.is_empty());
    assert!(addref);
}

#[test]
fn merge_cached_over_live_reclaims_without_addref() {
    let mut list = vec![(5u64, live(1))];
    let mut reclaims = Vec::new();
    let addref = InMemAccountsIndex::<AccountVersion>::update_slot_list(
        &mut list,
        5,
        cached(2),
        &mut reclaims,
        false,
    );
    assert_eq!(list, vec![(5u64, cached(2))]);
    assert_eq!(reclaims, vec![(5u64, live(1))]);
    assert!(!addref);
}

#[test]
fn merge_sequence_keeps_slots_unique() {
    let mut list: Vec<(u64, AccountVersion)> = Vec::new();
    let mut reclaims = Vec::new();
    let slots = [4u64, 1, 4, 9, 1, 9, 2, 4];
    for (n, s) in slots.iter().enumerate() {
        InMemAccountsIndex::<AccountVersion>::update_slot_list(
            &mut list,
            *s,
            live(n as u64),
            &mut reclaims,
            false,
        );
        for a in 0..list.len() {
            for b in (a + 1)..list.len() {
                assert_ne!(list[a].0, list[b].0);
            }
        }
    }
    let mut present: Vec<u64> = list.iter().map(|p| p.0).collect();
    present.sort();
    assert_eq!(present, vec![1, 2, 4, 9]);
}

#[test]
fn worked_example_on_one_key() {
    let storage = AccountsIndexStorage::new();
    let mut bin: InMemAccountsIndex<AccountVersion> = InMemAccountsIndex::new(&storage);
    let k = key(11);
    let mut reclaims = Vec::new();

    bin.upsert(&k, AccountMapEntry::new_for_slot(5, cached(1), 0), &mut reclaims, false);
    let e = bin.get(&k).unwrap();
    assert_eq!(e.slot_list, vec![(5u64, cached(1))]);
    assert_eq!(e.ref_count, 0);
    assert!(reclaims.is_empty());

    bin.upsert(&k, AccountMapEntry::new_for_slot(5, live(2), 0), &mut reclaims, true);
    let e = bin.get(&k).unwrap();
    assert_eq!(e.slot_list, vec![(5u64, live(2))]);
    assert_eq!(e.ref_count, 1);
    assert!(reclaims.is_empty());

    bin.upsert(&k, AccountMapEntry::new_for_slot(7, live(3), 0), &mut reclaims, false);
    let e = bin.get(&k).unwrap();
    assert_eq!(e.slot_list, vec![(5u64, live(2)), (7u64, live(3))]);
    assert_eq!(e.ref_count, 2);
    assert!(reclaims.is_empty());
}

#[test]
fn upsert_absent_installs_entry_directly() {
    let storage = AccountsIndexStorage::new();
    let mut bin: InMemAccountsIndex<AccountVersion> = InMemAccountsIndex::new(&storage);
    let k = key(3);
    let mut reclaims = Vec::new();
    bin.upsert(&k, AccountMapEntry::new_for_slot(8, live(1), 42), &mut reclaims, false);
    assert_eq!(bin.len(), 1);
    let e = bin.get(&k).unwrap();
    assert_eq!(e.slot_list, vec![(8u64, live(1))]);
    assert_eq!(e.ref_count, 42);
    assert!(reclaims.is_empty());
}

#[test]
fn conditional_removal_cases() {
    let storage = AccountsIndexStorage::new();
    let mut bin: InMemAccountsIndex<AccountVersion> = InMemAccountsIndex::new(&storage);
    let k = key(1);
    let absent = key(2);
    let mut reclaims = Vec::new();

    // absent key: failure
    assert!(!bin.remove_if_slot_list_empty(absent));

    // present key with a nonempty list: failure, nothing changes
    bin.upsert(&k, AccountMapEntry::new_for_slot(5, live(1), 0), &mut reclaims, false);
    assert!(!bin.remove_if_slot_list_empty(k));
    assert_eq!(bin.len(), 1);
    let e = bin.get(&k).unwrap();
    assert_eq!(e.slot_list, vec![(5u64, live(1))]);

    // empty the list through the entry's write access, then removal succeeds
    let displaced = bin.replace_slot_list(k, Vec::new()).unwrap();
    assert_eq!(displaced, vec![(5u64, live(1))]);
    assert!(bin.remove_if_slot_list_empty(k));
    assert_eq!(bin.len(), 0);
    assert!(bin.get(&k).is_none());
}

#[test]
fn two_phase_insert() {
    let storage = AccountsIndexStorage::new();
    let mut bin: InMemAccountsIndex<AccountVersion> = InMemAccountsIndex::new(&storage);
    let k = key(9);

    // empty map: inserted, map now holds exactly k -> entry
    let first = bin.insert_new_entry_if_missing_with_lock(
        k,
        AccountMapEntry::new_for_slot(4, live(1), 1),
    );
    assert!(first.is_none());
    assert_eq!(bin.len(), 1);
    let e = bin.get(&k).unwrap();
    assert_eq!(e.slot_list, vec![(4u64, live(1))]);
    assert_eq!(e.ref_count, 1);

    // occupied: map untouched; existing handle, pending version and key back
    let second = bin.insert_new_entry_if_missing_with_lock(
        k,
        AccountMapEntry::new_for_slot(6, live(2), 1),
    );
    let (handle, pending, back) = second.unwrap();
    assert_eq!(handle.entry.slot_list, vec![(4u64, live(1))]);
    assert_eq!(handle.entry.ref_count, 1);
    assert_eq!(pending, live(2));
    assert_eq!(back, k);
    assert_eq!(bin.len(), 1);
    let e = bin.get(&k).unwrap();
    assert_eq!(e.slot_list, vec![(4u64, live(1))]);
}

#[test]
fn shutdown_protocol_is_deterministic() {
    let mut manager = AccountsIndexStorage::new();
    assert_eq!(manager.state(), LifecycleState::Running);
    assert!(!manager.exit_requested());
    manager.begin_shutdown();
    assert_eq!(manager.state(), LifecycleState::Stopping);
    assert!(manager.exit_requested());
    manager.finish_shutdown();
    assert_eq!(manager.state(), LifecycleState::Joined);
    assert!(manager.exit_requested());
}

#[test]
fn lookups_are_pure_except_stats() {
    let storage = AccountsIndexStorage::new();
    let mut bin: InMemAccountsIndex<AccountVersion> = InMemAccountsIndex::new(&storage);
    let k = key(1);
    let other = key(2);
    let mut reclaims = Vec::new();
    bin.upsert(&k, AccountMapEntry::new_for_slot(5, live(1), 0), &mut reclaims, false);

    let first = bin.get(&k).unwrap();
    let second = bin.get(&k).unwrap();
    assert_eq!(first.slot_list, second.slot_list);
    assert_eq!(first.ref_count, second.ref_count);
    assert!(bin.get(&other).is_none());
    assert!(bin.get(&other).is_none());
    assert_eq!(bin.len(), 1);

    match bin.entry(k) {
        Entry::Occupied(e) => assert_eq!(e.slot_list, vec![(5u64, live(1))]),
        Entry::Vacant(_) => panic!("expected an occupied entry"),
    }
    match bin.entry(other) {
        Entry::Vacant(back) => assert_eq!(back, other),
        Entry::Occupied(_) => panic!("expected a vacant entry"),
    }

    let stats = bin.stats();
    assert_eq!(stats.gets_from_mem, 3);
    assert_eq!(stats.gets_missing, 3);
}

#[test]
fn items_honors_the_range() {
    let storage = AccountsIndexStorage::new();
    let mut bin: InMemAccountsIndex<AccountVersion> = InMemAccountsIndex::new(&storage);
    let mut reclaims = Vec::new();
    for low in [1u64, 5, 9] {
        bin.upsert(
            &key(low),
            AccountMapEntry::new_for_slot(low, live(low), 0),
            &mut reclaims,
            false,
        );
    }

    let all = bin.items(&None);
    assert_eq!(all.len(), 3);
    let got: Vec<u64> = all.iter().map(|p| p.0.w3).collect();
    assert_eq!(got, vec![1, 5, 9]);
    assert_eq!(all[1].1.slot_list, vec![(5u64, live(5))]);

    let range = KeyRange { start: key(2), end: key(9) };
    let some = bin.items(&Some(range));
    let got: Vec<u64> = some.iter().map(|p| p.0.w3).collect();
    assert_eq!(got, vec![5, 9]);

    assert_eq!(bin.stats().items, 2);
}

#[test]
fn keys_enumeration_is_restartable() {
    let storage = AccountsIndexStorage::new();
    let mut bin: InMemAccountsIndex<AccountVersion> = InMemAccountsIndex::new(&storage);
    let mut reclaims = Vec::new();
    for low in [4u64, 2] {
        bin.upsert(
            &key(low),
            AccountMapEntry::new_for_slot(1, live(low), 0),
            &mut reclaims,
            false,
        );
    }
    let first = bin.keys();
    let second = bin.keys();
    assert_eq!(first, vec![key(4), key(2)]);
    assert_eq!(first, second);
    assert_eq!(bin.stats().keys, 2);
}

#[test]
fn len_and_is_empty() {
    let storage = AccountsIndexStorage::new();
    let mut bin: InMemAccountsIndex<AccountVersion> = InMemAccountsIndex::new(&storage);
    assert!(bin.is_empty());
    assert_eq!(bin.len(), 0);
    let mut reclaims = Vec::new();
    bin.upsert(&key(1), AccountMapEntry::new_for_slot(1, live(1), 0), &mut reclaims, false);
    assert!(!bin.is_empty());
    assert_eq!(bin.len(), 1);
    // size queries record no statistics
    assert_eq!(bin.stats().gets_from_mem, 0);
    assert_eq!(bin.stats().gets_missing, 0);
}

#[test]
fn reference_count_wraps_at_the_edges() {
    let mut e = AccountMapEntry::new_for_slot(1, live(1), u64::MAX);
    e.add_un_ref(true);
    assert_eq!(e.ref_count, 0);
    e.add_un_ref(false);
    assert_eq!(e.ref_count, u64::MAX);
}

#[test]
fn key_order_and_ranges() {
    let a = AccountKey { w0: 0, w1: 0, w2: 0, w3: 5 };
    let b = AccountKey { w0: 0, w1: 0, w2: 1, w3: 0 };
    assert!(a.le(&b));
    assert!(!b.le(&a));
    assert!(a.le(&a));
    let range = KeyRange { start: a, end: b };
    assert!(range.contains(&a));
    assert!(range.contains(&b));
    assert!(!range.contains(&AccountKey { w0: 0, w1: 0, w2: 0, w3: 4 }));
    assert!(!range.contains(&AccountKey { w0: 0, w1: 0, w2: 1, w3: 1 }));
}

#[test]
fn time_stat_accumulation_is_monotonic() {
    let mut timer: u64 = 5;
    let m = solana_measure::measure::Measure::start("trial");
    InMemAccountsIndex::<AccountVersion>::update_time_stat(&mut timer, m);
    assert!(timer >= 5);
}

#[test]
fn bins_share_the_manager_stats_snapshot() {
    let storage = AccountsIndexStorage::new();
    let bin: InMemAccountsIndex<AccountVersion> = InMemAccountsIndex::new(&storage);
    assert_eq!(bin.stats().gets_from_mem, 0);
    assert_eq!(bin.stats().items, 0);
    let holder = InMemAccountsIndex::<AccountVersion>::new_bucket_map_holder();
    assert_eq!(holder.stats.keys, 0);
}

//! One bin of the accounts index: the per-bin map from account key to index
//! entry, its lookup and mutation operations, and the slot-list merge
//! algorithm.
//!
//! Structural mutation of the map (insert or removal of a key) demands
//! exclusive access, and the merge of one key's slot list demands exclusive
//! access to that entry; both forms of exclusivity are expressed directly as
//! `&mut` access rather than as a locking convention the caller must follow.

use vstd::prelude::*;

use crate::accounts_index::{
    has_slot, index_of_slot, key_in_range, lemma_index_of_slot, slots_unique, AccountKey,
    AccountMapEntry, IsCached, KeyRange, Slot, SlotList, WriteAccountMapEntry,
};
use crate::accounts_index_storage::AccountsIndexStorage;
use crate::bucket_map_holder::BucketMapHolder;
use crate::bucket_map_holder_stats::{
    recorded_hit, recorded_items, recorded_keys, recorded_miss, sat_add, BucketMapHolderStats,
};

verus! {

// ---------------------------------------------------------------------------
// The merge model: what one merge of an incoming (slot, version) pair does to
// a slot list, stated over sequences.
// ---------------------------------------------------------------------------

/// The slot list after merging one incoming (slot, version) pair: the pair
/// replaces the entry at its slot when one exists, and is appended otherwise.
pub open spec fn merged_slot_list<T>(l: Seq<(Slot, T)>, slot: Slot, version: T) -> Seq<(Slot, T)> {
    if has_slot(l, slot) {
        l.update(index_of_slot(l, slot), (slot, version))
    } else {
        l.push((slot, version))
    }
}

/// Whether the merge asks the caller to increment the entry's reference
/// count: exactly when the incoming version is durably stored (not cached)
/// and was not already counted, that is, any version it displaces was only
/// cached.
pub open spec fn merge_addref<T: IsCached>(l: Seq<(Slot, T)>, slot: Slot, version: T) -> bool {
    if has_slot(l, slot) {
        !version.spec_is_cached() && l[index_of_slot(l, slot)].1.spec_is_cached()
    } else {
        !version.spec_is_cached()
    }
}

/// What the merge appends to the reclaim list: the displaced pair when one
/// exists and the caller did not assert it was cached; a cached version was
/// never durably stored and needs no reclamation.
pub open spec fn merge_reclaims<T>(
    l: Seq<(Slot, T)>,
    slot: Slot,
    previous_slot_entry_was_cached: bool,
) -> Seq<(Slot, T)> {
    if has_slot(l, slot) && !previous_slot_entry_was_cached {
        seq![l[index_of_slot(l, slot)]]
    } else {
        Seq::empty()
    }
}

/// The caller's assertion about the prior state at the incoming slot must
/// match the list: when `previous_slot_entry_was_cached` is asserted and an
/// entry exists at the slot, that entry must be cached.  A mismatch is an
/// upstream logic corruption, refused here rather than reported.
pub open spec fn cached_assertion_ok<T: IsCached>(
    l: Seq<(Slot, T)>,
    slot: Slot,
    previous_slot_entry_was_cached: bool,
) -> bool {
    previous_slot_entry_was_cached && has_slot(l, slot) ==> l[index_of_slot(
        l,
        slot,
    )].1.spec_is_cached()
}

/// The wrapped reference count after one increment.
pub open spec fn wrapping_inc(c: u64) -> u64 {
    if c == u64::MAX {
        0u64
    } else {
        (c + 1) as u64
    }
}

// ---------------------------------------------------------------------------
// Laws of the merge model.
// ---------------------------------------------------------------------------

/// One merge never introduces a duplicate slot.
pub proof fn lemma_merge_no_duplicate_slots<T>(l: Seq<(Slot, T)>, slot: Slot, version: T)
    requires
        slots_unique(l),
    ensures
        slots_unique(merged_slot_list(l, slot, version)),
{
    let m = merged_slot_list(l, slot, version);
    if has_slot(l, slot) {
        let i = index_of_slot(l, slot);
        assert(0 <= i < l.len() && l[i].0 == slot);
        assert forall|a: int, b: int| 0 <= a < b < m.len() implies (#[trigger] m[a]).0 != (
        #[trigger] m[b]).0 by {
            assert(m[a].0 == l[a].0);
            assert(m[b].0 == l[b].0);
        }
    } else {
        assert forall|a: int, b: int| 0 <= a < b < m.len() implies (#[trigger] m[a]).0 != (
        #[trigger] m[b]).0 by {
            if b == l.len() {
                assert(m[a] == l[a]);
            }
        }
    }
}

/// A sequence of merges applied to a slot list, oldest first.
pub open spec fn merge_sequence<T>(l: Seq<(Slot, T)>, ops: Seq<(Slot, T)>) -> Seq<(Slot, T)>
    decreases ops.len(),
{
    if ops.len() == 0 {
        l
    } else {
        merged_slot_list(merge_sequence(l, ops.drop_last()), ops.last().0, ops.last().1)
    }
}

/// For any sequence of merges on one key, the resulting slot list holds at
/// most one entry per slot; applied to every prefix of the sequence, this
/// covers the list after each individual merge.
pub proof fn lemma_merge_sequence_no_duplicate_slots<T>(l: Seq<(Slot, T)>, ops: Seq<(Slot, T)>)
    requires
        slots_unique(l),
    ensures
        slots_unique(merge_sequence(l, ops)),
    decreases ops.len(),
{
    if ops.len() > 0 {
        lemma_merge_sequence_no_duplicate_slots(l, ops.drop_last());
        lemma_merge_no_duplicate_slots(
            merge_sequence(l, ops.drop_last()),
            ops.last().0,
            ops.last().1,
        );
    }
}

/// Merging a pair whose slot is absent appends it, grows the list by exactly
/// one, and reclaims nothing, whatever the caller asserted about the prior
/// state.
pub proof fn lemma_merge_new_slot_appends<T: IsCached>(
    l: Seq<(Slot, T)>,
    slot: Slot,
    version: T,
    previous_slot_entry_was_cached: bool,
)
    requires
        !has_slot(l, slot),
    ensures
        merged_slot_list(l, slot, version) == l.push((slot, version)),
        merged_slot_list(l, slot, version).len() == l.len() + 1,
        merge_reclaims(l, slot, previous_slot_entry_was_cached) == Seq::<(Slot, T)>::empty(),
        merge_addref(l, slot, version) == !version.spec_is_cached(),
{
}

/// Merging a durably stored version over a durably stored version at the
/// same slot reclaims the displaced pair and requests no reference-count
/// increment: the slot was already counted.
pub proof fn lemma_merge_live_replacement<T: IsCached>(l: Seq<(Slot, T)>, slot: Slot, version: T)
    requires
        slots_unique(l),
        has_slot(l, slot),
        !version.spec_is_cached(),
        !l[index_of_slot(l, slot)].1.spec_is_cached(),
    ensures
        merge_reclaims(l, slot, false) == seq![l[index_of_slot(l, slot)]],
        !merge_addref(l, slot, version),
{
}

/// Merging a durably stored version over a cached version at the same slot,
/// with the caller asserting the prior version was cached, reclaims nothing
/// and requests a reference-count increment: the version becomes countable
/// for the first time.
pub proof fn lemma_merge_cache_to_live<T: IsCached>(l: Seq<(Slot, T)>, slot: Slot, version: T)
    requires
        slots_unique(l),
        has_slot(l, slot),
        !version.spec_is_cached(),
        l[index_of_slot(l, slot)].1.spec_is_cached(),
    ensures
        merge_reclaims(l, slot, true) == Seq::<(Slot, T)>::empty(),
        merge_addref(l, slot, version),
{
}

// ---------------------------------------------------------------------------
// The bin map model: an association sequence with distinct keys.
// ---------------------------------------------------------------------------

pub open spec fn map_keys_unique<T>(m: Seq<(AccountKey, AccountMapEntry<T>)>) -> bool {
    forall|i: int, j: int| 0 <= i < j < m.len() ==> (#[trigger] m[i]).0 != (#[trigger] m[j]).0
}

pub open spec fn map_has_key<T>(m: Seq<(AccountKey, AccountMapEntry<T>)>, k: AccountKey) -> bool {
    exists|i: int| 0 <= i < m.len() && (#[trigger] m[i]).0 == k
}

/// The position of the entry for key `k`; meaningful when `map_has_key`, and
/// unique when the keys are distinct.
pub open spec fn map_key_index<T>(m: Seq<(AccountKey, AccountMapEntry<T>)>, k: AccountKey) -> int {
    choose|i: int| 0 <= i < m.len() && (#[trigger] m[i]).0 == k
}

pub proof fn lemma_map_key_index<T>(m: Seq<(AccountKey, AccountMapEntry<T>)>, k: AccountKey, i: int)
    requires
        map_keys_unique(m),
        0 <= i < m.len(),
        m[i].0 == k,
    ensures
        map_has_key(m, k),
        map_key_index(m, k) == i,
{
    assert(map_has_key(m, k));
    let j = map_key_index(m, k);
    if i < j {
        assert(m[i].0 != m[j].0);
    } else if j < i {
        assert(m[j].0 != m[i].0);
    }
}

/// The pairs of the map whose key falls in the range, in map order; with no
/// range, every pair.
pub open spec fn filtered_items<T>(
    m: Seq<(AccountKey, AccountMapEntry<T>)>,
    range: Option<KeyRange>,
) -> Seq<(AccountKey, AccountMapEntry<T>)>
    decreases m.len(),
{
    if m.len() == 0 {
        Seq::empty()
    } else {
        let rest = filtered_items(m.drop_last(), range);
        if (match range {
            Some(r) => key_in_range(r, m.last().0),
            None => true,
        }) {
            rest.push(m.last())
        } else {
            rest
        }
    }
}

// ---------------------------------------------------------------------------
// The bin itself.
// ---------------------------------------------------------------------------

/// An occupied-or-vacant view of the map at one key, with the entry's
/// contents snapshot at call time.
pub enum Entry<T> {
    Occupied(AccountMapEntry<T>),
    Vacant(AccountKey),
}

/// One bin of the accounts index: a map from account key to index entry,
/// together with the shared backing-store holder whose statistics block the
/// lookups record into.
pub struct InMemAccountsIndex<T: IsCached + Copy> {
    map: Vec<(AccountKey, AccountMapEntry<T>)>,
    storage: BucketMapHolder,
}

impl<T: IsCached + Copy> InMemAccountsIndex<T> {
    /// The map's contents, as an association sequence in insertion order.
    pub closed spec fn spec_map(self) -> Seq<(AccountKey, AccountMapEntry<T>)> {
        self.map@
    }

    /// The statistics block of the backing store this bin records into.
    pub closed spec fn spec_stats(self) -> BucketMapHolderStats {
        self.storage.stats
    }

    /// Well-formedness: each key appears at most once, and each entry's slot
    /// list holds at most one pair per slot.
    pub open spec fn wf(self) -> bool {
        &&& map_keys_unique(self.spec_map())
        &&& forall|i: int|
            0 <= i < self.spec_map().len() ==> slots_unique(
                (#[trigger] self.spec_map()[i]).1.slot_list@,
            )
    }

    pub open spec fn spec_len(self) -> nat {
        self.spec_map().len()
    }

    pub open spec fn spec_contains(self, k: AccountKey) -> bool {
        map_has_key(self.spec_map(), k)
    }

    pub open spec fn key_index(self, k: AccountKey) -> int {
        map_key_index(self.spec_map(), k)
    }

    /// The entry at key `k`; meaningful when `spec_contains(k)`.
    pub open spec fn spec_entry(self, k: AccountKey) -> AccountMapEntry<T> {
        self.spec_map()[self.key_index(k)].1
    }

    /// The set of keys present in the bin.
    pub open spec fn key_set(self) -> Set<AccountKey> {
        Set::new(|k: AccountKey| self.spec_contains(k))
    }

    /// A fresh, empty bin recording into the given manager's store.
    pub fn new(storage: &AccountsIndexStorage) -> (r: Self)
        ensures
            r.wf(),
            r.spec_len() == 0,
            forall|k: AccountKey| !r.spec_contains(k),
            r.spec_stats() == storage.spec_storage().stats,
    {
        InMemAccountsIndex { map: Vec::new(), storage: *storage.storage() }
    }

    /// A fresh backing-store holder with zeroed statistics.
    pub fn new_bucket_map_holder() -> (h: BucketMapHolder)
        ensures
            h.stats.is_zeroed(),
    {
        BucketMapHolder::new()
    }

    /// The position of `key` in the map, if present.
    fn find(&self, key: &AccountKey) -> (r: Option<usize>)
        ensures
            match r {
                Some(i) => i < self.spec_map().len() && self.spec_map()[i as int].0 == *key,
                None => !self.spec_contains(*key),
            },
    {
        let mut i: usize = 0;
        while i < self.map.len()
            invariant
                i <= self.map@.len(),
                forall|j: int| 0 <= j < i ==> (#[trigger] self.map@[j]).0 != *key,
            decreases self.map@.len() - i,
        {
            if self.map[i].0 == *key {
                return Some(i);
            }
            i = i + 1;
        }
        None
    }

    pub fn len(&self) -> (n: usize)
        ensures
            n == self.spec_len(),
    {
        self.map.len()
    }

    pub fn is_empty(&self) -> (r: bool)
        ensures
            r == (self.spec_len() == 0),
    {
        self.len() == 0
    }

    /// Merges one incoming (slot, version) pair into a slot list: the core
    /// decision procedure.  The result says whether the caller should
    /// increment the entry's reference count; displaced pairs eligible for
    /// cleanup are appended to `reclaims`.
    pub fn update_slot_list(
        list: &mut SlotList<T>,
        slot: Slot,
        account_info: T,
        reclaims: &mut SlotList<T>,
        previous_slot_entry_was_cached: bool,
    ) -> (addref: bool)
        requires
            slots_unique(old(list)@),
            cached_assertion_ok(old(list)@, slot, previous_slot_entry_was_cached),
        ensures
            final(list)@ == merged_slot_list(old(list)@, slot, account_info),
            slots_unique(final(list)@),
            addref == merge_addref(old(list)@, slot, account_info),
            final(reclaims)@ == old(reclaims)@ + merge_reclaims(
                old(list)@,
                slot,
                previous_slot_entry_was_cached,
            ),
    {
        let mut addref = !account_info.is_cached();
        let ghost l0 = list@;
        let ghost r0 = reclaims@;

        // scan for an existing entry at the incoming slot
        let mut list_index: usize = 0;
        while list_index < list.len()
            invariant
                list_index <= l0.len(),
                l0 == old(list)@,
                r0 == old(reclaims)@,
                list@ == l0,
                reclaims@ == r0,
                addref == !account_info.spec_is_cached(),
                slots_unique(l0),
                cached_assertion_ok(l0, slot, previous_slot_entry_was_cached),
                forall|j: int| 0 <= j < list_index ==> (#[trigger] l0[j]).0 != slot,
            decreases l0.len() - list_index,
        {
            let (s, previous_update_value) = list[list_index];
            if s == slot {
                proof {
                    lemma_index_of_slot(l0, slot, list_index as int);
                }
                let previous_was_cached = previous_update_value.is_cached();
                addref = addref && previous_was_cached;

                // swap the incoming pair into place, keeping the displaced one
                let new_item = list.remove(list_index);
                list.insert(list_index, (slot, account_info));
                proof {
                    assert(list@ =~= l0.update(list_index as int, (slot, account_info)));
                }

                if previous_slot_entry_was_cached {
                    // a cached version was never durably stored: no reclaim;
                    // the caller's assertion is discharged statically
                    assert(previous_was_cached);
                } else {
                    reclaims.push(new_item);
                }
                proof {
                    assert(reclaims@ =~= r0 + merge_reclaims(
                        l0,
                        slot,
                        previous_slot_entry_was_cached,
                    ));
                    assert forall|a: int, b: int| 0 <= a < b < list@.len() implies (
                    #[trigger] list@[a]).0 != (#[trigger] list@[b]).0 by {
                        assert(list@[a].0 == l0[a].0);
                        assert(list@[b].0 == l0[b].0);
                    }
                }
                return addref;
            }
            list_index = list_index + 1;
        }

        // the slot is not in the list: append the incoming pair
        list.push((slot, account_info));
        proof {
            assert(list@ =~= l0.push((slot, account_info)));
            assert forall|a: int, b: int| 0 <= a < b < list@.len() implies (
            #[trigger] list@[a]).0 != (#[trigger] list@[b]).0 by {
                if b < l0.len() {
                    assert(list@[a] == l0[a]);
                    assert(list@[b] == l0[b]);
                } else {
                    assert(list@[a] == l0[a]);
                    assert(list@[b].0 == slot);
                }
            }
            assert(reclaims@ =~= r0 + merge_reclaims(l0, slot, previous_slot_entry_was_cached));
        }
        addref
    }

    /// Merges the single pending pair of `new_value` into an existing entry,
    /// under exclusive access to that entry, and performs the requested
    /// reference-count increment.
    pub fn lock_and_update_slot_list(
        current: &mut AccountMapEntry<T>,
        new_value: &AccountMapEntry<T>,
        reclaims: &mut SlotList<T>,
        previous_slot_entry_was_cached: bool,
    )
        requires
            new_value.slot_list@.len() == 1,
            slots_unique(old(current).slot_list@),
            cached_assertion_ok(
                old(current).slot_list@,
                new_value.slot_list@[0].0,
                previous_slot_entry_was_cached,
            ),
        ensures
            ({
                let slot = new_value.slot_list@[0].0;
                let version = new_value.slot_list@[0].1;
                let l = old(current).slot_list@;
                &&& final(current).slot_list@ == merged_slot_list(l, slot, version)
                &&& slots_unique(final(current).slot_list@)
                &&& final(current).ref_count == (if merge_addref(l, slot, version) {
                    wrapping_inc(old(current).ref_count)
                } else {
                    old(current).ref_count
                })
                &&& final(reclaims)@ == old(reclaims)@ + merge_reclaims(
                    l,
                    slot,
                    previous_slot_entry_was_cached,
                )
            }),
    {
        let (slot, new_entry) = new_value.slot_list[0];
        let addref = Self::update_slot_list(
            &mut current.slot_list,
            slot,
            new_entry,
            reclaims,
            previous_slot_entry_was_cached,
        );
        if addref {
            current.add_un_ref(true);
        }
    }

    /// Adds a delta to a counter, saturating; a zero delta is a no-op.
    fn update_stat(stat: &mut u64, value: u64)
        ensures
            *final(stat) == (if value == 0 {
                *old(stat)
            } else {
                sat_add(*old(stat), value)
            }),
    {
        if value != 0 {
            if *stat <= u64::MAX - value {
                *stat = *stat + value;
            } else {
                *stat = u64::MAX;
            }
        }
    }

    /// Stops the measurement and accumulates its elapsed microseconds into a
    /// timer.  The reading depends on real time, so only monotonicity of the
    /// timer is promised.
    pub fn update_time_stat(stat: &mut u64, mut m: solana_measure::measure::Measure)
        ensures
            *final(stat) >= *old(stat),
    {
        m.stop();
        let value = m.as_us();
        Self::update_stat(stat, value);
    }

    /// Looks the key up and returns a snapshot of its entry, recording a hit
    /// or a miss with its timing.  The map itself is never altered.
    pub fn get(&mut self, key: &AccountKey) -> (r: Option<AccountMapEntry<T>>)
        requires
            old(self).wf(),
        ensures
            final(self).wf(),
            final(self).spec_map() == old(self).spec_map(),
            match r {
                Some(e) => old(self).spec_contains(*key) && e.slot_list@ == old(self).spec_entry(
                    *key,
                ).slot_list@ && e.ref_count == old(self).spec_entry(*key).ref_count,
                None => !old(self).spec_contains(*key),
            },
            old(self).spec_contains(*key) ==> recorded_hit(
                old(self).spec_stats(),
                final(self).spec_stats(),
            ),
            !old(self).spec_contains(*key) ==> recorded_miss(
                old(self).spec_stats(),
                final(self).spec_stats(),
            ),
    {
        let m = solana_measure::measure::Measure::start("get");
        match self.find(key) {
            Some(i) => {
                proof {
                    lemma_map_key_index(self.map@, *key, i as int);
                }
                let p = &self.map[i];
                let e = p.1.clone();
                Self::update_time_stat(&mut self.storage.stats.get_mem_us, m);
                Self::update_stat(&mut self.storage.stats.gets_from_mem, 1);
                Some(e)
            },
            None => {
                Self::update_time_stat(&mut self.storage.stats.get_missing_us, m);
                Self::update_stat(&mut self.storage.stats.gets_missing, 1);
                None
            },
        }
    }

    /// An occupied-or-vacant view of the map at `pubkey`, with the same hit
    /// or miss statistics as `get`; the map itself is never altered.
    pub fn entry(&mut self, pubkey: AccountKey) -> (r: Entry<T>)
        requires
            old(self).wf(),
        ensures
            final(self).wf(),
            final(self).spec_map() == old(self).spec_map(),
            match r {
                Entry::Occupied(e) => old(self).spec_contains(pubkey) && e.slot_list@ == old(
                    self,
                ).spec_entry(pubkey).slot_list@ && e.ref_count == old(self).spec_entry(
                    pubkey,
                ).ref_count,
                Entry::Vacant(k) => !old(self).spec_contains(pubkey) && k == pubkey,
            },
            old(self).spec_contains(pubkey) ==> recorded_hit(
                old(self).spec_stats(),
                final(self).spec_stats(),
            ),
            !old(self).spec_contains(pubkey) ==> recorded_miss(
                old(self).spec_stats(),
                final(self).spec_stats(),
            ),
    {
        let m = solana_measure::measure::Measure::start("entry");
        match self.find(&pubkey) {
            Some(i) => {
                proof {
                    lemma_map_key_index(self.map@, pubkey, i as int);
                }
                let p = &self.map[i];
                let e = p.1.clone();
                Self::update_time_stat(&mut self.storage.stats.get_mem_us, m);
                Self::update_stat(&mut self.storage.stats.gets_from_mem, 1);
                Entry::Occupied(e)
            },
            None => {
                Self::update_time_stat(&mut self.storage.stats.get_missing_us, m);
                Self::update_stat(&mut self.storage.stats.gets_missing, 1);
                Entry::Vacant(pubkey)
            },
        }
    }

    /// A snapshot of the map's (key, entry) pairs at call time, restricted to
    /// the range when one is supplied; records an `items` count.  The map
    /// itself is never altered.
    pub fn items(&mut self, range: &Option<KeyRange>) -> (r: Vec<(AccountKey, AccountMapEntry<T>)>)
        requires
            old(self).wf(),
        ensures
            final(self).wf(),
            final(self).spec_map() == old(self).spec_map(),
            recorded_items(old(self).spec_stats(), final(self).spec_stats()),
            ({
                let f = filtered_items(old(self).spec_map(), *range);
                &&& r@.len() == f.len()
                &&& forall|j: int|
                    0 <= j < f.len() ==> r@[j].0 == (#[trigger] f[j]).0
                        && r@[j].1.slot_list@ == f[j].1.slot_list@
                        && r@[j].1.ref_count == f[j].1.ref_count
            }),
    {
        Self::update_stat(&mut self.storage.stats.items, 1);
        let ghost m0 = self.map@;
        let mut result: Vec<(AccountKey, AccountMapEntry<T>)> = Vec::new();
        let mut i: usize = 0;
        while i < self.map.len()
            invariant
                i <= m0.len(),
                self.map@ == m0,
                ({
                    let f = filtered_items(m0.subrange(0, i as int), *range);
                    &&& result@.len() == f.len()
                    &&& forall|j: int|
                        0 <= j < f.len() ==> result@[j].0 == (#[trigger] f[j]).0
                            && result@[j].1.slot_list@ == f[j].1.slot_list@
                            && result@[j].1.ref_count == f[j].1.ref_count
                }),
            decreases m0.len() - i,
        {
            proof {
                assert(m0.subrange(0, i + 1 as int).drop_last() =~= m0.subrange(0, i as int));
                assert(m0.subrange(0, i + 1 as int).last() == m0[i as int]);
            }
            let p = &self.map[i];
            let in_range = match range {
                Some(rg) => rg.contains(&p.0),
                None => true,
            };
            if in_range {
                result.push((p.0, p.1.clone()));
            }
            i = i + 1;
        }
        proof {
            assert(m0.subrange(0, m0.len() as int) =~= m0);
        }
        result
    }

    /// The keys present in the bin, in map order; a fresh call produces a
    /// fresh, restartable sequence.  Records a `keys` count; the map itself
    /// is never altered.
    pub fn keys(&mut self) -> (r: Vec<AccountKey>)
        ensures
            final(self).spec_map() == old(self).spec_map(),
            recorded_keys(old(self).spec_stats(), final(self).spec_stats()),
            r@ == old(self).spec_map().map_values(
                |p: (AccountKey, AccountMapEntry<T>)| p.0,
            ),
    {
        Self::update_stat(&mut self.storage.stats.keys, 1);
        let ghost m0 = self.map@;
        let mut result: Vec<AccountKey> = Vec::new();
        let mut i: usize = 0;
        while i < self.map.len()
            invariant
                i <= m0.len(),
                self.map@ == m0,
                result@ == m0.subrange(0, i as int).map_values(
                    |p: (AccountKey, AccountMapEntry<T>)| p.0,
                ),
            decreases m0.len() - i,
        {
            let p = &self.map[i];
            result.push(p.0);
            proof {
                assert(result@ =~= m0.subrange(0, i + 1 as int).map_values(
                    |q: (AccountKey, AccountMapEntry<T>)| q.0,
                ));
            }
            i = i + 1;
        }
        proof {
            assert(m0.subrange(0, m0.len() as int) =~= m0);
        }
        result
    }

    /// Removes the key only when it is present and its slot list is observed
    /// empty, under the same exclusive access that guards the list; absent
    /// keys and keys with a nonempty list are left untouched.  This is the
    /// only removal path: an entry is never dropped on emptiness alone.
    pub fn remove_if_slot_list_empty(&mut self, pubkey: AccountKey) -> (removed: bool)
        requires
            old(self).wf(),
        ensures
            final(self).wf(),
            final(self).spec_stats() == old(self).spec_stats(),
            removed == (old(self).spec_contains(pubkey) && old(self).spec_entry(
                pubkey,
            ).slot_list@.len() == 0),
            !removed ==> final(self).spec_map() == old(self).spec_map(),
            removed ==> final(self).spec_map() == old(self).spec_map().remove(
                old(self).key_index(pubkey),
            ),
            removed ==> !final(self).spec_contains(pubkey),
            forall|k: AccountKey|
                k != pubkey ==> final(self).spec_contains(k) == old(self).spec_contains(k),
            forall|k: AccountKey|
                k != pubkey && old(self).spec_contains(k) ==> final(self).spec_entry(k) == old(
                    self,
                ).spec_entry(k),
    {
        match self.find(&pubkey) {
            Some(i) => {
                proof {
                    lemma_map_key_index(self.map@, pubkey, i as int);
                }
                let is_empty_list = {
                    let p = &self.map[i];
                    p.1.slot_list.len() == 0
                };
                if is_empty_list {
                    let ghost m0 = self.map@;
                    let _removed_entry = self.map.remove(i);
                    proof {
                        let mnew = self.map@;
                        let iv = i as int;
                        assert forall|a: int, b: int| 0 <= a < b < mnew.len() implies (
                        #[trigger] mnew[a]).0 != (#[trigger] mnew[b]).0 by {
                            if b < iv {
                            } else if a < iv {
                                assert(mnew[b] == m0[b + 1]);
                            } else {
                                assert(mnew[a] == m0[a + 1]);
                                assert(mnew[b] == m0[b + 1]);
                            }
                        }
                        assert forall|j: int| 0 <= j < mnew.len() implies (
                        #[trigger] mnew[j]).0 != pubkey by {
                            if j < iv {
                                assert(mnew[j] == m0[j]);
                            } else {
                                assert(mnew[j] == m0[j + 1]);
                            }
                        }
                        assert forall|k: AccountKey| k != pubkey implies map_has_key(mnew, k)
                            == map_has_key(m0, k) by {
                            if map_has_key(m0, k) {
                                let j = map_key_index(m0, k);
                                assert(0 <= j < m0.len() && m0[j].0 == k);
                                if j < iv {
                                    assert(mnew[j] == m0[j]);
                                } else {
                                    assert(mnew[j - 1] == m0[j]);
                                }
                            }
                            if map_has_key(mnew, k) {
                                let j = choose|j: int|
                                    0 <= j < mnew.len() && (#[trigger] mnew[j]).0 == k;
                                if j < iv {
                                    assert(mnew[j] == m0[j]);
                                } else {
                                    assert(mnew[j] == m0[j + 1]);
                                }
                            }
                        }
                        assert forall|k: AccountKey|
                            k != pubkey && map_has_key(m0, k) implies map_key_index(mnew, k)
                            == (if map_key_index(m0, k) < iv {
                            map_key_index(m0, k)
                        } else {
                            map_key_index(m0, k) - 1
                        }) && mnew[map_key_index(mnew, k)].1 == m0[map_key_index(m0, k)].1 by {
                            let j = map_key_index(m0, k);
                            assert(0 <= j < m0.len() && m0[j].0 == k);
                            if j < iv {
                                assert(mnew[j] == m0[j]);
                                lemma_map_key_index(mnew, k, j);
                            } else {
                                assert(mnew[j - 1] == m0[j]);
                                lemma_map_key_index(mnew, k, j - 1);
                            }
                        }
                    }
                    return true;
                }
                false
            },
            None => false,
        }
    }

    /// Merges the single pending pair of `new_value` into the key's entry
    /// when the key is present, adjusting the reference count and the
    /// caller's reclaim list as the merge decides; installs `new_value`
    /// directly when the key is absent (no merge, no reclaim).
    pub fn upsert(
        &mut self,
        pubkey: &AccountKey,
        new_value: AccountMapEntry<T>,
        reclaims: &mut SlotList<T>,
        previous_slot_entry_was_cached: bool,
    )
        requires
            old(self).wf(),
            new_value.slot_list@.len() == 1,
            old(self).spec_contains(*pubkey) ==> cached_assertion_ok(
                old(self).spec_entry(*pubkey).slot_list@,
                new_value.slot_list@[0].0,
                previous_slot_entry_was_cached,
            ),
        ensures
            final(self).wf(),
            final(self).spec_stats() == old(self).spec_stats(),
            !old(self).spec_contains(*pubkey) ==> final(self).spec_map() == old(
                self,
            ).spec_map().push((*pubkey, new_value)) && final(reclaims)@ == old(reclaims)@,
            old(self).spec_contains(*pubkey) ==> ({
                let e = old(self).spec_entry(*pubkey);
                let slot = new_value.slot_list@[0].0;
                let version = new_value.slot_list@[0].1;
                &&& final(self).spec_entry(*pubkey).slot_list@ == merged_slot_list(
                    e.slot_list@,
                    slot,
                    version,
                )
                &&& final(self).spec_entry(*pubkey).ref_count == (if merge_addref(
                    e.slot_list@,
                    slot,
                    version,
                ) {
                    wrapping_inc(e.ref_count)
                } else {
                    e.ref_count
                })
                &&& final(reclaims)@ == old(reclaims)@ + merge_reclaims(
                    e.slot_list@,
                    slot,
                    previous_slot_entry_was_cached,
                )
                &&& final(self).spec_len() == old(self).spec_len()
                &&& forall|k: AccountKey|
                    final(self).spec_contains(k) == old(self).spec_contains(k)
                &&& forall|k: AccountKey|
                    k != *pubkey && old(self).spec_contains(k) ==> final(self).spec_entry(k)
                        == old(self).spec_entry(k)
            }),
            final(self).spec_contains(*pubkey),
    {
        match self.find(pubkey) {
            Some(i) => {
                proof {
                    lemma_map_key_index(self.map@, *pubkey, i as int);
                }
                let ghost m0 = self.map@;
                let mut pair = self.map.remove(i);
                Self::lock_and_update_slot_list(
                    &mut pair.1,
                    &new_value,
                    reclaims,
                    previous_slot_entry_was_cached,
                );
                self.map.insert(i, pair);
                proof {
                    let mnew = self.map@;
                    let iv = i as int;
                    assert(mnew =~= m0.update(iv, mnew[iv]));
                    assert(mnew[iv].0 == *pubkey);
                    assert forall|j: int| 0 <= j < mnew.len() implies (#[trigger] mnew[j]).0
                        == m0[j].0 by {}
                    assert forall|a: int, b: int| 0 <= a < b < mnew.len() implies (
                    #[trigger] mnew[a]).0 != (#[trigger] mnew[b]).0 by {
                        assert(m0[a].0 != m0[b].0);
                    }
                    assert forall|k: AccountKey| map_has_key(mnew, k) == map_has_key(
                        m0,
                        k,
                    ) by {
                        if map_has_key(m0, k) {
                            let j = map_key_index(m0, k);
                            assert(mnew[j].0 == k);
                        }
                        if map_has_key(mnew, k) {
                            let j = choose|j: int|
                                0 <= j < mnew.len() && (#[trigger] mnew[j]).0 == k;
                            assert(m0[j].0 == k);
                        }
                    }
                    lemma_map_key_index(mnew, *pubkey, iv);
                    assert forall|k: AccountKey|
                        k != *pubkey && map_has_key(m0, k) implies mnew[map_key_index(
                        mnew,
                        k,
                    )].1 == m0[map_key_index(m0, k)].1 by {
                        let j = map_key_index(m0, k);
                        assert(0 <= j < m0.len() && m0[j].0 == k);
                        assert(j != iv);
                        assert(mnew[j] == m0[j]);
                        lemma_map_key_index(mnew, k, j);
                    }
                }
            },
            None => {
                let ghost m0 = self.map@;
                self.map.push((*pubkey, new_value));
                proof {
                    let mnew = self.map@;
                    assert forall|a: int, b: int| 0 <= a < b < mnew.len() implies (
                    #[trigger] mnew[a]).0 != (#[trigger] mnew[b]).0 by {
                        if b == m0.len() {
                            assert(mnew[a] == m0[a]);
                        } else {
                            assert(mnew[a] == m0[a]);
                            assert(mnew[b] == m0[b]);
                        }
                    }
                    assert(mnew[m0.len() as int].0 == *pubkey);
                }
            },
        }
    }

    /// The statistics block this bin records into.
    pub fn stats(&self) -> (s: &BucketMapHolderStats)
        ensures
            *s == self.spec_stats(),
    {
        &self.storage.stats
    }

    /// Replaces one key's slot list wholesale under the entry's exclusive
    /// access — the owned counterpart of writing through the entry-local
    /// lock — and returns the displaced list.  The reference count and every
    /// other key are untouched; an absent key leaves the bin unchanged.
    pub fn replace_slot_list(&mut self, pubkey: AccountKey, new_list: SlotList<T>) -> (r: Option<
        SlotList<T>,
    >)
        requires
            old(self).wf(),
            slots_unique(new_list@),
        ensures
            final(self).wf(),
            final(self).spec_stats() == old(self).spec_stats(),
            old(self).spec_contains(pubkey) ==> ({
                &&& match r {
                    Some(prev) => prev@ == old(self).spec_entry(pubkey).slot_list@,
                    None => false,
                }
                &&& final(self).spec_entry(pubkey).slot_list@ == new_list@
                &&& final(self).spec_entry(pubkey).ref_count == old(self).spec_entry(
                    pubkey,
                ).ref_count
                &&& forall|k: AccountKey|
                    final(self).spec_contains(k) == old(self).spec_contains(k)
                &&& forall|k: AccountKey|
                    k != pubkey && old(self).spec_contains(k) ==> final(self).spec_entry(k)
                        == old(self).spec_entry(k)
            }),
            !old(self).spec_contains(pubkey) ==> r is None && final(self).spec_map() == old(
                self,
            ).spec_map(),
    {
        match self.find(&pubkey) {
            Some(i) => {
                proof {
                    lemma_map_key_index(self.map@, pubkey, i as int);
                }
                let ghost m0 = self.map@;
                let pair = self.map.remove(i);
                let (key0, old_entry) = pair;
                self.map.insert(
                    i,
                    (key0, AccountMapEntry { slot_list: new_list, ref_count: old_entry.ref_count }),
                );
                proof {
                    let mnew = self.map@;
                    let iv = i as int;
                    assert(mnew =~= m0.update(iv, mnew[iv]));
                    assert(mnew[iv].0 == pubkey);
                    assert forall|a: int, b: int| 0 <= a < b < mnew.len() implies (
                    #[trigger] mnew[a]).0 != (#[trigger] mnew[b]).0 by {
                        assert(m0[a].0 != m0[b].0);
                        assert(mnew[a].0 == m0[a].0);
                        assert(mnew[b].0 == m0[b].0);
                    }
                    assert forall|k: AccountKey| map_has_key(mnew, k) == map_has_key(
                        m0,
                        k,
                    ) by {
                        if map_has_key(m0, k) {
                            let j = map_key_index(m0, k);
                            assert(mnew[j].0 == k);
                        }
                        if map_has_key(mnew, k) {
                            let j = choose|j: int|
                                0 <= j < mnew.len() && (#[trigger] mnew[j]).0 == k;
                            assert(m0[j].0 == k);
                        }
                    }
                    lemma_map_key_index(mnew, pubkey, iv);
                    assert forall|k: AccountKey|
                        k != pubkey && map_has_key(m0, k) implies mnew[map_key_index(
                        mnew,
                        k,
                    )].1 == m0[map_key_index(m0, k)].1 by {
                        let j = map_key_index(m0, k);
                        assert(0 <= j < m0.len() && m0[j].0 == k);
                        assert(j != iv);
                        assert(mnew[j] == m0[j]);
                        lemma_map_key_index(mnew, k, j);
                    }
                }
                Some(old_entry.slot_list)
            },
            None => None,
        }
    }

    /// Two-phase insert.  When the key is absent, installs `new_entry` as the
    /// canonical entry and signals that by returning nothing.  When the key
    /// is present, the map is left untouched and the existing entry's handle,
    /// the single pending version extracted from `new_entry`, and the key are
    /// returned, so the caller can merge outside any structural exclusivity.
    pub fn insert_new_entry_if_missing_with_lock(
        &mut self,
        pubkey: AccountKey,
        new_entry: AccountMapEntry<T>,
    ) -> (r: Option<(WriteAccountMapEntry<T>, T, AccountKey)>)
        requires
            old(self).wf(),
            new_entry.slot_list@.len() == 1,
        ensures
            final(self).wf(),
            final(self).spec_stats() == old(self).spec_stats(),
            !old(self).spec_contains(pubkey) ==> r is None && final(self).spec_map() == old(
                self,
            ).spec_map().push((pubkey, new_entry)),
            old(self).spec_contains(pubkey) ==> final(self).spec_map() == old(self).spec_map()
                && (match r {
                Some(t) => t.0.entry.slot_list@ == old(self).spec_entry(pubkey).slot_list@
                    && t.0.entry.ref_count == old(self).spec_entry(pubkey).ref_count && t.1
                    == new_entry.slot_list@[0].1 && t.2 == pubkey,
                None => false,
            }),
            final(self).spec_contains(pubkey),
    {
        match self.find(&pubkey) {
            Some(i) => {
                proof {
                    lemma_map_key_index(self.map@, pubkey, i as int);
                }
                let existing = {
                    let p = &self.map[i];
                    p.1.clone()
                };
                // extract the pending version from the unused `new_entry`
                let pending = new_entry.slot_list[0].1;
                Some((WriteAccountMapEntry::from_account_map_entry(existing), pending, pubkey))
            },
            None => {
                let ghost m0 = self.map@;
                self.map.push((pubkey, new_entry));
                proof {
                    let mnew = self.map@;
                    assert forall|a: int, b: int| 0 <= a < b < mnew.len() implies (
                    #[trigger] mnew[a]).0 != (#[trigger] mnew[b]).0 by {
                        if b == m0.len() {
                            assert(mnew[a] == m0[a]);
                        } else {
                            assert(mnew[a] == m0[a]);
                            assert(mnew[b] == m0[b]);
                        }
                    }
                    assert(mnew[m0.len() as int].0 == pubkey);
                }
                None
            },
        }
    }
}

/// Read purity: the result of a lookup is a function of the map contents
/// alone, so two lookups of the same key with no structural change between
/// them agree, whatever the statistics counters did meanwhile.
pub proof fn lemma_lookup_deterministic<T: IsCached + Copy>(
    a: InMemAccountsIndex<T>,
    b: InMemAccountsIndex<T>,
    k: AccountKey,
)
    requires
        a.spec_map() == b.spec_map(),
    ensures
        a.spec_contains(k) == b.spec_contains(k),
        a.spec_contains(k) ==> a.spec_entry(k) == b.spec_entry(k),
        a.key_set() == b.key_set(),
{
    assert(a.key_set() =~= b.key_set());
}

} // verus!

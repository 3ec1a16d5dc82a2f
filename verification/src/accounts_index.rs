//! Core data model of the index: account keys, slots, version payloads and
//! the per-key index entry that owns a slot list and a reference count.

use vstd::prelude::*;

verus! {

/// A position in the ledger at which an account may have a version.
pub type Slot = u64;

/// A fixed-size 256-bit account identifier, held as four 64-bit words in
/// big-endian word order so that the lexicographic order of the words is the
/// numeric order of the identifier.
#[derive(Clone, Copy, PartialEq, Eq, Structural, Hash, Debug)]
pub struct AccountKey {
    pub w0: u64,
    pub w1: u64,
    pub w2: u64,
    pub w3: u64,
}

/// Total order on account keys: lexicographic over the four words.
pub open spec fn key_le(a: AccountKey, b: AccountKey) -> bool {
    if a.w0 != b.w0 {
        a.w0 < b.w0
    } else if a.w1 != b.w1 {
        a.w1 < b.w1
    } else if a.w2 != b.w2 {
        a.w2 < b.w2
    } else {
        a.w3 <= b.w3
    }
}

impl AccountKey {
    /// Three fixed words and a low word, convenient for building distinct keys.
    pub fn from_low(low: u64) -> (k: AccountKey)
        ensures
            k == (AccountKey { w0: 0, w1: 0, w2: 0, w3: low }),
    {
        AccountKey { w0: 0, w1: 0, w2: 0, w3: low }
    }

    pub fn le(&self, other: &AccountKey) -> (r: bool)
        ensures
            r == key_le(*self, *other),
    {
        if self.w0 != other.w0 {
            self.w0 < other.w0
        } else if self.w1 != other.w1 {
            self.w1 < other.w1
        } else if self.w2 != other.w2 {
            self.w2 < other.w2
        } else {
            self.w3 <= other.w3
        }
    }
}

/// An inclusive range of account keys, used to restrict snapshots of the map.
#[derive(Clone, Copy, PartialEq, Eq, Structural, Debug)]
pub struct KeyRange {
    pub start: AccountKey,
    pub end: AccountKey,
}

pub open spec fn key_in_range(r: KeyRange, k: AccountKey) -> bool {
    key_le(r.start, k) && key_le(k, r.end)
}

impl KeyRange {
    pub fn contains(&self, k: &AccountKey) -> (r: bool)
        ensures
            r == key_in_range(*self, *k),
    {
        self.start.le(k) && k.le(&self.end)
    }
}

/// A per-slot version payload.  The one capability the index reads is whether
/// the version still lives only in a volatile write-cache (`is_cached`) or is
/// durably stored.
pub trait IsCached: Sized {
    spec fn spec_is_cached(&self) -> bool;

    fn is_cached(&self) -> (r: bool)
        ensures
            r == self.spec_is_cached(),
    ;
}

/// A minimal concrete version payload: an identifier for the backing storage
/// location and the cached flag.
#[derive(Clone, Copy, PartialEq, Eq, Structural, Debug)]
pub struct AccountVersion {
    pub store_id: u64,
    pub cached: bool,
}

impl IsCached for AccountVersion {
    open spec fn spec_is_cached(&self) -> bool {
        self.cached
    }

    fn is_cached(&self) -> (r: bool)
        ensures
            r == self.spec_is_cached(),
    {
        self.cached
    }
}

/// The list of known (slot, version) updates for one key.
pub type SlotList<T> = Vec<(Slot, T)>;

/// At most one entry per slot: the structural invariant of every slot list
/// held by the index.
pub open spec fn slots_unique<T>(l: Seq<(Slot, T)>) -> bool {
    forall|i: int, j: int| 0 <= i < j < l.len() ==> (#[trigger] l[i]).0 != (#[trigger] l[j]).0
}

pub open spec fn has_slot<T>(l: Seq<(Slot, T)>, s: Slot) -> bool {
    exists|i: int| 0 <= i < l.len() && (#[trigger] l[i]).0 == s
}

/// The position of the entry for slot `s`; meaningful when `has_slot(l, s)`,
/// and unique when `slots_unique(l)`.
pub open spec fn index_of_slot<T>(l: Seq<(Slot, T)>, s: Slot) -> int {
    choose|i: int| 0 <= i < l.len() && (#[trigger] l[i]).0 == s
}

/// In a duplicate-free list, any position holding slot `s` is the position
/// `index_of_slot` denotes.
pub proof fn lemma_index_of_slot<T>(l: Seq<(Slot, T)>, s: Slot, i: int)
    requires
        slots_unique(l),
        0 <= i < l.len(),
        l[i].0 == s,
    ensures
        index_of_slot(l, s) == i,
        has_slot(l, s),
{
    assert(has_slot(l, s));
    let j = index_of_slot(l, s);
    if i < j {
        assert(l[i].0 != l[j].0);
    } else if j < i {
        assert(l[j].0 != l[i].0);
    }
}

/// One key's entry in the bin map: the slot list, guarded in the full system
/// by an entry-local lock that exclusive access (`&mut`) stands for here, and
/// the count of durably stored versions associated with the key.
pub struct AccountMapEntry<T> {
    pub slot_list: SlotList<T>,
    pub ref_count: u64,
}

/// Copies a slot list element by element.
pub fn copy_slot_list<T: Copy>(l: &SlotList<T>) -> (r: SlotList<T>)
    ensures
        r@ == l@,
{
    let mut r: SlotList<T> = Vec::new();
    let mut i: usize = 0;
    while i < l.len()
        invariant
            i <= l@.len(),
            r@ == l@.subrange(0, i as int),
        decreases l@.len() - i,
    {
        r.push(l[i]);
        proof {
            assert(l@.subrange(0, i + 1 as int) =~= l@.subrange(0, i as int).push(l@[i as int]));
        }
        i = i + 1;
    }
    proof {
        assert(l@.subrange(0, l@.len() as int) =~= l@);
    }
    r
}

impl<T: Copy> AccountMapEntry<T> {
    /// A fresh entry holding exactly one pending (slot, version) pair, the
    /// shape `upsert` and the two-phase insert expect of an incoming entry.
    pub fn new_for_slot(slot: Slot, version: T, ref_count: u64) -> (e: AccountMapEntry<T>)
        ensures
            e.slot_list@ == seq![(slot, version)],
            e.ref_count == ref_count,
    {
        let mut l: SlotList<T> = Vec::new();
        l.push((slot, version));
        proof {
            assert(l@ =~= seq![(slot, version)]);
        }
        AccountMapEntry { slot_list: l, ref_count }
    }

    /// Adjusts the reference count of durably stored versions: up when a
    /// version becomes countable, down when one is released.  The count
    /// wraps, as a plain atomic adjustment would.
    pub fn add_un_ref(&mut self, add: bool)
        ensures
            final(self).slot_list == old(self).slot_list,
            add ==> final(self).ref_count == (if old(self).ref_count == u64::MAX {
                0u64
            } else {
                (old(self).ref_count + 1) as u64
            }),
            !add ==> final(self).ref_count == (if old(self).ref_count == 0 {
                u64::MAX
            } else {
                (old(self).ref_count - 1) as u64
            }),
    {
        if add {
            self.ref_count = self.ref_count.wrapping_add(1);
        } else {
            self.ref_count = self.ref_count.wrapping_sub(1);
        }
    }
}

impl<T: Copy> Clone for AccountMapEntry<T> {
    fn clone(&self) -> (r: Self)
        ensures
            r.slot_list@ == self.slot_list@,
            r.ref_count == self.ref_count,
    {
        AccountMapEntry { slot_list: copy_slot_list(&self.slot_list), ref_count: self.ref_count }
    }
}

/// A handle to an existing entry handed back by the two-phase insert so the
/// caller can run the merge itself.
pub struct WriteAccountMapEntry<T> {
    pub entry: AccountMapEntry<T>,
}

impl<T: Copy> WriteAccountMapEntry<T> {
    pub fn from_account_map_entry(entry: AccountMapEntry<T>) -> (w: WriteAccountMapEntry<T>)
        ensures
            w.entry.slot_list == entry.slot_list,
            w.entry.ref_count == entry.ref_count,
    {
        WriteAccountMapEntry { entry }
    }
}

} // verus!

//! Counters and timers recorded by lookups, owned by the backing store.

use vstd::prelude::*;

verus! {

/// Saturating addition on 64-bit counters: a counter update never fails and
/// never wraps.
pub open spec fn sat_add(a: u64, b: u64) -> u64 {
    if a + b > u64::MAX {
        u64::MAX
    } else {
        (a + b) as u64
    }
}

/// The statistics block consumed by lookups: a hit and a miss counter with
/// their timers, and counters for snapshot and key enumerations.
#[derive(Clone, Copy, PartialEq, Eq, Structural, Debug)]
pub struct BucketMapHolderStats {
    /// lookups that found the key in memory
    pub gets_from_mem: u64,
    /// accumulated microseconds of lookups that hit
    pub get_mem_us: u64,
    /// lookups that did not find the key
    pub gets_missing: u64,
    /// accumulated microseconds of lookups that missed
    pub get_missing_us: u64,
    /// snapshots taken by `items`
    pub items: u64,
    /// enumerations produced by `keys`
    pub keys: u64,
}

impl BucketMapHolderStats {
    pub open spec fn is_zeroed(self) -> bool {
        self == (BucketMapHolderStats {
            gets_from_mem: 0,
            get_mem_us: 0,
            gets_missing: 0,
            get_missing_us: 0,
            items: 0,
            keys: 0,
        })
    }

    pub fn new() -> (s: BucketMapHolderStats)
        ensures
            s.is_zeroed(),
    {
        BucketMapHolderStats {
            gets_from_mem: 0,
            get_mem_us: 0,
            gets_missing: 0,
            get_missing_us: 0,
            items: 0,
            keys: 0,
        }
    }
}

impl Default for BucketMapHolderStats {
    fn default() -> (s: Self)
        ensures
            s.is_zeroed(),
    {
        BucketMapHolderStats::new()
    }
}

/// A lookup hit was recorded: the hit counter stepped by exactly one
/// (saturating), the hit timer advanced, and everything else is untouched.
pub open spec fn recorded_hit(pre: BucketMapHolderStats, post: BucketMapHolderStats) -> bool {
    &&& post.gets_from_mem == sat_add(pre.gets_from_mem, 1)
    &&& post.get_mem_us >= pre.get_mem_us
    &&& post.gets_missing == pre.gets_missing
    &&& post.get_missing_us == pre.get_missing_us
    &&& post.items == pre.items
    &&& post.keys == pre.keys
}

/// A lookup miss was recorded: the miss counter stepped by exactly one
/// (saturating), the miss timer advanced, and everything else is untouched.
pub open spec fn recorded_miss(pre: BucketMapHolderStats, post: BucketMapHolderStats) -> bool {
    &&& post.gets_missing == sat_add(pre.gets_missing, 1)
    &&& post.get_missing_us >= pre.get_missing_us
    &&& post.gets_from_mem == pre.gets_from_mem
    &&& post.get_mem_us == pre.get_mem_us
    &&& post.items == pre.items
    &&& post.keys == pre.keys
}

/// An `items` snapshot was recorded.
pub open spec fn recorded_items(pre: BucketMapHolderStats, post: BucketMapHolderStats) -> bool {
    &&& post.items == sat_add(pre.items, 1)
    &&& post.gets_from_mem == pre.gets_from_mem
    &&& post.get_mem_us == pre.get_mem_us
    &&& post.gets_missing == pre.gets_missing
    &&& post.get_missing_us == pre.get_missing_us
    &&& post.keys == pre.keys
}

/// A `keys` enumeration was recorded.
pub open spec fn recorded_keys(pre: BucketMapHolderStats, post: BucketMapHolderStats) -> bool {
    &&& post.keys == sat_add(pre.keys, 1)
    &&& post.gets_from_mem == pre.gets_from_mem
    &&& post.get_mem_us == pre.get_mem_us
    &&& post.gets_missing == pre.gets_missing
    &&& post.get_missing_us == pre.get_missing_us
    &&& post.items == pre.items
}

} // verus!

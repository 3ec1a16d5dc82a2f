//! The holder of the eventual backing store.

use vstd::prelude::*;

use crate::bucket_map_holder_stats::BucketMapHolderStats;

verus! {

/// Holds the backing store shared by every bin built against it.  The piece
/// this index reads and writes is the statistics block; the background
/// maintenance loop that works the store itself is driven by the embedding
/// runtime and is outside this crate's contracts.
#[derive(Clone, Copy, PartialEq, Eq, Structural, Debug)]
pub struct BucketMapHolder {
    pub stats: BucketMapHolderStats,
}

impl BucketMapHolder {
    pub fn new() -> (h: BucketMapHolder)
        ensures
            h.stats.is_zeroed(),
    {
        BucketMapHolder { stats: BucketMapHolderStats::new() }
    }
}

} // verus!

//! One bin of an in-memory accounts index.
//!
//! For every account key the bin tracks the list of (slot, version) pairs
//! recording each known update to that account.  The core pieces are the
//! slot-list merge algorithm with its reclaim and reference-count rules,
//! the per-bin map with lookup, merge/upsert and conditional removal, the
//! statistics counters recorded by lookups, and the lifecycle state machine
//! of the storage manager that owns the background maintenance worker.

pub mod accounts_index;
pub mod in_mem_accounts_index;
pub mod accounts_index_storage;
pub mod bucket_map_holder;
pub mod bucket_map_holder_stats;
pub mod timing;

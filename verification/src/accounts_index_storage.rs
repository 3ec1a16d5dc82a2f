//! Lifecycle of the storage manager and its single background maintenance
//! worker.
//!
//! The manager owns the backing-store holder and records the worker's
//! lifecycle as an explicit state machine.  Teardown is a fixed two-step
//! protocol: request exit (set the shared exit flag and broadcast the wake
//! signal), then join the worker, blocking until it has terminated.  The
//! embedding runtime owns the thread handle, performs the signalling and the
//! join, and reports the steps here; the state machine guarantees that the
//! protocol always ends with the worker joined.

use vstd::prelude::*;

use crate::bucket_map_holder::BucketMapHolder;

verus! {

/// The lifecycle of the background maintenance worker.
#[derive(Clone, Copy, PartialEq, Eq, Structural, Debug)]
pub enum LifecycleState {
    /// the worker runs the backing store's maintenance loop
    Running,
    /// exit was requested and the wake signal broadcast
    Stopping,
    /// the worker has terminated and was joined
    Joined,
}

/// Owns the backing-store holder, the shared exit flag and the worker's
/// lifecycle state.  The manager owns exactly one worker for its entire
/// lifetime: no pooling, no restart.
pub struct AccountsIndexStorage {
    storage: BucketMapHolder,
    exit: bool,
    state: LifecycleState,
}

impl AccountsIndexStorage {
    pub closed spec fn spec_storage(self) -> BucketMapHolder {
        self.storage
    }

    /// Whether exit has been requested of the worker.
    pub closed spec fn spec_exit(self) -> bool {
        self.exit
    }

    pub closed spec fn spec_state(self) -> LifecycleState {
        self.state
    }

    /// A freshly constructed manager: store allocated with zeroed statistics,
    /// exit flag clear, worker running.
    pub open spec fn freshly_constructed(s: AccountsIndexStorage) -> bool {
        &&& s.spec_state() == LifecycleState::Running
        &&& !s.spec_exit()
        &&& s.spec_storage().stats.is_zeroed()
    }

    /// Constructs the manager.  The embedding runtime spawns the one named
    /// worker thread at the same moment and hands it the shared exit flag and
    /// wake signal.
    pub fn new() -> (s: AccountsIndexStorage)
        ensures
            Self::freshly_constructed(s),
    {
        AccountsIndexStorage {
            storage: BucketMapHolder::new(),
            exit: false,
            state: LifecycleState::Running,
        }
    }

    /// Read-only access to the shared backing-store holder, used by
    /// components that build bins against a shared store.
    pub fn storage(&self) -> (r: &BucketMapHolder)
        ensures
            *r == self.spec_storage(),
    {
        &self.storage
    }

    /// The worker's current lifecycle state.
    pub fn state(&self) -> (s: LifecycleState)
        ensures
            s == self.spec_state(),
    {
        self.state
    }

    /// Whether exit has been requested of the worker.
    pub fn exit_requested(&self) -> (b: bool)
        ensures
            b == self.spec_exit(),
    {
        self.exit
    }

    /// The first teardown step: exit is requested of a running worker and the
    /// wake signal is broadcast, leaving the manager stopping.
    pub open spec fn begin_shutdown_rel(pre: AccountsIndexStorage, post: AccountsIndexStorage) -> bool {
        &&& pre.spec_state() == LifecycleState::Running
        &&& post.spec_state() == LifecycleState::Stopping
        &&& post.spec_exit()
        &&& post.spec_storage() == pre.spec_storage()
    }

    /// Requests exit: sets the shared exit flag, after which the embedding
    /// runtime broadcasts the wake signal so a parked worker observes the
    /// flag.
    pub fn begin_shutdown(&mut self)
        requires
            old(self).spec_state() == LifecycleState::Running,
        ensures
            Self::begin_shutdown_rel(*old(self), *final(self)),
    {
        self.exit = true;
        self.state = LifecycleState::Stopping;
    }

    /// The second teardown step: a stopping manager whose worker has
    /// terminated and was joined becomes joined for good.
    pub open spec fn finish_shutdown_rel(pre: AccountsIndexStorage, post: AccountsIndexStorage) -> bool {
        &&& pre.spec_state() == LifecycleState::Stopping
        &&& pre.spec_exit()
        &&& post.spec_state() == LifecycleState::Joined
        &&& post.spec_exit()
        &&& post.spec_storage() == pre.spec_storage()
    }

    /// Records that the worker was joined.  The embedding runtime calls this
    /// only after the join returned; abnormal termination of the worker is
    /// propagated by the runtime as a fatal condition instead.
    pub fn finish_shutdown(&mut self)
        requires
            old(self).spec_state() == LifecycleState::Stopping,
            old(self).spec_exit(),
        ensures
            Self::finish_shutdown_rel(*old(self), *final(self)),
    {
        self.state = LifecycleState::Joined;
    }
}

/// Shutdown determinism: from any freshly constructed manager, the two-step
/// teardown protocol always ends with the worker joined and the exit flag
/// set; no interleaving of concurrent signal delivery changes the outcome,
/// because each step's relation pins the resulting state.
pub proof fn lemma_shutdown_deterministic(
    s0: AccountsIndexStorage,
    s1: AccountsIndexStorage,
    s2: AccountsIndexStorage,
)
    requires
        AccountsIndexStorage::freshly_constructed(s0),
        AccountsIndexStorage::begin_shutdown_rel(s0, s1),
        AccountsIndexStorage::finish_shutdown_rel(s1, s2),
    ensures
        s2.spec_state() == LifecycleState::Joined,
        s2.spec_exit(),
        s2.spec_storage() == s0.spec_storage(),
{
}

} // verus!

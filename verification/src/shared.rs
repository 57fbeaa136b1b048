//! The series store shared between the sampler and the render loop: one
//! readers-writer lock guards the whole mapping, held only long enough to
//! push one point or to copy a snapshot out. Every value the lock ever holds
//! satisfies the store's invariant, so no reader can observe a torn point or
//! an out-of-order series, however appends and reads interleave.

use crate::series::{entries_match, store_wf, SamplePoint, SeriesStore};
use crate::window::{spec_domain, spec_last_timestamp, spec_max_rate_from, Window};
use vstd::prelude::*;
use vstd::rwlock::{RwLock, RwLockPredicate};

verus! {

/// The lock's invariant: whatever the lock holds is a well-formed store.
pub struct StorePred;

impl RwLockPredicate<SeriesStore> for StorePred {
    open spec fn inv(self, v: SeriesStore) -> bool {
        v.wf()
    }
}

/// A series store behind a readers-writer lock, for one writing sampler and
/// any number of reading render passes.
pub struct SharedSeriesStore {
    lock: RwLock<SeriesStore, StorePred>,
}

impl SharedSeriesStore {
    #[verifier::type_invariant]
    spec fn wf(self) -> bool {
        self.lock.pred() == StorePred
    }

    /// A shared handle over an empty store.
    pub fn new() -> Self {
        SharedSeriesStore { lock: RwLock::new(SeriesStore::new(), Ghost(StorePred)) }
    }

    /// Record one sample under the write lock, holding it only for the one
    /// append. The point is taken or refused exactly as `SeriesStore::append`
    /// says; either way the stored value stays well formed.
    pub fn append(&self, name: &str, point: SamplePoint) -> bool {
        proof {
            use_type_invariant(self);
        }
        let (mut store, handle) = self.lock.acquire_write();
        let appended = store.append(name, point);
        handle.release_write(store);
        appended
    }

    /// Copy the store and compute the visible window under one read lock: the
    /// snapshot and the window describe the same well-formed store value, so a
    /// render pass never mixes two states of the data.
    pub fn snapshot(&self, duration_ms: u64) -> (r: (Vec<(String, Vec<SamplePoint>)>, Window))
        requires
            duration_ms > 0,
        ensures
            exists|v: Seq<(Seq<u8>, Seq<SamplePoint>)>|
                {
                    &&& store_wf(v)
                    &&& #[trigger] entries_match(v, r.0@)
                    &&& (r.1.start_ms, r.1.end_ms) == spec_domain(spec_last_timestamp(v), duration_ms)
                    &&& r.1.max_rate == spec_max_rate_from(v, r.1.start_ms)
                },
    {
        proof {
            use_type_invariant(self);
        }
        let handle = self.lock.acquire_read();
        let store = handle.borrow();
        let entries = store.snapshot_entries();
        let window = store.select_window(duration_ms);
        let ghost witness = store@;
        handle.release_read();
        let r = (entries, window);
        proof {
            assert(store_wf(witness));
            assert(entries_match(witness, r.0@));
            assert((r.1.start_ms, r.1.end_ms) == spec_domain(
                spec_last_timestamp(witness),
                duration_ms,
            ));
            assert(r.1.max_rate == spec_max_rate_from(witness, r.1.start_ms));
        }
        r
    }
}

} // verus!

//! Identifier allocation for caller-requested "auto-generate" creation.
//!
//! Starting from an optional previous identifier, the item contract proposes
//! a candidate; the allocator probes the store for occupancy and, where the
//! candidate is taken, asks for the next candidate seeded from it. The probe
//! is a fast path, not a correctness guarantee: racing allocators may settle
//! on the same candidate, and only the atomic create-if-absent behind
//! `lock_new` finally arbitrates. A caller-supplied bound on attempts
//! protects against generation functions that never advance.

use vstd::prelude::*;

use crate::errors::StorageError;
use crate::item::StorageItem;
use crate::store::Store;

verus! {

/// The identifier the probing loop settles on: the first candidate in the
/// generation chain that is unoccupied, within `fuel` attempts (`None` where
/// the fuel runs out, or where an occupied candidate leaves no room for a
/// next one).
pub open spec fn alloc_from<T: StorageItem>(
    occupied: Set<u64>,
    previous: Option<u64>,
    fuel: nat,
) -> Option<u64>
    decreases fuel,
{
    if fuel == 0 {
        None
    } else {
        let candidate = T::next_id_of(previous);
        if !occupied.contains(candidate) {
            Some(candidate)
        } else if candidate == u64::MAX {
            None
        } else {
            alloc_from::<T>(occupied, Some(candidate), (fuel - 1) as nat)
        }
    }
}

impl<T: StorageItem> Store<T> {
    /// Finds an unoccupied identifier, probing at most `max_attempts`
    /// candidates; a caller that exhausts the bound gets
    /// `AllocationExhausted`, never an endless loop.
    pub fn allocate_id(&self, previous: Option<u64>, max_attempts: u64) -> (r: Result<
        u64,
        StorageError,
    >)
        requires
            self.wf(),
            previous matches Some(p) ==> p < u64::MAX,
        ensures
            match r {
                Ok(id) => alloc_from::<T>(self.items().dom(), previous, max_attempts as nat)
                    == Some(id) && !self.items().contains_key(id),
                Err(e) => e is AllocationExhausted && alloc_from::<T>(
                    self.items().dom(),
                    previous,
                    max_attempts as nat,
                ) is None,
            },
    {
        let mut seed = previous;
        let mut fuel = max_attempts;
        loop
            invariant
                self.wf(),
                seed matches Some(p) ==> p < u64::MAX,
                fuel <= max_attempts,
                alloc_from::<T>(self.items().dom(), previous, max_attempts as nat)
                    == alloc_from::<T>(self.items().dom(), seed, fuel as nat),
            decreases fuel,
        {
            if fuel == 0 {
                return Err(StorageError::AllocationExhausted);
            }
            let candidate = T::generate_next_id(seed);
            let occupied = match self.exists_id(candidate) {
                Ok(b) => b,
                Err(_) => {
                    proof {
                        assert(false);
                    }
                    return Err(StorageError::AllocationExhausted);
                },
            };
            if !occupied {
                return Ok(candidate);
            }
            if candidate == u64::MAX {
                return Err(StorageError::AllocationExhausted);
            }
            seed = Some(candidate);
            fuel = fuel - 1;
        }
    }
}

} // verus!

//! Lock tokens: opaque capabilities proving current ownership of a key's lock.
//!
//! A token is returned by a successful lock acquisition and must be presented,
//! unchanged, to `save` and `unlock` on the same key. It becomes worthless the
//! instant its key is unlocked (voluntarily or forcibly) or locked afresh by
//! anyone: verification always compares against the key's current lock record.

use vstd::prelude::*;

verus! {

/// An opaque credential for one key's lock.
///
/// The raw value is chosen by the backend when the lock record is created;
/// nothing about it is meaningful to callers beyond equality.
#[derive(Debug)]
pub struct LockToken {
    value: u64,
}

impl LockToken {
    /// The raw credential value, for specifications.
    pub closed spec fn spec_value(&self) -> u64 {
        self.value
    }

    /// Builds a token carrying a chosen raw value.
    ///
    /// A token built here is only as good as its value: presenting a made-up
    /// value to `save` or `unlock` fails verification against the key's
    /// current lock record.
    pub fn new(value: u64) -> (r: LockToken)
        ensures
            r.spec_value() == value,
    {
        LockToken { value }
    }

    /// The raw credential value.
    pub fn value(&self) -> (r: u64)
        ensures
            r == self.spec_value(),
    {
        self.value
    }
}

} // verus!

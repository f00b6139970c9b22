//! A keyed, lock-protected item store.
//!
//! The store guarantees at-most-one active writer per key: a caller acquires a
//! key's lock and receives an opaque [`token::LockToken`], mutates the item in
//! memory, writes it back with `save` under that token, and releases the lock
//! with `unlock`. Abandoned locks are recovered by an administrative
//! `force_unlock`, which bypasses token verification. Identifier allocation
//! for newly created items probes for unoccupied keys; the final authority on
//! creation races is the backend's atomic create-if-absent lock primitive.
//!
//! Locks have no built-in expiry: if a holder disappears between lock and
//! unlock, the lock record persists until an administrator intervenes. That is
//! an operational responsibility, not a bug.

pub mod allocator;
pub mod backend;
pub mod dec;
pub mod errors;
pub mod examples;
pub mod item;
pub mod kv;
pub mod laws;
pub mod store;
pub mod test_item;
pub mod token;

//! The store: lock-protected, keyed persistence of items.
//!
//! These methods carry the lock-manager responsibility: at most one holder
//! per key at a time, token-verified writes and releases, and unconditional
//! administrative recovery. Every race on a key funnels through the backend's
//! atomic create-if-absent lock primitive, so two acquisitions of the same
//! key can never both succeed.
//!
//! Item existence and lock state are orthogonal: a key may exist unlocked,
//! exist locked, or not exist (in which case it can only be locked as new).
//! An item comes into existence on the first `save` under a lock acquired by
//! `lock_new`, is mutated only under its lock, and is never deleted short of
//! a full [`Store::wipe`].

use core::marker::PhantomData;
use vstd::prelude::*;
use vstd::string::*;
use vstd::utf8::*;

use crate::backend::{LockRecordModel, MemoryBackend};
use crate::errors::StorageError;
use crate::item::StorageItem;
use crate::token::LockToken;

verus! {

/// The advisory highest-seen hint after an operation touches `id`.
pub open spec fn bumped(highest: Option<u64>, id: u64) -> Option<u64> {
    match highest {
        None => Some(id),
        Some(h) => if h < id {
            Some(id)
        } else {
            Some(h)
        },
    }
}

/// The token bound after one more token is handed out (it saturates).
pub open spec fn next_bound(bound: u64) -> u64 {
    if bound < u64::MAX {
        (bound + 1) as u64
    } else {
        u64::MAX
    }
}

/// The outcome of locking an existing item.
pub enum LockResult<T> {
    /// The lock was acquired; the stored item comes with the token.
    Success { lock: LockToken, item: T },
    /// Someone else holds the key; contention, not a fault.
    AlreadyLocked { holder: String },
}

/// The outcome of locking a key as a new item.
pub enum LockNewResult<T> {
    /// The key was reserved; the fresh item is not persisted until saved.
    Success { lock: LockToken, item: T },
    /// Someone else holds the key; contention, not a fault.
    AlreadyLocked { holder: String },
    /// The key already holds an item; nothing was locked.
    AlreadyExists,
}

impl<T> LockResult<T> {
    /// Unwraps the success case; contention becomes an error value.
    pub fn success(self) -> (r: Result<(LockToken, T), StorageError>)
        ensures
            match self {
                LockResult::Success { lock, item } => r matches Ok(p) && p.0 == lock && p.1
                    == item,
                LockResult::AlreadyLocked { holder } => r matches Err(e) && e == (
                StorageError::AlreadyLocked { holder }),
            },
    {
        match self {
            LockResult::Success { lock, item } => Ok((lock, item)),
            LockResult::AlreadyLocked { holder } => Err(StorageError::AlreadyLocked { holder }),
        }
    }
}

impl<T> LockNewResult<T> {
    /// Unwraps the success case; contention and occupation become error
    /// values.
    pub fn success(self) -> (r: Result<(LockToken, T), StorageError>)
        ensures
            match self {
                LockNewResult::Success { lock, item } => r matches Ok(p) && p.0 == lock && p.1
                    == item,
                LockNewResult::AlreadyLocked { holder } => r matches Err(e) && e == (
                StorageError::AlreadyLocked { holder }),
                LockNewResult::AlreadyExists => r matches Err(e) && e is AlreadyExists,
            },
    {
        match self {
            LockNewResult::Success { lock, item } => Ok((lock, item)),
            LockNewResult::AlreadyLocked { holder } => Err(
                StorageError::AlreadyLocked { holder },
            ),
            LockNewResult::AlreadyExists => Err(StorageError::AlreadyExists),
        }
    }
}

/// A lock-protected item store over the in-memory backend.
#[verifier::reject_recursive_types(T)]
pub struct Store<T> {
    backend: MemoryBackend,
    highest: Option<u64>,
    item_kind: PhantomData<T>,
}

/// Compares two strings character for character.
fn str_eq(a: &str, b: &str) -> (r: bool)
    ensures
        r == (a@ == b@),
{
    let ab = a.as_bytes();
    let bb = b.as_bytes();
    if ab.len() != bb.len() {
        proof {
            if a@ == b@ {
                assert(ab@ == bb@);
            }
        }
        return false;
    }
    let n = ab.len();
    let mut i: usize = 0;
    while i < n
        invariant
            0 <= i <= n,
            n == ab@.len() == bb@.len(),
            ab@ == encode_utf8(a@),
            bb@ == encode_utf8(b@),
            forall|j: int| 0 <= j < i ==> ab@[j] == bb@[j],
        decreases n - i,
    {
        if ab[i] != bb[i] {
            proof {
                if a@ == b@ {
                    assert(ab@ == bb@);
                }
            }
            return false;
        }
        i = i + 1;
    }
    proof {
        assert(ab@ =~= bb@);
        encode_utf8_decode_utf8(a@);
        encode_utf8_decode_utf8(b@);
    }
    true
}

impl<T: StorageItem> Store<T> {
    /// The stored bytes, per key.
    pub closed spec fn items(self) -> Map<u64, Seq<u8>> {
        self.backend.item_map()
    }

    /// The occupied keys, in the stable enumeration order scans follow.
    pub closed spec fn key_seq(self) -> Seq<u64> {
        self.backend.key_seq()
    }

    /// The live lock records, per key.
    pub closed spec fn locks(self) -> Map<u64, LockRecordModel> {
        self.backend.lock_map()
    }

    /// The bound under which all raw token values handed out so far lie
    /// (until it saturates).
    pub closed spec fn token_bound(self) -> u64 {
        self.backend.token_bound()
    }

    /// The advisory highest-seen identifier hint.
    pub closed spec fn highest(self) -> Option<u64> {
        self.highest
    }

    /// Well-formedness: the backend's tables are sound and every stored byte
    /// run decodes to an item, so reads never fail on the store's own data.
    pub closed spec fn wf(self) -> bool {
        &&& self.backend.wf()
        &&& forall|k: u64|
            #[trigger] self.items().contains_key(k) ==> T::decode_view(self.items()[k]) is Some
    }

    /// Does `token` prove current ownership of `id`'s lock?
    pub open spec fn token_matches(self, id: u64, token_value: u64) -> bool {
        self.locks().contains_key(id) && self.locks()[id].token == token_value
    }

    /// The key order never repeats a key and carries exactly the occupied
    /// keys.
    pub proof fn lemma_key_seq(self)
        requires
            self.wf(),
        ensures
            forall|i: int, j: int|
                0 <= i < j < self.key_seq().len() ==> self.key_seq()[i] != self.key_seq()[j],
            forall|i: int|
                0 <= i < self.key_seq().len() ==> self.items().contains_key(
                    #[trigger] self.key_seq()[i],
                ),
            forall|k: u64| self.items().contains_key(k) ==> #[trigger] self.key_seq().contains(k),
    {
        self.backend.lemma_key_seq();
    }

    /// An empty store: no items, no locks, no hint.
    pub fn new() -> (r: Store<T>)
        ensures
            r.wf(),
            r.items() == Map::<u64, Seq<u8>>::empty(),
            r.key_seq() == Seq::<u64>::empty(),
            r.locks() == Map::<u64, LockRecordModel>::empty(),
            r.token_bound() == 0,
            r.highest() is None,
    {
        Store { backend: MemoryBackend::new(), highest: None, item_kind: PhantomData }
    }

    /// Folds `id` into the advisory highest-seen hint.
    fn touch(&mut self, id: u64)
        ensures
            final(self).backend == old(self).backend,
            final(self).highest == bumped(old(self).highest, id),
    {
        self.highest = match self.highest {
            None => Some(id),
            Some(h) => if h < id {
                Some(id)
            } else {
                Some(h)
            },
        };
    }

    /// Exactly what `lock(id, who)` may answer, and how the lock table moves,
    /// as a relation between the pre-state `pre`, the post-state `post`, and
    /// the outcome `r`. The outcome is a function of the pre-state: which arm
    /// holds is decided by `id`'s item existence and lock state alone.
    pub open spec fn lock_post(
        pre: Store<T>,
        post: Store<T>,
        id: u64,
        who: Seq<char>,
        r: Result<LockResult<T>, StorageError>,
    ) -> bool {
        match r {
            Err(e) => {
                &&& e is NotFound
                &&& !pre.items().contains_key(id)
                &&& !pre.locks().contains_key(id)
                &&& post.locks() == pre.locks()
                &&& post.token_bound() == pre.token_bound()
            },
            Ok(LockResult::AlreadyLocked { holder }) => {
                &&& pre.locks().contains_key(id)
                &&& holder@ == pre.locks()[id].holder
                &&& post.locks() == pre.locks()
                &&& post.token_bound() == pre.token_bound()
            },
            Ok(LockResult::Success { lock, item }) => {
                &&& pre.items().contains_key(id)
                &&& !pre.locks().contains_key(id)
                &&& T::decode_view(pre.items()[id]) == Some(item@)
                &&& lock.spec_value() == pre.token_bound()
                &&& post.locks() == pre.locks().insert(
                    id,
                    LockRecordModel { holder: who, token: lock.spec_value() },
                )
                &&& post.token_bound() == next_bound(pre.token_bound())
            },
        }
    }

    /// Locks an existing item for writing.
    ///
    /// A key locked by anyone answers `AlreadyLocked` (even while a creation
    /// under `lock_new` is still unsaved); an unlocked key without an item is
    /// `NotFound`; otherwise the lock is acquired and the stored item
    /// returned with a fresh token.
    pub fn lock(&mut self, id: u64, who: &str) -> (r: Result<LockResult<T>, StorageError>)
        requires
            old(self).wf(),
        ensures
            final(self).wf(),
            final(self).items() == old(self).items(),
            final(self).key_seq() == old(self).key_seq(),
            final(self).highest() == bumped(old(self).highest(), id),
            Store::lock_post(*old(self), *final(self), id, who@, r),
    {
        self.touch(id);
        let locked_holder: Option<String> = match self.backend.read_lock_record(id) {
            Some(record) => Some(String::from_str(record.holder())),
            None => None,
        };
        if let Some(holder) = locked_holder {
            return Ok(LockResult::AlreadyLocked { holder });
        }
        let item: T = match self.backend.read(id) {
            None => {
                return Err(StorageError::NotFound);
            },
            Some(bytes) => match T::deserialize(bytes.as_slice()) {
                Ok(item) => item,
                Err(e) => {
                    proof {
                        assert(false);
                    }
                    return Err(e);
                },
            },
        };
        match self.backend.try_acquire_lock_record(id, who) {
            Some(lock) => Ok(LockResult::Success { lock, item }),
            None => {
                proof {
                    assert(false);
                }
                Err(StorageError::BackendUnavailable)
            },
        }
    }

    /// Reserves a key for a brand-new item.
    ///
    /// An occupied key answers `AlreadyExists` without locking; a key locked
    /// by anyone (a concurrent creation included) answers `AlreadyLocked`;
    /// otherwise the key is reserved atomically and a freshly
    /// default-constructed item returned. Nothing is persisted until the
    /// following `save`.
    /// Exactly what `lock_new(id, who)` may answer, as a relation between
    /// pre-state, post-state and outcome. It never fails outright; which arm
    /// holds is decided by `id`'s item existence and lock state alone, with
    /// occupation checked first.
    pub open spec fn lock_new_post(
        pre: Store<T>,
        post: Store<T>,
        id: u64,
        who: Seq<char>,
        r: Result<LockNewResult<T>, StorageError>,
    ) -> bool {
        match r {
            Err(_) => false,
            Ok(LockNewResult::AlreadyExists) => {
                &&& pre.items().contains_key(id)
                &&& post.locks() == pre.locks()
                &&& post.token_bound() == pre.token_bound()
            },
            Ok(LockNewResult::AlreadyLocked { holder }) => {
                &&& !pre.items().contains_key(id)
                &&& pre.locks().contains_key(id)
                &&& holder@ == pre.locks()[id].holder
                &&& post.locks() == pre.locks()
                &&& post.token_bound() == pre.token_bound()
            },
            Ok(LockNewResult::Success { lock, item }) => {
                &&& !pre.items().contains_key(id)
                &&& !pre.locks().contains_key(id)
                &&& item@ == T::default_view()
                &&& lock.spec_value() == pre.token_bound()
                &&& post.locks() == pre.locks().insert(
                    id,
                    LockRecordModel { holder: who, token: lock.spec_value() },
                )
                &&& post.token_bound() == next_bound(pre.token_bound())
            },
        }
    }

    pub fn lock_new(&mut self, id: u64, who: &str) -> (r: Result<LockNewResult<T>, StorageError>)
        requires
            old(self).wf(),
        ensures
            final(self).wf(),
            final(self).items() == old(self).items(),
            final(self).key_seq() == old(self).key_seq(),
            final(self).highest() == bumped(old(self).highest(), id),
            Store::lock_new_post(*old(self), *final(self), id, who@, r),
    {
        self.touch(id);
        if self.backend.exists_id(id) {
            return Ok(LockNewResult::AlreadyExists);
        }
        let locked_holder: Option<String> = match self.backend.read_lock_record(id) {
            Some(record) => Some(String::from_str(record.holder())),
            None => None,
        };
        if let Some(holder) = locked_holder {
            return Ok(LockNewResult::AlreadyLocked { holder });
        }
        match self.backend.try_acquire_lock_record(id, who) {
            Some(lock) => Ok(LockNewResult::Success { lock, item: T::new_item() }),
            None => {
                proof {
                    assert(false);
                }
                Err(StorageError::BackendUnavailable)
            },
        }
    }

    /// Writes `item` through to the backend, under the lock `token` proves.
    ///
    /// Fails with `LockMismatch` — mutating nothing — unless `token` is
    /// exactly the credential of `id`'s current lock record. Saving never
    /// releases the lock.
    /// Exactly what `save(id, item, token)` may answer: success exactly where
    /// the token proves current ownership, and then a write-through of the
    /// item's encoding; otherwise `LockMismatch` with nothing mutated.
    pub open spec fn save_post(
        pre: Store<T>,
        post: Store<T>,
        id: u64,
        item_view: T::V,
        token_value: u64,
        r: Result<(), StorageError>,
    ) -> bool {
        match r {
            Ok(_) => {
                &&& pre.token_matches(id, token_value)
                &&& T::view_wf(item_view)
                &&& post.items() == pre.items().insert(id, T::encode_view(item_view))
                &&& post.key_seq() == if pre.items().contains_key(id) {
                    pre.key_seq()
                } else {
                    pre.key_seq().push(id)
                }
            },
            Err(e) => {
                &&& e is LockMismatch
                &&& !pre.token_matches(id, token_value)
                &&& post.items() == pre.items()
                &&& post.key_seq() == pre.key_seq()
            },
        }
    }

    pub fn save(&mut self, id: u64, item: &T, token: &LockToken) -> (r: Result<
        (),
        StorageError,
    >)
        requires
            old(self).wf(),
        ensures
            final(self).wf(),
            final(self).locks() == old(self).locks(),
            final(self).token_bound() == old(self).token_bound(),
            final(self).highest() == bumped(old(self).highest(), id),
            Store::save_post(*old(self), *final(self), id, item@, token.spec_value(), r),
    {
        self.touch(id);
        let verified = match self.backend.read_lock_record(id) {
            Some(record) => record.token_value() == token.value(),
            None => false,
        };
        if !verified {
            return Err(StorageError::LockMismatch);
        }
        let bytes = match item.serialize() {
            Ok(bytes) => bytes,
            Err(_) => {
                proof {
                    assert(false);
                }
                return Err(StorageError::CodecError);
            },
        };
        proof {
            T::lemma_codec_round_trip(item@);
        }
        self.backend.write(id, bytes);
        Ok(())
    }

    /// Releases `id`'s lock, if `token` proves ownership; a stale or wrong
    /// token fails with `LockMismatch` and mutates nothing.
    pub fn unlock(&mut self, id: u64, token: LockToken) -> (r: Result<(), StorageError>)
        requires
            old(self).wf(),
        ensures
            final(self).wf(),
            final(self).items() == old(self).items(),
            final(self).key_seq() == old(self).key_seq(),
            final(self).token_bound() == old(self).token_bound(),
            final(self).highest() == bumped(old(self).highest(), id),
            match r {
                Ok(_) => {
                    &&& old(self).token_matches(id, token.spec_value())
                    &&& final(self).locks() == old(self).locks().remove(id)
                },
                Err(e) => {
                    &&& e is LockMismatch
                    &&& !old(self).token_matches(id, token.spec_value())
                    &&& final(self).locks() == old(self).locks()
                },
            },
    {
        self.touch(id);
        if self.backend.clear_lock_record_if_token_matches(id, &token) {
            Ok(())
        } else {
            Err(StorageError::LockMismatch)
        }
    }

    /// Unconditionally removes any lock on `id`, regardless of holder or
    /// token: administrative recovery after a holder crash. Unsafe if the
    /// original holder is still active; never fails, even where no lock
    /// exists.
    pub fn force_unlock(&mut self, id: u64) -> (r: Result<(), StorageError>)
        requires
            old(self).wf(),
        ensures
            final(self).wf(),
            final(self).items() == old(self).items(),
            final(self).key_seq() == old(self).key_seq(),
            final(self).token_bound() == old(self).token_bound(),
            final(self).highest() == bumped(old(self).highest(), id),
            r is Ok,
            final(self).locks() == old(self).locks().remove(id),
    {
        self.touch(id);
        self.backend.clear_lock_record(id);
        Ok(())
    }

    /// Does `id` hold an item? Independent of lock state.
    pub fn exists_id(&self, id: u64) -> (r: Result<bool, StorageError>)
        requires
            self.wf(),
        ensures
            r matches Ok(b) && b == self.items().contains_key(id),
    {
        Ok(self.backend.exists_id(id))
    }

    /// Is `token` currently the credential of `id`'s lock? Never fails:
    /// absence of a lock and a mismatched token both answer `false`.
    pub fn verify_lock(&self, id: u64, token: &LockToken) -> (r: Result<bool, StorageError>)
        requires
            self.wf(),
        ensures
            r matches Ok(b) && b == self.token_matches(id, token.spec_value()),
    {
        let verified = match self.backend.read_lock_record(id) {
            Some(record) => record.token_value() == token.value(),
            None => false,
        };
        Ok(verified)
    }

    /// The current lock holder of `id`, for operational tooling.
    pub fn describe_lock(&self, id: u64) -> (r: Option<String>)
        requires
            self.wf(),
        ensures
            match r {
                Some(holder) => self.locks().contains_key(id) && holder@ == self.locks()[id].holder,
                None => !self.locks().contains_key(id),
            },
    {
        match self.backend.read_lock_record(id) {
            Some(record) => Some(String::from_str(record.holder())),
            None => None,
        }
    }

    /// A human-readable rendering of `id`'s lock state: the holder's name,
    /// or a fixed marker when unlocked.
    pub fn display_lock(&self, id: u64) -> (r: Result<String, StorageError>)
        requires
            self.wf(),
        ensures
            r matches Ok(s) && s@ == if self.locks().contains_key(id) {
                self.locks()[id].holder
            } else {
                "no lock"@
            },
    {
        match self.describe_lock(id) {
            Some(holder) => Ok(holder),
            None => Ok(String::from_str("no lock")),
        }
    }

    /// Where a scan starting at `cursor` begins in the key order.
    pub open spec fn scan_start(self, cursor: Option<u64>) -> int {
        match cursor {
            None => 0,
            Some(c) => if c <= self.key_seq().len() {
                c as int
            } else {
                self.key_seq().len() as int
            },
        }
    }

    /// Where a page of `page_size` from `start` ends in the key order.
    pub open spec fn scan_end(self, start: int, page_size: Option<usize>) -> int {
        match page_size {
            None => self.key_seq().len() as int,
            Some(p) => if start + p <= self.key_seq().len() {
                start + p
            } else {
                self.key_seq().len() as int
            },
        }
    }

    /// One page of occupied keys, in the stable enumeration order.
    ///
    /// `cursor = None` starts from the beginning; the returned cursor is
    /// `None` exactly when enumeration is complete, and otherwise resumes
    /// where this page ended. A cursor beyond the end yields an empty, final
    /// page, so a scan chained through returned cursors terminates on a
    /// quiescent keyspace (a `page_size` of zero makes no progress and is the
    /// caller's affair).
    pub fn scan_ids(&self, cursor: Option<u64>, page_size: Option<usize>) -> (r: Result<
        (Vec<u64>, Option<u64>),
        StorageError,
    >)
        requires
            self.wf(),
        ensures
            r matches Ok(page) && {
                let start = self.scan_start(cursor);
                let end = self.scan_end(start, page_size);
                &&& page.0@ == self.key_seq().subrange(start, end)
                &&& page.1 == if end == self.key_seq().len() {
                    None::<u64>
                } else {
                    Some(end as u64)
                }
            },
    {
        Ok(self.backend.list_page(cursor, page_size))
    }

    /// The advisory highest identifier any operation has touched. A cheap
    /// hint for allocation start points; never authoritative.
    pub fn metadata_highest_seen_id(&self) -> (r: Option<u64>)
        ensures
            r == self.highest(),
    {
        self.highest
    }

    /// Irreversibly removes every item and every lock record, for test and
    /// reset use only. Refused without the exact confirmation phrase.
    pub fn wipe(&mut self, confirmation: &str) -> (r: Result<(), StorageError>)
        requires
            old(self).wf(),
        ensures
            final(self).wf(),
            if confirmation@ == "Yes, I know what I am doing!"@ {
                &&& r is Ok
                &&& final(self).items() == Map::<u64, Seq<u8>>::empty()
                &&& final(self).key_seq() == Seq::<u64>::empty()
                &&& final(self).locks() == Map::<u64, LockRecordModel>::empty()
                &&& final(self).token_bound() == 0
                &&& final(self).highest() is None
            } else {
                &&& r matches Err(e) && e is ConfirmationRequired
                &&& *final(self) == *old(self)
            },
    {
        if str_eq(confirmation, "Yes, I know what I am doing!") {
            self.backend.delete_all();
            self.highest = None;
            Ok(())
        } else {
            Err(StorageError::ConfirmationRequired)
        }
    }

    /// Idempotent provisioning of the backend-side container; safe on every
    /// startup. The in-memory backend always has its container, so this is
    /// a verified no-op.
    pub fn ensure_storage_exists(&self) -> (r: Result<(), StorageError>)
        ensures
            r is Ok,
    {
        self.backend.ensure_container_exists();
        Ok(())
    }
}

} // verus!

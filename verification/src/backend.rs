//! The in-memory backend adapter: physical storage of item bytes and lock
//! records, keyed by identifier.
//!
//! The whole lock-safety argument of the store rests on one primitive here:
//! [`MemoryBackend::try_acquire_lock_record`] is an atomic create-if-absent
//! for a key's lock record. Everything else is plain keyed byte storage.
//!
//! Lock records and item bytes are orthogonal: a key may hold bytes while
//! unlocked, hold a lock record while no bytes exist yet (a creation in
//! progress), or both.

use vstd::prelude::*;
use vstd::string::*;

use crate::kv;
use crate::kv::{keys_of, kv_find, kv_get, kv_remove, kv_set, map_of, unique_keys, view_map};
use crate::token::LockToken;

verus! {

/// The persisted marker of which holder currently owns a key's lock.
#[derive(Debug)]
pub struct LockRecord {
    holder: String,
    token: u64,
}

/// The mathematical content of a [`LockRecord`].
#[verifier::ext_equal]
pub struct LockRecordModel {
    pub holder: Seq<char>,
    pub token: u64,
}

impl View for LockRecord {
    type V = LockRecordModel;

    closed spec fn view(&self) -> LockRecordModel {
        LockRecordModel { holder: self.holder@, token: self.token }
    }
}

impl LockRecord {
    /// The identity that acquired the lock.
    pub fn holder(&self) -> (r: &str)
        ensures
            r@ == self@.holder,
    {
        self.holder.as_str()
    }

    /// The raw credential value the record was created with.
    pub fn token_value(&self) -> (r: u64)
        ensures
            r == self@.token,
    {
        self.token
    }
}

/// Keyed storage of item bytes and lock records, held in memory.
pub struct MemoryBackend {
    items: Vec<(u64, Vec<u8>)>,
    locks: Vec<(u64, LockRecord)>,
    next_token: u64,
}

impl MemoryBackend {
    /// Internal shape: keys are pairwise distinct in both tables.
    pub closed spec fn wf(self) -> bool {
        unique_keys(self.items@) && unique_keys(self.locks@)
    }

    /// The stored bytes, per key.
    pub closed spec fn item_map(self) -> Map<u64, Seq<u8>> {
        view_map(map_of(self.items@))
    }

    /// The keys holding bytes, in enumeration (insertion) order.
    pub closed spec fn key_seq(self) -> Seq<u64> {
        keys_of(self.items@)
    }

    /// The live lock records, per key.
    pub closed spec fn lock_map(self) -> Map<u64, LockRecordModel> {
        view_map(map_of(self.locks@))
    }

    /// All raw token values handed out so far lie below this bound (until the
    /// bound saturates).
    pub closed spec fn token_bound(self) -> u64 {
        self.next_token
    }

    /// The key order carries exactly the stored keys, each once.
    pub proof fn lemma_key_seq(self)
        requires
            self.wf(),
        ensures
            forall|i: int, j: int|
                0 <= i < j < self.key_seq().len() ==> self.key_seq()[i] != self.key_seq()[j],
            forall|i: int|
                0 <= i < self.key_seq().len() ==> self.item_map().contains_key(
                    #[trigger] self.key_seq()[i],
                ),
            forall|k: u64|
                self.item_map().contains_key(k) ==> #[trigger] self.key_seq().contains(k),
    {
        assert forall|i: int|
            0 <= i < self.key_seq().len() implies self.item_map().contains_key(
            #[trigger] self.key_seq()[i],
        ) by {
            kv::lemma_key_at(self.items@, i);
        }
        assert forall|k: u64| self.item_map().contains_key(k) implies #[trigger] self.key_seq()
            .contains(k) by {
            kv::lemma_contains(self.items@, k);
            let i = choose|i: int| 0 <= i < self.items@.len() && (#[trigger] self.items@[i]).0 == k;
            assert(self.key_seq()[i] == k);
        }
    }

    /// A backend holding nothing at all.
    pub fn new() -> (r: MemoryBackend)
        ensures
            r.wf(),
            r.item_map() == Map::<u64, Seq<u8>>::empty(),
            r.key_seq() == Seq::<u64>::empty(),
            r.lock_map() == Map::<u64, LockRecordModel>::empty(),
            r.token_bound() == 0,
    {
        let r = MemoryBackend { items: Vec::new(), locks: Vec::new(), next_token: 0 };
        proof {
            kv::lemma_empty::<Vec<u8>>();
            kv::lemma_empty::<LockRecord>();
            kv::lemma_view_empty::<Vec<u8>>();
            kv::lemma_view_empty::<LockRecord>();
            assert(r.key_seq() =~= Seq::<u64>::empty());
        }
        r
    }

    /// The stored bytes under `id`, if any.
    pub fn read(&self, id: u64) -> (r: Option<&Vec<u8>>)
        requires
            self.wf(),
        ensures
            match r {
                Some(bytes) => self.item_map().contains_key(id) && bytes@ == self.item_map()[id],
                None => !self.item_map().contains_key(id),
            },
    {
        kv_get(&self.items, id)
    }

    /// Stores `bytes` under `id`, overwriting in place or appending a new key
    /// at the end of the enumeration order.
    pub fn write(&mut self, id: u64, bytes: Vec<u8>)
        requires
            old(self).wf(),
        ensures
            final(self).wf(),
            final(self).item_map() == old(self).item_map().insert(id, bytes@),
            final(self).key_seq() == if old(self).item_map().contains_key(id) {
                old(self).key_seq()
            } else {
                old(self).key_seq().push(id)
            },
            final(self).lock_map() == old(self).lock_map(),
            final(self).token_bound() == old(self).token_bound(),
    {
        let ghost pre = map_of(self.items@);
        kv_set(&mut self.items, id, bytes);
        proof {
            kv::lemma_view_insert(pre, id, bytes);
            assert(pre.contains_key(id) == old(self).item_map().contains_key(id));
        }
    }

    /// Does `id` hold bytes?
    pub fn exists_id(&self, id: u64) -> (r: bool)
        requires
            self.wf(),
        ensures
            r == self.item_map().contains_key(id),
    {
        match kv_find(&self.items, id) {
            Some(_) => true,
            None => false,
        }
    }

    /// One page of keys from the enumeration order: at most `limit` keys
    /// starting at `cursor` (the beginning where `cursor` is `None`), and the
    /// cursor to resume from, `None` exactly when the enumeration is
    /// complete. A cursor beyond the end yields an empty, final page.
    pub fn list_page(&self, cursor: Option<u64>, limit: Option<usize>) -> (r: (
        Vec<u64>,
        Option<u64>,
    ))
        ensures
            ({
                let len = self.key_seq().len() as int;
                let start = match cursor {
                    None => 0int,
                    Some(c) => if c <= len {
                        c as int
                    } else {
                        len
                    },
                };
                let end = match limit {
                    None => len,
                    Some(p) => if start + p <= len {
                        start + p
                    } else {
                        len
                    },
                };
                &&& r.0@ == self.key_seq().subrange(start, end)
                &&& r.1 == if end == len {
                    None::<u64>
                } else {
                    Some(end as u64)
                }
            }),
    {
        let len = self.items.len();
        let start: usize = match cursor {
            None => 0,
            Some(c) => if c <= len as u64 {
                c as usize
            } else {
                len
            },
        };
        let end: usize = match limit {
            None => len,
            Some(p) => if p <= len - start {
                start + p
            } else {
                len
            },
        };
        let mut ids: Vec<u64> = Vec::new();
        let mut i: usize = start;
        while i < end
            invariant
                start <= i <= end <= self.key_seq().len(),
                ids@ == self.key_seq().subrange(start as int, i as int),
            decreases end - i,
        {
            ids.push(self.items[i].0);
            proof {
                assert(ids@ =~= self.key_seq().subrange(start as int, i + 1));
            }
            i = i + 1;
        }
        let next = if end == len {
            None
        } else {
            Some(end as u64)
        };
        (ids, next)
    }

    /// Makes sure the backing container exists. The in-memory tables always
    /// do, so there is nothing to provision and nothing can fail; the method
    /// stands so that provisioning has its place at the adapter boundary.
    pub fn ensure_container_exists(&self) {
    }

    /// Removes every item and every lock record, and restarts the token
    /// counter: a full reset.
    pub fn delete_all(&mut self)
        ensures
            final(self).wf(),
            final(self).item_map() == Map::<u64, Seq<u8>>::empty(),
            final(self).key_seq() == Seq::<u64>::empty(),
            final(self).lock_map() == Map::<u64, LockRecordModel>::empty(),
            final(self).token_bound() == 0,
    {
        self.items.clear();
        self.locks.clear();
        self.next_token = 0;
        proof {
            kv::lemma_empty::<Vec<u8>>();
            kv::lemma_empty::<LockRecord>();
            kv::lemma_view_empty::<Vec<u8>>();
            kv::lemma_view_empty::<LockRecord>();
            assert(self.key_seq() =~= Seq::<u64>::empty());
        }
    }

    /// Atomic create-if-absent of a key's lock record: the one primitive the
    /// at-most-one-holder argument rests on. Returns a fresh token exactly
    /// where no record existed; an existing record is left untouched.
    pub fn try_acquire_lock_record(&mut self, id: u64, holder: &str) -> (r: Option<LockToken>)
        requires
            old(self).wf(),
        ensures
            final(self).wf(),
            final(self).item_map() == old(self).item_map(),
            final(self).key_seq() == old(self).key_seq(),
            match r {
                None => old(self).lock_map().contains_key(id) && *final(self) == *old(self),
                Some(token) => {
                    &&& !old(self).lock_map().contains_key(id)
                    &&& token.spec_value() == old(self).token_bound()
                    &&& final(self).lock_map() == old(self).lock_map().insert(
                        id,
                        LockRecordModel { holder: holder@, token: token.spec_value() },
                    )
                    &&& final(self).token_bound() == if old(self).token_bound() < u64::MAX {
                        (old(self).token_bound() + 1) as u64
                    } else {
                        u64::MAX
                    }
                },
            },
    {
        match kv_find(&self.locks, id) {
            Some(_) => None,
            None => {
                let ghost pre = map_of(self.locks@);
                let value = self.next_token;
                if self.next_token < u64::MAX {
                    self.next_token = self.next_token + 1;
                }
                let record = LockRecord { holder: String::from_str(holder), token: value };
                proof {
                    kv::lemma_view_insert(pre, id, record);
                }
                kv_set(&mut self.locks, id, record);
                Some(LockToken::new(value))
            },
        }
    }

    /// The current lock record under `id`, if any.
    pub fn read_lock_record(&self, id: u64) -> (r: Option<&LockRecord>)
        requires
            self.wf(),
        ensures
            match r {
                Some(record) => self.lock_map().contains_key(id) && record@ == self.lock_map()[id],
                None => !self.lock_map().contains_key(id),
            },
    {
        kv_get(&self.locks, id)
    }

    /// Unconditionally removes any lock record under `id`; removing a
    /// nonexistent record is a no-op.
    pub fn clear_lock_record(&mut self, id: u64)
        requires
            old(self).wf(),
        ensures
            final(self).wf(),
            final(self).item_map() == old(self).item_map(),
            final(self).key_seq() == old(self).key_seq(),
            final(self).lock_map() == old(self).lock_map().remove(id),
            final(self).token_bound() == old(self).token_bound(),
    {
        let ghost pre = map_of(self.locks@);
        kv_remove(&mut self.locks, id);
        proof {
            kv::lemma_view_remove(pre, id);
        }
    }

    /// Removes the lock record under `id` only where it carries exactly the
    /// presented token; reports whether it did.
    pub fn clear_lock_record_if_token_matches(&mut self, id: u64, token: &LockToken) -> (r: bool)
        requires
            old(self).wf(),
        ensures
            final(self).wf(),
            final(self).item_map() == old(self).item_map(),
            final(self).key_seq() == old(self).key_seq(),
            final(self).token_bound() == old(self).token_bound(),
            r == (old(self).lock_map().contains_key(id) && old(self).lock_map()[id].token
                == token.spec_value()),
            r ==> final(self).lock_map() == old(self).lock_map().remove(id),
            !r ==> *final(self) == *old(self),
    {
        let matches_here = match kv_get(&self.locks, id) {
            Some(record) => record.token_value() == token.value(),
            None => false,
        };
        if matches_here {
            let ghost pre = map_of(self.locks@);
            kv_remove(&mut self.locks, id);
            proof {
                kv::lemma_view_remove(pre, id);
            }
            true
        } else {
            false
        }
    }
}

} // verus!

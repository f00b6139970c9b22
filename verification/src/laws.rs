//! Store-wide laws, proved once and for all states.
//!
//! Each lemma here takes the outcome facts of the operations it speaks about
//! (their contracts, restated as the `*_post` relations of [`Store`]) and
//! derives what a caller may rely on across calls. Operations are
//! linearizable — every race on a key funnels through the backend's atomic
//! create-if-absent primitive — so "concurrently racing" calls are exactly
//! two calls in either order, and the lemmas quantify over arbitrary states.

use vstd::prelude::*;

use crate::errors::StorageError;
use crate::item::StorageItem;
use crate::store::{LockNewResult, LockResult, Store};

verus! {

/// At most one success among racing creations: once a `lock_new(id)` has
/// succeeded, the `lock_new(id)` linearized next — whoever calls it —
/// observes `AlreadyLocked` or `AlreadyExists`, never a second `Success`.
pub proof fn lemma_lock_new_race_excludes_second<T: StorageItem>(
    s0: Store<T>,
    s1: Store<T>,
    s2: Store<T>,
    id: u64,
    who1: Seq<char>,
    who2: Seq<char>,
    r1: Result<LockNewResult<T>, StorageError>,
    r2: Result<LockNewResult<T>, StorageError>,
)
    requires
        Store::lock_new_post(s0, s1, id, who1, r1),
        r1 matches Ok(first) && first is Success,
        Store::lock_new_post(s1, s2, id, who2, r2),
    ensures
        r2 matches Ok(second) && (second is AlreadyLocked || second is AlreadyExists),
{
}

/// What was saved is what is read back: after a successful
/// `save(id, item, token)`, a later `lock(id, who)` that finds the key's
/// bytes untouched and the key unlocked succeeds and hands back an item
/// whose content equals the saved one — the codec round-trip loses nothing.
pub proof fn lemma_save_then_lock_returns_saved_item<T: StorageItem>(
    s0: Store<T>,
    s1: Store<T>,
    sp: Store<T>,
    sq: Store<T>,
    id: u64,
    item_view: T::V,
    token_value: u64,
    who: Seq<char>,
    r_save: Result<(), StorageError>,
    r_lock: Result<LockResult<T>, StorageError>,
)
    requires
        Store::save_post(s0, s1, id, item_view, token_value, r_save),
        r_save is Ok,
        sp.items().contains_key(id),
        sp.items()[id] == s1.items()[id],
        !sp.locks().contains_key(id),
        Store::lock_post(sp, sq, id, who, r_lock),
    ensures
        r_lock matches Ok(outcome) && outcome matches LockResult::Success { lock: _, item }
            && item@ == item_view,
{
    T::lemma_codec_round_trip(item_view);
}

/// A released token is dead: after `unlock(id, token)` succeeds, a `save`
/// presenting that same token fails with `LockMismatch` and mutates nothing.
pub proof fn lemma_stale_token_save_fails<T: StorageItem>(
    s0: Store<T>,
    s1: Store<T>,
    s2: Store<T>,
    id: u64,
    token_value: u64,
    item_view: T::V,
    r_save: Result<(), StorageError>,
)
    requires
        s0.token_matches(id, token_value),
        s1.locks() == s0.locks().remove(id),
        Store::save_post(s1, s2, id, item_view, token_value, r_save),
    ensures
        r_save matches Err(e) && e is LockMismatch,
        s2.items() == s1.items(),
{
    assert(!s1.locks().contains_key(id));
}

/// Crash recovery works: `force_unlock(id)` leaves the key unlocked whatever
/// the prior holder was, and a subsequent `lock(id, who)` by anyone succeeds
/// wherever the key holds an item.
pub proof fn lemma_force_unlock_enables_lock<T: StorageItem>(
    s0: Store<T>,
    s1: Store<T>,
    s2: Store<T>,
    id: u64,
    who: Seq<char>,
    r_lock: Result<LockResult<T>, StorageError>,
)
    requires
        s0.items().contains_key(id),
        s1.items() == s0.items(),
        s1.locks() == s0.locks().remove(id),
        Store::lock_post(s1, s2, id, who, r_lock),
    ensures
        !s1.locks().contains_key(id),
        r_lock matches Ok(outcome) && outcome is Success,
{
}

/// The keys a chained scan delivers: the page starting at position `i`,
/// concatenated with every later page reached through the returned cursors.
pub open spec fn scan_concat<T: StorageItem>(s: Store<T>, i: int, p: usize) -> Seq<u64>
    decreases s.key_seq().len() - i,
    when 0 <= i <= s.key_seq().len() && p >= 1
{
    let end = s.scan_end(i, Some(p));
    if end >= s.key_seq().len() {
        s.key_seq().subrange(i, s.key_seq().len() as int)
    } else {
        s.key_seq().subrange(i, end) + scan_concat(s, end, p)
    }
}

/// A chained scan covers the tail of the key order it started in, exactly.
pub proof fn lemma_scan_covers_tail<T: StorageItem>(s: Store<T>, i: int, p: usize)
    requires
        s.wf(),
        0 <= i <= s.key_seq().len(),
        p >= 1,
    ensures
        scan_concat(s, i, p) == s.key_seq().subrange(i, s.key_seq().len() as int),
    decreases s.key_seq().len() - i,
{
    let len = s.key_seq().len() as int;
    let end = s.scan_end(i, Some(p));
    if end < len {
        lemma_scan_covers_tail(s, end, p);
        assert(s.key_seq().subrange(i, end) + s.key_seq().subrange(end, len) =~= s.key_seq()
            .subrange(i, len));
    }
}

/// A scan chained from the beginning with any positive page size enumerates
/// every key present at scan start exactly once (on a quiescent keyspace):
/// the pages concatenate to the whole key order, which repeats no key and
/// carries every occupied key.
pub proof fn lemma_scan_enumerates_each_key_once<T: StorageItem>(s: Store<T>, p: usize)
    requires
        s.wf(),
        p >= 1,
    ensures
        scan_concat(s, 0, p) == s.key_seq(),
        forall|i: int, j: int|
            0 <= i < j < s.key_seq().len() ==> s.key_seq()[i] != s.key_seq()[j],
        forall|k: u64| s.items().contains_key(k) ==> #[trigger] s.key_seq().contains(k),
        forall|i: int|
            0 <= i < s.key_seq().len() ==> s.items().contains_key(#[trigger] s.key_seq()[i]),
{
    lemma_scan_covers_tail(s, 0, p);
    assert(s.key_seq().subrange(0, s.key_seq().len() as int) =~= s.key_seq());
    s.lemma_key_seq();
}

} // verus!

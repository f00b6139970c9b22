//! Scenario drivers exercising the store end to end.
//!
//! [`SimpleExample`] walks one item through a lock–mutate–save–unlock round.
//! [`FullExample`] plays the full repertoire: signup under a caller-chosen
//! key, identifier collision, repeated modification, contention between two
//! sessions, crash recovery by force-unlock, auto-generated identifiers, lock
//! introspection, and a chained scan. Both are verified: the contracts state
//! exactly what each run leaves behind, and every "should not happen" branch
//! is proved unreachable rather than merely logged.

use vstd::pervasive::unreached;
use vstd::prelude::*;

use crate::backend::LockRecordModel;
use crate::errors::StorageError;
use crate::item::StorageItem;
use crate::store::{bumped, LockNewResult, LockResult, Store};
use crate::test_item::{TestItem, TestItemView};
use crate::token::LockToken;

verus! {

/// One lock–mutate–save–unlock round on a single item.
#[derive(Debug, Default)]
pub struct SimpleExample {}

impl SimpleExample {
    /// Takes the first auto-generated identifier, locks it (as new where the
    /// key is still empty), bumps the counter, sets the data string, saves,
    /// and unlocks. Contention surfaces as `AlreadyLocked`; nothing else can
    /// fail.
    pub fn run(&mut self, storage: &mut Store<TestItem>) -> (r: Result<(), StorageError>)
        requires
            old(storage).wf(),
            old(storage).items().contains_key(TestItem::next_id_of(None)) ==> (match TestItem::decode_view(
                old(storage).items()[TestItem::next_id_of(None)],
            ) {
                Some(v) => v.counter < u32::MAX,
                None => true,
            }),
        ensures
            final(storage).wf(),
            match r {
                Ok(_) => ({
                    let nid = TestItem::next_id_of(None);
                    let v0 = if old(storage).items().contains_key(nid) {
                        match TestItem::decode_view(old(storage).items()[nid]) {
                            Some(v) => v,
                            None => TestItem::default_view(),
                        }
                    } else {
                        TestItem::default_view()
                    };
                    &&& !old(storage).locks().contains_key(nid)
                    &&& final(storage).items() == old(storage).items().insert(
                        nid,
                        TestItem::encode_view(
                            TestItemView {
                                counter: (v0.counter + 1) as u32,
                                data: "some data"@,
                                secret: v0.secret,
                            },
                        ),
                    )
                    &&& final(storage).locks() == old(storage).locks()
                    &&& final(storage).key_seq() == if old(storage).items().contains_key(nid) {
                        old(storage).key_seq()
                    } else {
                        old(storage).key_seq().push(nid)
                    }
                }),
                Err(e) => ({
                    let nid = TestItem::next_id_of(None);
                    &&& old(storage).locks().contains_key(nid)
                    &&& e matches StorageError::AlreadyLocked { holder } && holder@ == old(
                        storage,
                    ).locks()[nid].holder
                    &&& final(storage).items() == old(storage).items()
                    &&& final(storage).locks() == old(storage).locks()
                    &&& final(storage).key_seq() == old(storage).key_seq()
                }),
            },
            final(storage).highest() == bumped(
                old(storage).highest(),
                TestItem::next_id_of(None),
            ),
    {
        let item_id = TestItem::generate_next_id(None);
        let occupied = match storage.exists_id(item_id) {
            Ok(b) => b,
            Err(_) => unreached(),
        };
        let (lock, mut item) = if occupied {
            match storage.lock(item_id, "OWNER_ID") {
                Ok(LockResult::Success { lock, item }) => (lock, item),
                Ok(LockResult::AlreadyLocked { holder }) => {
                    return Err(StorageError::AlreadyLocked { holder });
                },
                Err(_) => unreached(),
            }
        } else {
            match storage.lock_new(item_id, "OWNER_ID") {
                Ok(LockNewResult::Success { lock, item }) => (lock, item),
                Ok(LockNewResult::AlreadyLocked { holder }) => {
                    return Err(StorageError::AlreadyLocked { holder });
                },
                _ => unreached(),
            }
        };
        item.increment_counter();
        item.set_data("some data");
        match storage.save(item_id, &item, &lock) {
            Ok(_) => {},
            Err(_) => unreached(),
        }
        match storage.unlock(item_id, lock) {
            Ok(_) => {},
            Err(_) => unreached(),
        }
        proof {
            assert(storage.locks() =~= old(storage).locks());
        }
        Ok(())
    }
}

/// The full scenario walk: signup, collision, modification, contention,
/// crash recovery, auto-generated identifiers, introspection, and a scan.
#[derive(Debug, Default)]
pub struct FullExample {
    delay: u64,
}

impl FullExample {
    /// The configured observation pause, in seconds.
    pub closed spec fn spec_delay(self) -> u64 {
        self.delay
    }

    /// Sets the pause a runner may observe between the crash and its
    /// recovery. The library itself never sleeps; honoring the pause is the
    /// runner's affair.
    pub fn set_delay_in_seconds(&mut self, delay: u64)
        ensures
            final(self).spec_delay() == delay,
    {
        self.delay = delay;
    }

    /// Runs every scenario against a store of its own, starting from a wipe.
    ///
    /// The contract pins the complete outcome: the run cannot fail, and it
    /// leaves exactly the four keys below, all unlocked, with the stated
    /// contents.
    #[verifier::rlimit(60)]
    pub fn run(&mut self, storage: &mut Store<TestItem>) -> (r: Result<(), StorageError>)
        requires
            old(storage).wf(),
        ensures
            *final(self) == *old(self),
            final(storage).wf(),
            r is Ok,
            final(storage).key_seq() == seq![42u64, 1u64, 1002u64, 1003u64],
            final(storage).locks() == Map::<u64, LockRecordModel>::empty(),
            TestItem::decode_view(final(storage).items()[42]) == Some(
                TestItemView { counter: 3, data: Seq::<char>::empty(), secret: Some("forty_two"@) },
            ),
            TestItem::decode_view(final(storage).items()[1]) == Some(
                TestItemView { counter: 1, data: "some data"@, secret: None },
            ),
            TestItem::decode_view(final(storage).items()[1002]) == Some(
                TestItemView { counter: 1, data: "some data"@, secret: None },
            ),
            TestItem::decode_view(final(storage).items()[1003]) == Some(
                TestItemView { counter: 1, data: "some data"@, secret: None },
            ),
            final(storage).highest() == Some(1003u64),
    {
        let us = "example_node_id_of_us";

        // Clean up from previous runs.
        match storage.wipe("Yes, I know what I am doing!") {
            Ok(_) => {},
            Err(_) => unreached(),
        }

        // Scenario: login/signup. A user signs up under an externally chosen
        // key.
        let external_id: u64 = 42;
        let external_secret = "forty_two";
        let (lock, mut item) = match storage.lock_new(external_id, us) {
            Ok(LockNewResult::Success { lock, item }) => (lock, item),
            _ => unreached(),
        };
        // Initialise on first signup; an existing secret would instead be
        // verified against the presented one.
        let is_new = item.secret().is_none();
        if is_new {
            item.set_secret(external_secret);
        }
        let ghost v_signup = item@;
        match storage.save(external_id, &item, &lock) {
            Ok(_) => {},
            Err(_) => unreached(),
        }
        match storage.unlock(external_id, lock) {
            Ok(_) => {},
            Err(_) => unreached(),
        }
        proof {
            assert(storage.locks() =~= Map::<u64, LockRecordModel>::empty());
        }

        // Scenario: an accidental identifier collision. Reusing the same key
        // must be refused.
        match storage.lock_new(external_id, us) {
            Ok(LockNewResult::AlreadyExists) => {},
            _ => unreached(),
        }

        // Scenario: the user returns to modify their data.
        let (lock, mut item) = match storage.lock(external_id, us) {
            Ok(LockResult::Success { lock, item }) => (lock, item),
            _ => unreached(),
        };
        proof {
            TestItem::lemma_codec_round_trip(v_signup);
        }
        item.increment_counter();
        let ghost v_once = item@;
        match storage.save(external_id, &item, &lock) {
            Ok(_) => {},
            Err(_) => unreached(),
        }
        match storage.unlock(external_id, lock) {
            Ok(_) => {},
            Err(_) => unreached(),
        }
        proof {
            assert(storage.locks() =~= Map::<u64, LockRecordModel>::empty());
        }

        // Scenario: the user modifies their data from two sessions at once.
        // The second session must see the lock held by the first.
        let (lock, mut item) = match storage.lock(external_id, us) {
            Ok(LockResult::Success { lock, item }) => (lock, item),
            _ => unreached(),
        };
        proof {
            TestItem::lemma_codec_round_trip(v_once);
        }
        item.increment_counter();
        match storage.lock(external_id, us) {
            Ok(LockResult::AlreadyLocked { holder: _ }) => {},
            _ => unreached(),
        }
        let ghost v_twice = item@;
        match storage.save(external_id, &item, &lock) {
            Ok(_) => {},
            Err(_) => unreached(),
        }
        match storage.unlock(external_id, lock) {
            Ok(_) => {},
            Err(_) => unreached(),
        }

        // The second session tries again later and succeeds.
        let (lock, mut item) = match storage.lock(external_id, us) {
            Ok(LockResult::Success { lock, item }) => (lock, item),
            _ => unreached(),
        };
        proof {
            TestItem::lemma_codec_round_trip(v_twice);
        }
        item.increment_counter();
        let ghost v_thrice = item@;
        match storage.save(external_id, &item, &lock) {
            Ok(_) => {},
            Err(_) => unreached(),
        }
        match storage.unlock(external_id, lock) {
            Ok(_) => {},
            Err(_) => unreached(),
        }
        proof {
            assert(storage.locks() =~= Map::<u64, LockRecordModel>::empty());
        }

        // Scenario: a holder crashes while locked; an administrator cleans up
        // with a force-unlock, and the user comes back to a working key.
        let (lock, item) = match storage.lock(external_id, us) {
            Ok(LockResult::Success { lock, item }) => (lock, item),
            _ => unreached(),
        };
        // The crash: token and item are simply lost, the lock record stays.
        let _ = lock;
        let _ = item;
        match storage.force_unlock(external_id) {
            Ok(_) => {},
            Err(_) => unreached(),
        }
        proof {
            assert(storage.locks() =~= Map::<u64, LockRecordModel>::empty());
        }
        let (lock, _item) = match storage.lock(external_id, us) {
            Ok(LockResult::Success { lock, item }) => (lock, item),
            _ => unreached(),
        };
        match storage.unlock(external_id, lock) {
            Ok(_) => {},
            Err(_) => unreached(),
        }
        proof {
            assert(storage.locks() =~= Map::<u64, LockRecordModel>::empty());
        }

        // Scenario: auto-generated identifiers, no collision. The first
        // candidate is free and the key is created.
        let item_id = TestItem::generate_next_id(None);
        let (lock, mut item) = match storage.lock_new(item_id, us) {
            Ok(LockNewResult::Success { lock, item }) => (lock, item),
            _ => unreached(),
        };
        item.increment_counter();
        item.set_data("some data");
        let ghost v_auto = item@;
        match storage.save(item_id, &item, &lock) {
            Ok(_) => {},
            Err(_) => unreached(),
        }
        match storage.unlock(item_id, lock) {
            Ok(_) => {},
            Err(_) => unreached(),
        }
        proof {
            assert(storage.locks() =~= Map::<u64, LockRecordModel>::empty());
        }

        // Scenario: auto-generated identifiers, with a forced collision.
        let item_id = TestItem::generate_next_id(Some(1001));
        let occupied = match storage.exists_id(item_id) {
            Ok(b) => b,
            Err(_) => unreached(),
        };
        if occupied {
            return unreached();
        }
        let (lock, mut item) = match storage.lock_new(item_id, us) {
            Ok(LockNewResult::Success { lock, item }) => (lock, item),
            _ => unreached(),
        };
        item.increment_counter();
        item.set_data("some data");
        let ghost v_first = item@;
        match storage.save(item_id, &item, &lock) {
            Ok(_) => {},
            Err(_) => unreached(),
        }
        match storage.unlock(item_id, lock) {
            Ok(_) => {},
            Err(_) => unreached(),
        }

        // Seeding from the same previous identifier now collides...
        let item_id = TestItem::generate_next_id(Some(1001));
        let occupied = match storage.exists_id(item_id) {
            Ok(b) => b,
            Err(_) => unreached(),
        };
        if !occupied {
            return unreached();
        }
        // ... and seeding from the occupied candidate skips past it.
        let item_id = TestItem::generate_next_id(Some(item_id));
        let occupied = match storage.exists_id(item_id) {
            Ok(b) => b,
            Err(_) => unreached(),
        };
        if occupied {
            return unreached();
        }
        let (lock, mut item) = match storage.lock_new(item_id, us) {
            Ok(LockNewResult::Success { lock, item }) => (lock, item),
            _ => unreached(),
        };

        // Show the lock: a record held by us is expected.
        let lock_debug = match storage.display_lock(item_id) {
            Ok(s) => s,
            Err(_) => unreached(),
        };
        proof {
            assert(lock_debug@ == "example_node_id_of_us"@);
        }

        item.increment_counter();
        item.set_data("some data");
        let ghost v_second = item@;
        match storage.save(item_id, &item, &lock) {
            Ok(_) => {},
            Err(_) => unreached(),
        }

        // The held token verifies; a made-up one does not.
        let lock_is_valid = match storage.verify_lock(item_id, &lock) {
            Ok(b) => b,
            Err(_) => unreached(),
        };
        proof {
            assert(lock_is_valid);
        }
        let lock_invalid = LockToken::new(u64::MAX);
        let forged_is_valid = match storage.verify_lock(item_id, &lock_invalid) {
            Ok(b) => b,
            Err(_) => unreached(),
        };
        proof {
            assert(!forged_is_valid);
        }

        match storage.unlock(item_id, lock) {
            Ok(_) => {},
            Err(_) => unreached(),
        }
        proof {
            assert(storage.locks() =~= Map::<u64, LockRecordModel>::empty());
        }

        // Show the lock again: none is expected now.
        let lock_debug = match storage.display_lock(item_id) {
            Ok(s) => s,
            Err(_) => unreached(),
        };
        proof {
            assert(lock_debug@ == "no lock"@);
        }

        // Scan everything, page by page, until the cursor runs out.
        proof {
            assert(storage.key_seq() =~= seq![42u64, 1u64, 1002u64, 1003u64]);
        }
        let ghost snap = *storage;
        let mut scan_pos: Option<u64> = None;
        let mut done = false;
        while !done
            invariant
                *storage == snap,
                storage.wf(),
                storage.key_seq().len() == 4,
                !done ==> (scan_pos is None || scan_pos == Some(3u64)),
            decreases (if done {
                0int
            } else if scan_pos is None {
                2int
            } else {
                1int
            }),
        {
            let page = match storage.scan_ids(scan_pos, Some(3)) {
                Ok(p) => p,
                Err(_) => unreached(),
            };
            let _ids = page.0;
            scan_pos = page.1;
            if scan_pos.is_none() {
                done = true;
            }
        }

        let highest_id = storage.metadata_highest_seen_id();
        proof {
            assert(highest_id == Some(1003u64));
            TestItem::lemma_codec_round_trip(v_thrice);
            TestItem::lemma_codec_round_trip(v_auto);
            TestItem::lemma_codec_round_trip(v_first);
            TestItem::lemma_codec_round_trip(v_second);
        }

        Ok(())
    }
}

} // verus!

use lockstore::errors::StorageError;
use lockstore::item::StorageItem;
use lockstore::store::{LockNewResult, LockResult, Store};
use lockstore::test_item::TestItem;
use lockstore::token::LockToken;

/// Creates `id` with `counter` increments and the given data, then unlocks.
fn occupy(store: &mut Store<TestItem>, id: u64, counter: u32, data: &str) {
    let (lock, mut item) = store.lock_new(id, "occupier").unwrap().success().unwrap();
    for _ in 0..counter {
        item.increment_counter();
    }
    item.set_data(data);
    store.save(id, &item, &lock).unwrap();
    store.unlock(id, lock).unwrap();
}

#[test]
fn lock_new_succeeds_once_then_already_locked() {
    let mut store: Store<TestItem> = Store::new();
    let first = store.lock_new(7, "node_a").unwrap();
    assert!(matches!(first, LockNewResult::Success { .. }));
    let second = store.lock_new(7, "node_b").unwrap();
    match second {
        LockNewResult::AlreadyLocked { holder } => assert_eq!(holder, "node_a"),
        _ => panic!("second racing lock_new must not succeed"),
    }
}

#[test]
fn lock_new_twice_then_lock_returns_saved_counter() {
    let mut store: Store<TestItem> = Store::new();
    let (lock, mut item) = store.lock_new(42, "node_a").unwrap().success().unwrap();
    item.increment_counter();
    store.save(42, &item, &lock).unwrap();
    store.unlock(42, lock).unwrap();

    let second = store.lock_new(42, "node_b").unwrap();
    assert!(matches!(second, LockNewResult::AlreadyExists));

    let (lock, item) = store.lock(42, "node_b").unwrap().success().unwrap();
    assert_eq!(item.counter(), 1);
    store.unlock(42, lock).unwrap();
}

#[test]
fn saved_content_is_read_back_byte_identical() {
    let mut store: Store<TestItem> = Store::new();
    let (lock, mut item) = store.lock_new(5, "writer").unwrap().success().unwrap();
    item.increment_counter();
    item.set_data("payload π");
    item.set_secret("hush");
    let saved_bytes = item.serialize().unwrap();
    store.save(5, &item, &lock).unwrap();
    store.unlock(5, lock).unwrap();

    let (lock, reread) = store.lock(5, "reader").unwrap().success().unwrap();
    assert_eq!(reread.serialize().unwrap(), saved_bytes);
    assert_eq!(reread.counter(), 1);
    assert_eq!(reread.data(), "payload π");
    assert_eq!(reread.secret(), Some("hush"));
    store.unlock(5, lock).unwrap();
}

#[test]
fn stale_token_after_unlock_fails_save() {
    let mut store: Store<TestItem> = Store::new();
    let (lock, mut item) = store.lock_new(9, "writer").unwrap().success().unwrap();
    item.increment_counter();
    store.save(9, &item, &lock).unwrap();
    let stale = LockToken::new(lock.value());
    store.unlock(9, lock).unwrap();
    let r = store.save(9, &item, &stale);
    assert!(matches!(r, Err(StorageError::LockMismatch)));
}

#[test]
fn forged_token_fails_save_and_unlock() {
    let mut store: Store<TestItem> = Store::new();
    let (lock, item) = store.lock_new(3, "writer").unwrap().success().unwrap();
    let forged = LockToken::new(lock.value().wrapping_add(1));
    assert!(matches!(store.save(3, &item, &forged), Err(StorageError::LockMismatch)));
    assert!(matches!(store.unlock(3, forged), Err(StorageError::LockMismatch)));
    // The rightful token still works.
    store.save(3, &item, &lock).unwrap();
    store.unlock(3, lock).unwrap();
}

#[test]
fn force_unlock_recovers_and_new_holder_locks() {
    let mut store: Store<TestItem> = Store::new();
    occupy(&mut store, 11, 2, "before crash");
    // The holder acquires the lock and then disappears.
    let (_lost_lock, _lost_item) = store.lock(11, "crasher").unwrap().success().unwrap();
    assert!(matches!(
        store.lock(11, "next_holder").unwrap(),
        LockResult::AlreadyLocked { .. }
    ));
    store.force_unlock(11).unwrap();
    let (lock, item) = store.lock(11, "next_holder").unwrap().success().unwrap();
    assert_eq!(item.counter(), 2);
    store.unlock(11, lock).unwrap();
}

#[test]
fn force_unlock_without_lock_is_noop_success() {
    let mut store: Store<TestItem> = Store::new();
    store.force_unlock(404).unwrap();
}

#[test]
fn lock_absent_key_is_not_found() {
    let mut store: Store<TestItem> = Store::new();
    assert!(matches!(store.lock(404, "anyone"), Err(StorageError::NotFound)));
}

#[test]
fn lock_new_during_unsaved_creation_is_already_locked() {
    let mut store: Store<TestItem> = Store::new();
    let (lock, item) = store.lock_new(77, "creator").unwrap().success().unwrap();
    // The key holds no item yet, only the lock record.
    assert!(!store.exists_id(77).unwrap());
    match store.lock_new(77, "rival").unwrap() {
        LockNewResult::AlreadyLocked { holder } => assert_eq!(holder, "creator"),
        _ => panic!("a reserved key must not be creatable again"),
    }
    store.save(77, &item, &lock).unwrap();
    store.unlock(77, lock).unwrap();
    assert!(store.exists_id(77).unwrap());
}

#[test]
fn verify_lock_answers_exactly() {
    let mut store: Store<TestItem> = Store::new();
    let (lock, _item) = store.lock_new(8, "holder").unwrap().success().unwrap();
    assert!(store.verify_lock(8, &lock).unwrap());
    assert!(!store.verify_lock(8, &LockToken::new(lock.value().wrapping_add(5))).unwrap());
    assert!(!store.verify_lock(999, &lock).unwrap());
    store.unlock(8, lock).unwrap();
}

#[test]
fn tokens_are_fresh_across_relocks() {
    let mut store: Store<TestItem> = Store::new();
    occupy(&mut store, 2, 0, "");
    let (lock_a, _item) = store.lock(2, "holder").unwrap().success().unwrap();
    let value_a = lock_a.value();
    store.unlock(2, lock_a).unwrap();
    let (lock_b, _item) = store.lock(2, "holder").unwrap().success().unwrap();
    assert_ne!(lock_b.value(), value_a);
    store.unlock(2, lock_b).unwrap();
}

#[test]
fn display_lock_names_holder_or_no_lock() {
    let mut store: Store<TestItem> = Store::new();
    let (lock, _item) = store.lock_new(6, "display_holder").unwrap().success().unwrap();
    assert_eq!(store.display_lock(6).unwrap(), "display_holder");
    assert_eq!(store.describe_lock(6), Some(String::from("display_holder")));
    store.unlock(6, lock).unwrap();
    assert_eq!(store.display_lock(6).unwrap(), "no lock");
    assert_eq!(store.describe_lock(6), None);
}

#[test]
fn scan_pages_of_three_enumerate_every_key_once() {
    let mut store: Store<TestItem> = Store::new();
    let keys = [42u64, 1, 1002, 1003, 500, 7, 8];
    for &k in keys.iter() {
        occupy(&mut store, k, 0, "");
    }
    let mut seen: Vec<u64> = Vec::new();
    let mut cursor: Option<u64> = None;
    loop {
        let (ids, next) = store.scan_ids(cursor, Some(3)).unwrap();
        assert!(ids.len() <= 3);
        seen.extend(ids);
        cursor = next;
        if cursor.is_none() {
            break;
        }
    }
    assert_eq!(seen, keys.to_vec());
}

#[test]
fn scan_without_page_size_returns_everything() {
    let mut store: Store<TestItem> = Store::new();
    occupy(&mut store, 10, 0, "");
    occupy(&mut store, 20, 0, "");
    let (ids, next) = store.scan_ids(None, None).unwrap();
    assert_eq!(ids, vec![10, 20]);
    assert!(next.is_none());
}

#[test]
fn scan_on_empty_store_is_empty_and_final() {
    let store: Store<TestItem> = Store::new();
    let (ids, next) = store.scan_ids(None, Some(3)).unwrap();
    assert!(ids.is_empty());
    assert!(next.is_none());
}

#[test]
fn scan_tolerates_cursor_beyond_end() {
    let mut store: Store<TestItem> = Store::new();
    occupy(&mut store, 1, 0, "");
    let (ids, next) = store.scan_ids(Some(100), Some(3)).unwrap();
    assert!(ids.is_empty());
    assert!(next.is_none());
}

#[test]
fn allocator_skips_occupied_candidates() {
    let mut store: Store<TestItem> = Store::new();
    // generate_next_id(Some(1001)) proposes 1002; occupy it.
    occupy(&mut store, 1002, 0, "");
    // Seeded from 1001 again, allocation must skip to the free 1003.
    assert_eq!(store.allocate_id(Some(1001), 10).unwrap(), 1003);
}

#[test]
fn allocator_takes_free_candidate_immediately() {
    let store: Store<TestItem> = Store::new();
    assert_eq!(store.allocate_id(None, 1).unwrap(), 1);
    assert_eq!(store.allocate_id(Some(1001), 1).unwrap(), 1002);
}

#[test]
fn allocator_exhausts_within_bound() {
    let mut store: Store<TestItem> = Store::new();
    occupy(&mut store, 1, 0, "");
    occupy(&mut store, 2, 0, "");
    occupy(&mut store, 3, 0, "");
    assert!(matches!(
        store.allocate_id(None, 3),
        Err(StorageError::AllocationExhausted)
    ));
    assert_eq!(store.allocate_id(None, 4).unwrap(), 4);
    assert!(matches!(
        store.allocate_id(None, 0),
        Err(StorageError::AllocationExhausted)
    ));
}

#[test]
fn wipe_requires_exact_confirmation_phrase() {
    let mut store: Store<TestItem> = Store::new();
    occupy(&mut store, 15, 1, "kept");
    assert!(matches!(
        store.wipe("yes, i know what i am doing!"),
        Err(StorageError::ConfirmationRequired)
    ));
    assert!(store.exists_id(15).unwrap());
    store.wipe("Yes, I know what I am doing!").unwrap();
    assert!(!store.exists_id(15).unwrap());
    let (ids, next) = store.scan_ids(None, None).unwrap();
    assert!(ids.is_empty());
    assert!(next.is_none());
    assert_eq!(store.metadata_highest_seen_id(), None);
}

#[test]
fn wipe_releases_locks_too() {
    let mut store: Store<TestItem> = Store::new();
    let (_lock, _item) = store.lock_new(21, "holder").unwrap().success().unwrap();
    store.wipe("Yes, I know what I am doing!").unwrap();
    // The key is free to create again.
    assert!(matches!(
        store.lock_new(21, "holder").unwrap(),
        LockNewResult::Success { .. }
    ));
}

#[test]
fn highest_seen_id_tracks_touched_keys() {
    let mut store: Store<TestItem> = Store::new();
    assert_eq!(store.metadata_highest_seen_id(), None);
    occupy(&mut store, 7, 0, "");
    assert_eq!(store.metadata_highest_seen_id(), Some(7));
    occupy(&mut store, 1002, 0, "");
    assert_eq!(store.metadata_highest_seen_id(), Some(1002));
    store.force_unlock(3).unwrap();
    assert_eq!(store.metadata_highest_seen_id(), Some(1002));
}

#[test]
fn ensure_storage_exists_is_idempotent() {
    let store: Store<TestItem> = Store::new();
    store.ensure_storage_exists().unwrap();
    store.ensure_storage_exists().unwrap();
}

#[test]
fn success_helpers_map_contention_to_errors() {
    let mut store: Store<TestItem> = Store::new();
    let (lock, _item) = store.lock_new(30, "holder_a").unwrap().success().unwrap();
    match store.lock_new(30, "holder_b").unwrap().success() {
        Err(StorageError::AlreadyLocked { holder }) => assert_eq!(holder, "holder_a"),
        _ => panic!("contended lock_new must surface AlreadyLocked"),
    }
    match store.lock(30, "holder_b").unwrap().success() {
        Err(StorageError::AlreadyLocked { holder }) => assert_eq!(holder, "holder_a"),
        _ => panic!("contended lock must surface AlreadyLocked"),
    }
    store.save(30, &TestItem::default(), &lock).unwrap();
    store.unlock(30, lock).unwrap();
    match store.lock_new(30, "holder_b").unwrap().success() {
        Err(StorageError::AlreadyExists) => {},
        _ => panic!("occupied lock_new must surface AlreadyExists"),
    }
}

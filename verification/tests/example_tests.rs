use lockstore::examples::{FullExample, SimpleExample};
use lockstore::store::Store;
use lockstore::test_item::TestItem;

#[test]
fn simple_example_creates_and_fills_first_key() {
    let mut store: Store<TestItem> = Store::new();
    let mut example = SimpleExample::default();
    example.run(&mut store).unwrap();
    let (lock, item) = store.lock(1, "checker").unwrap().success().unwrap();
    assert_eq!(item.counter(), 1);
    assert_eq!(item.data(), "some data");
    assert!(item.secret().is_none());
    store.unlock(1, lock).unwrap();
}

#[test]
fn simple_example_increments_on_each_run() {
    let mut store: Store<TestItem> = Store::new();
    let mut example = SimpleExample::default();
    example.run(&mut store).unwrap();
    example.run(&mut store).unwrap();
    let (lock, item) = store.lock(1, "checker").unwrap().success().unwrap();
    assert_eq!(item.counter(), 2);
    store.unlock(1, lock).unwrap();
}

#[test]
fn simple_example_reports_contention() {
    let mut store: Store<TestItem> = Store::new();
    let (_held, _item) = store.lock_new(1, "squatter").unwrap().success().unwrap();
    let mut example = SimpleExample::default();
    match example.run(&mut store) {
        Err(lockstore::errors::StorageError::AlreadyLocked { holder }) => {
            assert_eq!(holder, "squatter")
        },
        _ => panic!("a held key must surface AlreadyLocked"),
    }
}

#[test]
fn full_example_runs_all_scenarios() {
    let mut store: Store<TestItem> = Store::new();
    let mut example = FullExample::default();
    example.set_delay_in_seconds(0);
    example.run(&mut store).unwrap();

    // The run leaves exactly four keys, in creation order.
    let (ids, next) = store.scan_ids(None, None).unwrap();
    assert_eq!(ids, vec![42, 1, 1002, 1003]);
    assert!(next.is_none());

    // The signup key saw three increments and keeps its secret.
    let (lock, item) = store.lock(42, "checker").unwrap().success().unwrap();
    assert_eq!(item.counter(), 3);
    assert_eq!(item.data(), "");
    assert_eq!(item.secret(), Some("forty_two"));
    store.unlock(42, lock).unwrap();

    // The auto-generated keys were each filled once.
    for id in [1u64, 1002, 1003] {
        let (lock, item) = store.lock(id, "checker").unwrap().success().unwrap();
        assert_eq!(item.counter(), 1);
        assert_eq!(item.data(), "some data");
        store.unlock(id, lock).unwrap();
    }

    assert_eq!(store.metadata_highest_seen_id(), Some(1003));
}

#[test]
fn full_example_runs_twice_from_its_own_wipe() {
    let mut store: Store<TestItem> = Store::new();
    let mut example = FullExample::default();
    example.run(&mut store).unwrap();
    // The leading wipe makes reruns start from the same clean slate.
    example.run(&mut store).unwrap();
    let (_ids, next) = store.scan_ids(None, Some(3)).unwrap();
    assert_eq!(next, Some(3));
}

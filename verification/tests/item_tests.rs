use lockstore::errors::StorageError;
use lockstore::item::StorageItem;
use lockstore::test_item::TestItem;

#[test]
fn default_item_is_empty() {
    let item = TestItem::default();
    assert_eq!(item.counter(), 0);
    assert_eq!(item.data(), "");
    assert!(item.secret().is_none());
}

#[test]
fn accessors_mutate_and_read_back() {
    let mut item = TestItem::default();
    item.increment_counter();
    item.increment_counter();
    assert_eq!(item.counter(), 2);
    item.set_data("hello");
    assert_eq!(item.data(), "hello");
    item.set_secret("s3cr3t");
    assert_eq!(item.secret(), Some("s3cr3t"));
}

#[test]
fn codec_round_trip_plain() {
    let mut item = TestItem::default();
    item.increment_counter();
    item.set_data("some data");
    let bytes = item.serialize().unwrap();
    let back = TestItem::deserialize(&bytes).unwrap();
    assert_eq!(back.counter(), 1);
    assert_eq!(back.data(), "some data");
    assert!(back.secret().is_none());
}

#[test]
fn codec_round_trip_unicode_and_secret() {
    let mut item = TestItem::default();
    item.set_data("käse 🧀 with \"quotes\" and\nnewlines");
    item.set_secret("geheim ✓");
    let bytes = item.serialize().unwrap();
    let back = TestItem::deserialize(&bytes).unwrap();
    assert_eq!(back.counter(), 0);
    assert_eq!(back.data(), "käse 🧀 with \"quotes\" and\nnewlines");
    assert_eq!(back.secret(), Some("geheim ✓"));
}

#[test]
fn serialize_is_deterministic() {
    let mut a = TestItem::default();
    a.increment_counter();
    a.set_data("x");
    let mut b = TestItem::default();
    b.increment_counter();
    b.set_data("x");
    assert_eq!(a.serialize().unwrap(), b.serialize().unwrap());
}

#[test]
fn deserialize_rejects_empty_and_truncated() {
    assert!(matches!(TestItem::deserialize(&[]), Err(StorageError::CodecError)));
    let bytes = TestItem::default().serialize().unwrap();
    assert!(matches!(
        TestItem::deserialize(&bytes[..bytes.len() - 1]),
        Err(StorageError::CodecError)
    ));
}

#[test]
fn deserialize_rejects_trailing_garbage() {
    let mut bytes = TestItem::default().serialize().unwrap();
    bytes.push(0);
    assert!(matches!(TestItem::deserialize(&bytes), Err(StorageError::CodecError)));
}

#[test]
fn deserialize_rejects_bad_marker() {
    let mut bytes = TestItem::default().serialize().unwrap();
    let last = bytes.len() - 1;
    bytes[last] = 7;
    assert!(matches!(TestItem::deserialize(&bytes), Err(StorageError::CodecError)));
}

#[test]
fn deserialize_rejects_invalid_utf8_data() {
    // counter = 0, data length = 1, one byte that is no valid UTF-8 run,
    // then the "no secret" marker.
    let bytes = vec![0, 0, 0, 0, 1, 0, 0, 0, 0, 0, 0, 0, 0xFF, 0];
    assert!(matches!(TestItem::deserialize(&bytes), Err(StorageError::CodecError)));
}

#[test]
fn deserialize_rejects_overlong_length_prefix() {
    // counter = 0, data length claims 200 bytes but none follow.
    let bytes = vec![0, 0, 0, 0, 200, 0, 0, 0, 0, 0, 0, 0];
    assert!(matches!(TestItem::deserialize(&bytes), Err(StorageError::CodecError)));
}

#[test]
fn make_id_parses_decimal() {
    assert_eq!(TestItem::make_id("123").unwrap(), 123);
    assert_eq!(TestItem::make_id("0").unwrap(), 0);
    assert_eq!(TestItem::make_id("007").unwrap(), 7);
    assert_eq!(TestItem::make_id("18446744073709551615").unwrap(), u64::MAX);
}

#[test]
fn make_id_rejects_non_decimal() {
    assert!(matches!(TestItem::make_id(""), Err(StorageError::CodecError)));
    assert!(matches!(TestItem::make_id("abc"), Err(StorageError::CodecError)));
    assert!(matches!(TestItem::make_id("12x"), Err(StorageError::CodecError)));
    assert!(matches!(TestItem::make_id("-1"), Err(StorageError::CodecError)));
    assert!(matches!(
        TestItem::make_id("18446744073709551616"),
        Err(StorageError::CodecError)
    ));
}

#[test]
fn generate_next_id_starts_at_one_and_advances() {
    assert_eq!(TestItem::generate_next_id(None), 1);
    assert_eq!(TestItem::generate_next_id(Some(41)), 42);
    assert_eq!(TestItem::generate_next_id(Some(1001)), 1002);
}

#[test]
fn error_messages_name_each_failure() {
    assert_eq!(StorageError::NotFound.message(), "no item under this key");
    assert_eq!(
        StorageError::AlreadyExists.message(),
        "an item already occupies this key"
    );
    assert_eq!(
        StorageError::AlreadyLocked { holder: String::from("n1") }.message(),
        "the key is locked by another holder"
    );
    assert_eq!(
        StorageError::LockMismatch.message(),
        "the presented lock token is stale or wrong"
    );
    assert_eq!(StorageError::CodecError.message(), "stored data could not be decoded");
    assert_eq!(
        StorageError::AllocationExhausted.message(),
        "no free identifier found within the retry bound"
    );
    assert_eq!(
        StorageError::ConfirmationRequired.message(),
        "wipe refused without the exact confirmation phrase"
    );
    assert_eq!(
        StorageError::BackendUnavailable.message(),
        "the backend could not serve the request"
    );
}

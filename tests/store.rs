use kvs::{Command, KvStore, KvStoreError};

// Should get previously stored value
#[test]
fn get_stored_value() {
    let mut store = KvStore::new();

    store.set("key1".to_owned(), "value1".to_owned());
    store.set("key2".to_owned(), "value2".to_owned());

    assert_eq!(store.get("key1").ok(), Some("value1".to_owned()));
    assert_eq!(store.get("key2").ok(), Some("value2".to_owned()));
}

// Should overwrite existent value
#[test]
fn overwrite_value() {
    let mut store = KvStore::new();

    store.set("key1".to_owned(), "value1".to_owned());
    assert_eq!(store.get("key1").ok(), Some("value1".to_owned()));

    store.set("key1".to_owned(), "value2".to_owned());
    assert_eq!(store.get("key1").ok(), Some("value2".to_owned()));
}

// Should get `None` when getting a non-existent key
#[test]
fn get_non_existent_value() {
    let mut store = KvStore::new();

    store.set("key1".to_owned(), "value1".to_owned());
    assert_eq!(store.get("key2").ok(), None);
}

#[test]
fn remove_key() {
    let mut store = KvStore::new();

    store.set("key1".to_owned(), "value1".to_owned());
    let _ = store.remove("key1".to_owned());
    assert_eq!(store.get("key1").ok(), None);
}

#[test]
fn set_then_get_returns_value() {
    let mut store = KvStore::new();
    let r = store.execute(Command::Insert { key: "k".to_owned(), value: "v".to_owned() });
    assert_eq!(r.ok(), Some(String::new()));
    let r = store.execute(Command::Get { key: "k".to_owned() });
    assert_eq!(r.ok(), Some("v".to_owned()));
}

#[test]
fn get_absent_is_not_found() {
    let mut store = KvStore::new();
    store.set("a".to_owned(), "1".to_owned());
    match store.execute(Command::Get { key: "b".to_owned() }) {
        Err(KvStoreError::NotFound(k)) => assert_eq!(k, "b"),
        other => panic!("unexpected {:?}", other),
    }
    assert_eq!(store.get("a").ok(), Some("1".to_owned()));
}

#[test]
fn remove_absent_is_not_found_and_keeps_index() {
    let mut store = KvStore::new();
    store.set("a".to_owned(), "1".to_owned());
    let r = store.remove("b".to_owned());
    assert!(matches!(r, Err(KvStoreError::NotFound(ref k)) if k == "b"));
    assert!(r.unwrap_err().is_not_found());
    assert_eq!(store.get("a").ok(), Some("1".to_owned()));
    // the attempt is still logged
    let rec = KvStore::record_of(&Command::Rm { key: "b".to_owned() });
    assert_eq!(rec, Some("rm b".to_owned()));
}

#[test]
fn remove_present_via_execute() {
    let mut store = KvStore::new();
    store.set("a".to_owned(), "1".to_owned());
    let r = store.execute(Command::Rm { key: "a".to_owned() });
    assert_eq!(r.ok(), Some(String::new()));
    assert!(matches!(store.get("a"), Err(KvStoreError::NotFound(_))));
}

#[test]
fn records_only_for_mutations() {
    assert_eq!(KvStore::record_of(&Command::Get { key: "a".to_owned() }), None);
    assert_eq!(
        KvStore::record_of(&Command::Insert { key: "a".to_owned(), value: "1".to_owned() }),
        Some("set a 1".to_owned())
    );
}

#[test]
fn other_errors_are_not_not_found() {
    assert!(!KvStoreError::MissingCommand.is_not_found());
    assert!(!KvStoreError::FailedWalWrite("disk full".to_owned()).is_not_found());
}

use kvs::{decode, encode, quarantine_path, Command, KvStoreError};

#[test]
fn encode_each_variant() {
    assert_eq!(encode(&Command::Get { key: "k".to_owned() }), "get k");
    assert_eq!(
        encode(&Command::Insert { key: "k".to_owned(), value: "v".to_owned() }),
        "set k v"
    );
    assert_eq!(encode(&Command::Rm { key: "k".to_owned() }), "rm k");
}

#[test]
fn decode_encode_round_trip() {
    let cmds = vec![
        Command::Get { key: "key1".to_owned() },
        Command::Insert { key: "key1".to_owned(), value: "value1".to_owned() },
        Command::Rm { key: "key1".to_owned() },
        Command::Insert { key: "ключ".to_owned(), value: "значение".to_owned() },
    ];
    for c in cmds.iter() {
        assert_eq!(decode(&encode(c)).unwrap(), *c);
    }
}

#[test]
fn decode_ignores_extra_words_and_any_whitespace() {
    assert_eq!(
        decode("  set\tk \u{3000} v extra words ").unwrap(),
        Command::Insert { key: "k".to_owned(), value: "v".to_owned() }
    );
    assert_eq!(decode("rm a b").unwrap(), Command::Rm { key: "a".to_owned() });
    assert_eq!(decode("get k\r").unwrap(), Command::Get { key: "k".to_owned() });
    assert_ne!(decode("get k").unwrap(), Command::Rm { key: "k".to_owned() });
}

#[test]
fn decode_missing_command() {
    assert!(matches!(decode(""), Err(KvStoreError::MissingCommand)));
    assert!(matches!(decode(" \t "), Err(KvStoreError::MissingCommand)));
}

#[test]
fn decode_invalid_command() {
    assert!(matches!(decode("put a b"), Err(KvStoreError::InvalidCommand(ref t)) if t == "put"));
    assert!(matches!(decode("SET a b"), Err(KvStoreError::InvalidCommand(ref t)) if t == "SET"));
}

#[test]
fn decode_missing_key() {
    assert!(matches!(decode("get"), Err(KvStoreError::MissingKey(ref t)) if t == "get"));
    assert!(matches!(decode("set "), Err(KvStoreError::MissingKey(ref t)) if t == "set"));
    assert!(matches!(decode("rm"), Err(KvStoreError::MissingKey(ref t)) if t == "rm"));
}

#[test]
fn decode_missing_value() {
    assert!(matches!(decode("set k"), Err(KvStoreError::MissingValue(ref t)) if t == "k"));
}

#[test]
fn quarantine_path_appends_old_to_extension() {
    assert_eq!(quarantine_path("dir/wa.log").ok(), Some("dir/wa.log.old".to_owned()));
    assert_eq!(quarantine_path("wa.log").ok(), Some("wa.log.old".to_owned()));
    assert_eq!(quarantine_path("a.b/c.d.e").ok(), Some("a.b/c.d.e.old".to_owned()));
}

#[test]
fn quarantine_path_needs_an_extension() {
    for p in ["dir/wal", "dir.d/wal", "dir/.log", ".log", "a/..", "..", ""] {
        assert!(
            matches!(quarantine_path(p), Err(KvStoreError::InvalidWalFileName)),
            "{}",
            p
        );
    }
}

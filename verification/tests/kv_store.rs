//! End-to-end tests of the storage registry, key validation, listing and
//! pagination, and the session facade.

use base64::Engine;
use kv_host::errors::{FastlyStatus, KvError, KvInsertMode, KvStatus, KvStoreError, ObjectStoreError};
use kv_host::keys::{is_valid_key, KeyValidationError, ObjectKey, ObjectStoreKey};
use kv_host::object_store::ObjectStores;

fn store_with(entries: &[(&str, &str)]) -> (ObjectStores, ObjectStoreKey) {
    let mut reg = ObjectStores::new();
    let sk = ObjectStoreKey::new("store1");
    reg.insert_empty_store(sk.clone()).unwrap();
    for (k, v) in entries {
        reg.insert(
            sk.clone(),
            ObjectKey::new(k).unwrap(),
            v.as_bytes().to_vec(),
            KvInsertMode::Overwrite,
            None,
            None,
        )
        .unwrap();
    }
    (reg, sk)
}

#[test]
fn valid_keys_accepted() {
    assert!(is_valid_key("a").is_ok());
    assert!(is_valid_key("hello/world-1.txt").is_ok());
    assert!(is_valid_key(&"x".repeat(1024)).is_ok());
    assert!(is_valid_key("...").is_ok());
    assert!(is_valid_key("caf\u{e9}").is_ok());
}

#[test]
fn empty_key_rejected() {
    assert_eq!(is_valid_key(""), Err(KeyValidationError::EmptyKey));
}

#[test]
fn oversize_key_rejected() {
    assert_eq!(
        is_valid_key(&"x".repeat(1025)),
        Err(KeyValidationError::Over1024Bytes)
    );
}

#[test]
fn well_known_prefix_rejected() {
    assert_eq!(
        is_valid_key(".well-known/acme-challenge/foo"),
        Err(KeyValidationError::StartsWithWellKnown)
    );
    assert_eq!(
        is_valid_key(".well-known/acme-challenge"),
        Err(KeyValidationError::StartsWithWellKnown)
    );
}

#[test]
fn dot_keys_rejected() {
    assert_eq!(is_valid_key("."), Err(KeyValidationError::ContainsDot));
    assert_eq!(is_valid_key(".."), Err(KeyValidationError::ContainsDotDot));
}

#[test]
fn forbidden_characters_rejected() {
    assert_eq!(is_valid_key("a\rb"), Err(KeyValidationError::Contains('\r')));
    assert_eq!(is_valid_key("a\nb"), Err(KeyValidationError::Contains('\n')));
    assert_eq!(is_valid_key("a[b"), Err(KeyValidationError::Contains('[')));
    assert_eq!(is_valid_key("a]b"), Err(KeyValidationError::Contains(']')));
    assert_eq!(is_valid_key("a*b"), Err(KeyValidationError::Contains('*')));
    assert_eq!(is_valid_key("a?b"), Err(KeyValidationError::Contains('?')));
    assert_eq!(is_valid_key("a#b"), Err(KeyValidationError::Contains('#')));
    // The checks run in a fixed order: carriage return wins.
    assert_eq!(is_valid_key("a#b\r"), Err(KeyValidationError::Contains('\r')));
}

#[test]
fn object_key_construction() {
    assert!(ObjectKey::new("fine").is_ok());
    assert_eq!(
        ObjectKey::new("").unwrap_err(),
        KeyValidationError::EmptyKey
    );
}

#[test]
fn overwrite_round_trips_exact_bytes() {
    let (mut reg, sk) = store_with(&[]);
    let key = ObjectKey::new("k").unwrap();
    let payload = vec![0u8, 1, 2, 254, 255];
    reg.insert(
        sk.clone(),
        key.clone(),
        payload.clone(),
        KvInsertMode::Overwrite,
        None,
        None,
    )
    .unwrap();
    let v = reg.lookup(&sk, &key).unwrap();
    assert_eq!(v.body, payload);
    assert_eq!(v.metadata_len, 0);
}

#[test]
fn append_then_prepend_scenario() {
    let (mut reg, sk) = store_with(&[]);
    let key = ObjectKey::new("a").unwrap();
    reg.insert(sk.clone(), key.clone(), b"1".to_vec(), KvInsertMode::Overwrite, None, None)
        .unwrap();
    reg.insert(sk.clone(), key.clone(), b"2".to_vec(), KvInsertMode::Append, None, None)
        .unwrap();
    assert_eq!(reg.lookup(&sk, &key).unwrap().body, b"12".to_vec());
    reg.insert(sk.clone(), key.clone(), b"0".to_vec(), KvInsertMode::Prepend, None, None)
        .unwrap();
    assert_eq!(reg.lookup(&sk, &key).unwrap().body, b"012".to_vec());
}

#[test]
fn append_and_prepend_on_missing_key_act_like_overwrite() {
    let (mut reg, sk) = store_with(&[]);
    let ka = ObjectKey::new("ap").unwrap();
    let kp = ObjectKey::new("pp").unwrap();
    reg.insert(sk.clone(), ka.clone(), b"x".to_vec(), KvInsertMode::Append, None, None)
        .unwrap();
    reg.insert(sk.clone(), kp.clone(), b"y".to_vec(), KvInsertMode::Prepend, None, None)
        .unwrap();
    assert_eq!(reg.lookup(&sk, &ka).unwrap().body, b"x".to_vec());
    assert_eq!(reg.lookup(&sk, &kp).unwrap().body, b"y".to_vec());
}

#[test]
fn add_conflict_scenario() {
    let (mut reg, sk) = store_with(&[]);
    let key = ObjectKey::new("b").unwrap();
    reg.insert(sk.clone(), key.clone(), b"x".to_vec(), KvInsertMode::Add, None, None)
        .unwrap();
    let err = reg
        .insert(sk.clone(), key.clone(), b"y".to_vec(), KvInsertMode::Add, None, None)
        .unwrap_err();
    assert_eq!(err, KvStoreError::PreconditionFailed);
    assert_eq!(reg.lookup(&sk, &key).unwrap().body, b"x".to_vec());
}

#[test]
fn generation_mismatch_fails_and_mutates_nothing() {
    let (mut reg, sk) = store_with(&[("g", "v1")]);
    let key = ObjectKey::new("g").unwrap();
    let gen = reg.lookup(&sk, &key).unwrap().generation;
    let wrong = gen ^ 1;
    for mode in [
        KvInsertMode::Overwrite,
        KvInsertMode::Add,
        KvInsertMode::Append,
        KvInsertMode::Prepend,
    ] {
        let err = reg
            .insert(sk.clone(), key.clone(), b"v2".to_vec(), mode, Some(wrong), None)
            .unwrap_err();
        assert_eq!(err, KvStoreError::PreconditionFailed);
        assert_eq!(reg.lookup(&sk, &key).unwrap().body, b"v1".to_vec());
    }
    // A matching generation is allowed through.
    reg.insert(sk.clone(), key.clone(), b"v2".to_vec(), KvInsertMode::Overwrite, Some(gen), None)
        .unwrap();
    assert_eq!(reg.lookup(&sk, &key).unwrap().body, b"v2".to_vec());
}

#[test]
fn metadata_is_stored_and_cleared() {
    let (mut reg, sk) = store_with(&[]);
    let key = ObjectKey::new("m").unwrap();
    reg.insert(
        sk.clone(),
        key.clone(),
        b"body".to_vec(),
        KvInsertMode::Overwrite,
        None,
        Some(b"meta".to_vec()),
    )
    .unwrap();
    let v = reg.lookup(&sk, &key).unwrap();
    assert_eq!(v.metadata, b"meta".to_vec());
    assert_eq!(v.metadata_len, 4);
    // A write without metadata clears it.
    reg.insert(sk.clone(), key.clone(), b"body2".to_vec(), KvInsertMode::Overwrite, None, None)
        .unwrap();
    let v2 = reg.lookup(&sk, &key).unwrap();
    assert_eq!(v2.metadata_len, 0);
    assert!(v2.metadata.is_empty());
}

#[test]
fn delete_removes_and_reports_missing() {
    let (mut reg, sk) = store_with(&[("d", "v")]);
    let key = ObjectKey::new("d").unwrap();
    reg.delete(sk.clone(), key.clone()).unwrap();
    assert_eq!(
        reg.lookup(&sk, &key).unwrap_err(),
        ObjectStoreError::MissingObject
    );
    assert_eq!(
        reg.delete(sk.clone(), key.clone()).unwrap_err(),
        KvStoreError::NotFound
    );
}

#[test]
fn store_exists_and_idempotent_creation() {
    let mut reg = ObjectStores::new();
    assert!(!reg.store_exists("s").unwrap());
    reg.insert_empty_store(ObjectStoreKey::new("s")).unwrap();
    assert!(reg.store_exists("s").unwrap());
    // Creating again is a no-op, never an error.
    reg.insert_empty_store(ObjectStoreKey::new("s")).unwrap();
    assert!(reg.store_exists("s").unwrap());
}

#[test]
fn listing_prefix_scenario() {
    let (reg, sk) = store_with(&[("a1", "1"), ("a2", "2"), ("b1", "3")]);
    let doc = reg
        .list(sk.clone(), None, Some("a".to_string()), 10)
        .unwrap();
    assert_eq!(
        String::from_utf8(doc).unwrap(),
        "{\"data\":[\"a1\",\"a2\"],\"meta\":{\"limit\":10,\"prefix\":\"a\"}}"
    );
}

#[test]
fn listing_is_valid_json_with_expected_fields() {
    let (reg, sk) = store_with(&[("a1", "1"), ("a2", "2"), ("b1", "3")]);
    let doc = reg.list(sk.clone(), None, None, 2).unwrap();
    let parsed: serde_json::Value = serde_json::from_slice(&doc).unwrap();
    assert_eq!(parsed["data"][0], "a1");
    assert_eq!(parsed["data"][1], "a2");
    assert_eq!(parsed["meta"]["limit"], 2);
    assert!(parsed["meta"].get("prefix").is_none());
    // Truncation happened, so a next cursor is present: base64 of "a2".
    assert_eq!(parsed["meta"]["next_cursor"], "YTI=");
}

#[test]
fn listing_escapes_keys() {
    let (reg, sk) = store_with(&[("q\"uo\\te", "1")]);
    let doc = reg.list(sk.clone(), None, None, 10).unwrap();
    let parsed: serde_json::Value = serde_json::from_slice(&doc).unwrap();
    assert_eq!(parsed["data"][0], "q\"uo\\te");
}

#[test]
fn listing_is_idempotent() {
    let (reg, sk) = store_with(&[("a", "1"), ("b", "2"), ("c", "3")]);
    let d1 = reg.list(sk.clone(), None, None, 2).unwrap();
    let d2 = reg.list(sk.clone(), None, None, 2).unwrap();
    assert_eq!(d1, d2);
}

#[test]
fn paging_reproduces_all_keys() {
    let keys = ["alpha", "beta", "delta", "echo", "gamma", "kilo", "zulu"];
    let entries: Vec<(&str, &str)> = keys.iter().map(|k| (*k, "v")).collect();
    let (reg, sk) = store_with(&entries);
    let mut cursor: Option<String> = None;
    let mut collected: Vec<String> = Vec::new();
    let mut rounds = 0;
    loop {
        let doc = reg.list(sk.clone(), cursor.clone(), None, 3).unwrap();
        let parsed: serde_json::Value = serde_json::from_slice(&doc).unwrap();
        for item in parsed["data"].as_array().unwrap() {
            collected.push(item.as_str().unwrap().to_string());
        }
        match parsed["meta"].get("next_cursor") {
            Some(c) => cursor = Some(c.as_str().unwrap().to_string()),
            None => break,
        }
        rounds += 1;
        assert!(rounds < 10, "paging did not terminate");
    }
    assert_eq!(collected, keys.iter().map(|k| k.to_string()).collect::<Vec<_>>());
}

#[test]
fn listing_bad_cursor_is_bad_request() {
    let (reg, sk) = store_with(&[("a", "1")]);
    assert_eq!(
        reg.list(sk.clone(), Some("!!!not-base64!!!".to_string()), None, 10)
            .unwrap_err(),
        KvStoreError::BadRequest
    );
    // Canonical base64, but not UTF-8 bytes underneath.
    let bad = base64::prelude::BASE64_STANDARD.encode([0xffu8, 0xfe]);
    assert_eq!(
        reg.list(sk.clone(), Some(bad), None, 10).unwrap_err(),
        KvStoreError::BadRequest
    );
}

#[test]
fn listing_unknown_store_is_internal_error() {
    let reg = ObjectStores::new();
    assert_eq!(
        reg.list(ObjectStoreKey::new("nope"), None, None, 10)
            .unwrap_err(),
        KvStoreError::InternalError
    );
}

#[test]
fn listing_cursor_filters_strictly_after() {
    let (reg, sk) = store_with(&[("a", "1"), ("b", "2"), ("c", "3")]);
    let cursor = base64::prelude::BASE64_STANDARD.encode("b");
    let doc = reg.list(sk.clone(), Some(cursor), None, 10).unwrap();
    let parsed: serde_json::Value = serde_json::from_slice(&doc).unwrap();
    let data: Vec<&str> = parsed["data"]
        .as_array()
        .unwrap()
        .iter()
        .map(|v| v.as_str().unwrap())
        .collect();
    assert_eq!(data, vec!["c"]);
}

#[test]
fn reserved_stamp_is_remapped() {
    let (mut reg, sk) = store_with(&[]);
    let key = ObjectKey::new("stamp").unwrap();
    reg.insert_with_stamp(
        sk.clone(),
        key.clone(),
        b"v".to_vec(),
        KvInsertMode::Overwrite,
        None,
        None,
        1337,
    )
    .unwrap();
    assert_eq!(reg.lookup(&sk, &key).unwrap().generation, 1338);
    reg.insert_with_stamp(
        sk.clone(),
        key.clone(),
        b"v".to_vec(),
        KvInsertMode::Overwrite,
        None,
        None,
        42,
    )
    .unwrap();
    assert_eq!(reg.lookup(&sk, &key).unwrap().generation, 42);
}

#[test]
fn kv_error_conversions_round_trip() {
    let all = [
        KvStoreError::Uninitialized,
        KvStoreError::NoError,
        KvStoreError::BadRequest,
        KvStoreError::NotFound,
        KvStoreError::PreconditionFailed,
        KvStoreError::PayloadTooLarge,
        KvStoreError::InternalError,
        KvStoreError::TooManyRequests,
    ];
    for e in all {
        let g: KvError = e.into();
        let back: KvStoreError = g.into();
        assert_eq!(back, e);
    }
}

#[test]
fn fastly_status_renderings() {
    assert_eq!(KvStoreError::NoError.fastly_status(), FastlyStatus::Okay);
    assert_eq!(KvStoreError::NotFound.fastly_status(), FastlyStatus::NoneFound);
    assert_eq!(KvStoreError::BadRequest.fastly_status(), FastlyStatus::Inval);
    assert_eq!(KvStoreError::PreconditionFailed.fastly_status(), FastlyStatus::Inval);
    assert_eq!(
        ObjectStoreError::MissingObject.fastly_status(),
        FastlyStatus::NoneFound
    );
    assert_eq!(
        ObjectStoreError::UnknownObjectStore("x".to_string()).fastly_status(),
        FastlyStatus::Inval
    );
    assert_eq!(
        ObjectStoreError::of_kv_store_error(&KvStoreError::NotFound),
        ObjectStoreError::MissingObject
    );
    assert_eq!(
        ObjectStoreError::of_kv_store_error(&KvStoreError::InternalError),
        ObjectStoreError::UnknownObjectStore(String::new())
    );
}

#[test]
fn kv_store_error_statuses() {
    assert_eq!(KvStoreError::NotFound.status(), KvStatus::NotFound);
    assert_eq!(
        KvStoreError::PreconditionFailed.status(),
        KvStatus::PreconditionFailed
    );
    assert_eq!(KvStoreError::BadRequest.status(), KvStatus::BadRequest);
}

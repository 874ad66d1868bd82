//! Tests of the session facade: the two-phase begin/wait pattern, handle
//! consumption, lookup-result accessors, and the import-renaming rule.

use kv_host::adapt::mangled_import;
use kv_host::errors::{KvInsertMode, KvStatus, KvStoreError, ObjectStoreError};
use kv_host::keys::{KeyValidationError, ObjectStoreKey};
use kv_host::object_store::ObjectStores;
use kv_host::session::{Session, SessionError};

fn setup() -> (ObjectStores, Session, u32) {
    let mut reg = ObjectStores::new();
    reg.insert_empty_store(ObjectStoreKey::new("store1")).unwrap();
    let mut session = Session::new();
    let h = session.open(&reg, "store1").unwrap();
    (reg, session, h)
}

#[test]
fn open_unknown_store_fails() {
    let reg = ObjectStores::new();
    let mut session = Session::new();
    match session.open(&reg, "missing") {
        Err(SessionError::Store(ObjectStoreError::UnknownObjectStore(n))) => {
            assert_eq!(n, "missing");
        },
        other => panic!("unexpected: {:?}", other),
    }
}

#[test]
fn insert_then_lookup_through_facade() {
    let (mut reg, mut session, sh) = setup();
    let ih = session
        .insert(
            &mut reg,
            sh,
            "k1",
            b"payload".to_vec(),
            KvInsertMode::Overwrite,
            None,
            Some(b"md".to_vec()),
        )
        .unwrap();
    assert_eq!(session.insert_wait(ih).unwrap(), KvStatus::Okay);

    let lh = session.lookup(&reg, sh, "k1").unwrap();
    assert_eq!(session.lookup_peek(lh).unwrap(), true);
    let (res, status) = session.lookup_wait(lh).unwrap();
    assert_eq!(status, KvStatus::Okay);
    let rh = res.unwrap();

    let bh = session.body(rh).unwrap();
    assert_eq!(session.body_contents(bh).unwrap(), &b"payload".to_vec());
    // The body stays readable any number of times.
    assert_eq!(session.body_contents(bh).unwrap(), &b"payload".to_vec());

    let gen1 = session.generation(rh).unwrap();
    assert_eq!(session.generation(rh).unwrap(), gen1);

    // Metadata reads at most once: the bytes are moved out on first read.
    assert_eq!(session.metadata(rh, 64).unwrap(), Some(b"md".to_vec()));
    assert_eq!(session.metadata(rh, 64).unwrap(), None);

    session.release(rh).unwrap();
    assert_eq!(session.body(rh).unwrap_err(), SessionError::UnknownHandle);
}

#[test]
fn metadata_buffer_too_small_fails() {
    let (mut reg, mut session, sh) = setup();
    let ih = session
        .insert(
            &mut reg,
            sh,
            "k2",
            b"b".to_vec(),
            KvInsertMode::Overwrite,
            None,
            Some(b"four".to_vec()),
        )
        .unwrap();
    session.insert_wait(ih).unwrap();
    let lh = session.lookup(&reg, sh, "k2").unwrap();
    let (res, _) = session.lookup_wait(lh).unwrap();
    let rh = res.unwrap();
    assert_eq!(
        session.metadata(rh, 3).unwrap_err(),
        SessionError::BufferLen(4)
    );
    // The failed read consumed nothing.
    assert_eq!(session.metadata(rh, 4).unwrap(), Some(b"four".to_vec()));
}

#[test]
fn lookup_missing_is_soft_not_found() {
    let (reg, mut session, sh) = setup();
    let lh = session.lookup(&reg, sh, "absent").unwrap();
    let (res, status) = session.lookup_wait(lh).unwrap();
    assert!(res.is_none());
    assert_eq!(status, KvStatus::NotFound);
}

#[test]
fn consumed_wait_handle_fails_wait_and_peek() {
    let (reg, mut session, sh) = setup();
    let lh = session.lookup(&reg, sh, "absent").unwrap();
    session.lookup_wait(lh).unwrap();
    assert_eq!(
        session.lookup_wait(lh).unwrap_err(),
        SessionError::UnknownHandle
    );
    assert_eq!(
        session.lookup_peek(lh).unwrap_err(),
        SessionError::UnknownHandle
    );
}

#[test]
fn begin_calls_reject_unknown_store_handle() {
    let (mut reg, mut session, _sh) = setup();
    let bad = 777;
    assert_eq!(
        session.lookup(&reg, bad, "k").unwrap_err(),
        SessionError::UnknownHandle
    );
    assert_eq!(
        session
            .insert(&mut reg, bad, "k", b"v".to_vec(), KvInsertMode::Overwrite, None, None)
            .unwrap_err(),
        SessionError::UnknownHandle
    );
    assert_eq!(
        session.delete(&mut reg, bad, "k").unwrap_err(),
        SessionError::UnknownHandle
    );
    assert_eq!(
        session.list(&reg, bad, None, None, 10).unwrap_err(),
        SessionError::UnknownHandle
    );
}

#[test]
fn begin_calls_reject_invalid_keys_synchronously() {
    let (reg, mut session, sh) = setup();
    assert_eq!(
        session.lookup(&reg, sh, "bad*key").unwrap_err(),
        SessionError::InvalidKey(KeyValidationError::Contains('*'))
    );
}

#[test]
fn insert_conflict_surfaces_as_status() {
    let (mut reg, mut session, sh) = setup();
    let i1 = session
        .insert(&mut reg, sh, "dup", b"x".to_vec(), KvInsertMode::Add, None, None)
        .unwrap();
    assert_eq!(session.insert_wait(i1).unwrap(), KvStatus::Okay);
    let i2 = session
        .insert(&mut reg, sh, "dup", b"y".to_vec(), KvInsertMode::Add, None, None)
        .unwrap();
    assert_eq!(
        session.insert_wait(i2).unwrap(),
        KvStatus::PreconditionFailed
    );
}

#[test]
fn delete_wait_missing_is_hard_error() {
    let (mut reg, mut session, sh) = setup();
    let dh = session.delete(&mut reg, sh, "absent").unwrap();
    assert_eq!(
        session.delete_wait(dh).unwrap_err(),
        SessionError::Kv(KvStoreError::NotFound)
    );
}

#[test]
fn delete_through_facade() {
    let (mut reg, mut session, sh) = setup();
    let ih = session
        .insert(&mut reg, sh, "k", b"v".to_vec(), KvInsertMode::Overwrite, None, None)
        .unwrap();
    session.insert_wait(ih).unwrap();
    let dh = session.delete(&mut reg, sh, "k").unwrap();
    assert_eq!(session.delete_wait(dh).unwrap(), KvStatus::Okay);
    let lh = session.lookup(&reg, sh, "k").unwrap();
    let (res, status) = session.lookup_wait(lh).unwrap();
    assert!(res.is_none());
    assert_eq!(status, KvStatus::NotFound);
}

#[test]
fn list_through_facade() {
    let (mut reg, mut session, sh) = setup();
    for k in ["a1", "a2", "b1"] {
        let ih = session
            .insert(&mut reg, sh, k, b"v".to_vec(), KvInsertMode::Overwrite, None, None)
            .unwrap();
        session.insert_wait(ih).unwrap();
    }
    let lh = session
        .list(&reg, sh, None, Some("a".to_string()), 10)
        .unwrap();
    let (body, status) = session.list_wait(lh).unwrap();
    assert_eq!(status, KvStatus::Okay);
    let doc = session.body_contents(body.unwrap()).unwrap();
    assert_eq!(
        String::from_utf8(doc.clone()).unwrap(),
        "{\"data\":[\"a1\",\"a2\"],\"meta\":{\"limit\":10,\"prefix\":\"a\"}}"
    );
}

#[test]
fn list_zero_limit_rejected_synchronously() {
    let (reg, mut session, sh) = setup();
    assert_eq!(
        session.list(&reg, sh, None, None, 0).unwrap_err(),
        SessionError::Kv(KvStoreError::BadRequest)
    );
}

#[test]
fn list_bad_cursor_is_status_bad_request() {
    let (reg, mut session, sh) = setup();
    let lh = session
        .list(&reg, sh, Some("***".to_string()), None, 10)
        .unwrap();
    let (body, status) = session.list_wait(lh).unwrap();
    assert!(body.is_none());
    assert_eq!(status, KvStatus::BadRequest);
}

#[test]
fn mangle_keeps_adapter_imports() {
    let (module, name) = mangled_import("wasi_snapshot_preview1", "fd_write");
    assert_eq!(module, "wasi_snapshot_preview1");
    assert_eq!(name, "fd_write");
}

#[test]
fn mangle_rebinds_other_imports() {
    let (module, name) = mangled_import("fastly_kv", "open");
    assert_eq!(module, "wasi_snapshot_preview1");
    assert_eq!(name, "fastly_kv#open");
}

//! The hostcall facade: one guest session's view of the store.  Every
//! operation follows the two-phase pattern: a begin call validates its
//! inputs synchronously, runs the backing operation, and returns a
//! pending-operation handle without blocking; the matching wait call
//! consumes the handle exactly once and renders the outcome into guest
//! artifacts and a status code.

use vstd::prelude::*;
use vstd::string::StringSliceAdditionalSpecFns;
use vstd::utf8::encode_utf8;

use crate::errors::{KvInsertMode, KvStatus, KvStoreError, ObjectStoreError};
use crate::handle_table::HandleTable;
use crate::keys::{key_error, valid_key_bytes, KeyValidationError, ObjectKey, ObjectStoreKey};
use crate::cursor::b64_encoding;
use crate::listing::opt_str_bytes;
use crate::object_store::{insert_check, list_doc, merged_body, ObjectStores, ObjectValue};
use vstd::utf8::valid_utf8;
use crate::task::PeekableTask;

verus! {

/// A facade-level failure, raised synchronously by a begin call or by a
/// wait call whose outcome does not render into a status.
#[derive(Debug, PartialEq, Eq)]
pub enum SessionError {
    /// The begin call's key failed validation.
    InvalidKey(KeyValidationError),
    /// A handle that names nothing live: never handed out, or already
    /// consumed or released.
    UnknownHandle,
    /// A registry error that propagates as an error from a wait call.
    Store(ObjectStoreError),
    /// A key-value store error that propagates as an error from a wait
    /// call.
    Kv(KvStoreError),
    /// A caller-declared buffer is smaller than the metadata's length.
    BufferLen(u64),
}

/// The outcome of a completed lookup.
pub type LookupOutcome = Result<ObjectValue, ObjectStoreError>;

/// What a successful lookup hands the guest: a body handle (readable any
/// number of times), metadata readable at most once, and the generation.
pub struct LookupResult {
    body: u32,
    metadata: Option<Vec<u8>>,
    generation: u32,
}

impl LookupResult {
    /// The handle of the body in the session's body table.
    pub closed spec fn spec_body(self) -> u32 {
        self.body
    }

    /// The metadata still held, if any.
    pub closed spec fn spec_metadata(self) -> Option<Seq<u8>> {
        match self.metadata {
            Option::Some(m) => Option::Some(m@),
            Option::None => Option::None,
        }
    }

    /// The generation stamp of the value looked up.
    pub closed spec fn spec_generation(self) -> u32 {
        self.generation
    }
}

/// One guest session: its open-store handles, its pending operations,
/// and the artifacts its waits have produced.  The store registry itself
/// is shared by reference across sessions and passed in by the caller.
pub struct Session {
    pub kv_stores: HandleTable<ObjectStoreKey>,
    pub pending_lookups: HandleTable<PeekableTask<LookupOutcome>>,
    pub pending_inserts: HandleTable<PeekableTask<Result<(), KvStoreError>>>,
    pub pending_deletes: HandleTable<PeekableTask<Result<(), KvStoreError>>>,
    pub pending_lists: HandleTable<PeekableTask<Result<Vec<u8>, KvStoreError>>>,
    pub bodies: HandleTable<Vec<u8>>,
    pub lookup_results: HandleTable<LookupResult>,
}

impl Session {
    /// The open-store key under a store handle.
    pub open spec fn store_of(self, h: u32) -> Seq<u8> {
        self.kv_stores.value_of(h)@
    }

    /// A store handle is live.
    pub open spec fn has_store_handle(self, h: u32) -> bool {
        self.kv_stores.contains(h)
    }

    /// A pending lookup is live, and what it completed to.
    pub open spec fn pending_lookup(self, h: u32) -> bool {
        self.pending_lookups.contains(h)
    }

    /// Every stored task has completed, and no stored error is the
    /// uninitialized sentinel.
    pub open spec fn wf(self) -> bool {
        &&& forall|h: u32|
            #[trigger] self.pending_lookups.contains(h) ==> self.pending_lookups.value_of(
                h,
            ) is Complete && (self.pending_lookups.value_of(h)->Complete_0 matches Ok(v)
                ==> v.wf())
        &&& forall|h: u32|
            #[trigger] self.pending_inserts.contains(h) ==> self.pending_inserts.value_of(
                h,
            ) is Complete && (self.pending_inserts.value_of(h)->Complete_0 matches Err(e) ==> !(
            e is Uninitialized))
        &&& forall|h: u32|
            #[trigger] self.pending_deletes.contains(h) ==> self.pending_deletes.value_of(
                h,
            ) is Complete && (self.pending_deletes.value_of(h)->Complete_0 matches Err(e) ==> !(
            e is Uninitialized))
        &&& forall|h: u32|
            #[trigger] self.pending_lists.contains(h) ==> self.pending_lists.value_of(
                h,
            ) is Complete && (self.pending_lists.value_of(h)->Complete_0 matches Err(e) ==> !(
            e is Uninitialized))
    }

    /// A fresh session with no live handles.
    pub fn new() -> (r: Self)
        ensures
            r.wf(),
            forall|h: u32| !r.has_store_handle(h),
            forall|h: u32| !r.pending_lookup(h),
    {
        Session {
            kv_stores: HandleTable::new(),
            pending_lookups: HandleTable::new(),
            pending_inserts: HandleTable::new(),
            pending_deletes: HandleTable::new(),
            pending_lists: HandleTable::new(),
            bodies: HandleTable::new(),
            lookup_results: HandleTable::new(),
        }
    }

    /// Opens the store named `name`: fails synchronously if no such store
    /// exists, otherwise returns a fresh store handle.
    pub fn open(&mut self, registry: &ObjectStores, name: &str) -> (r: Result<u32, SessionError>)
        requires
            old(self).wf(),
            registry.wf(),
            old(self).kv_stores.next_handle() < u32::MAX,
        ensures
            final(self).wf(),
            !registry.has_store(name.spec_bytes()) ==> (r matches Err(
                SessionError::Store(ObjectStoreError::UnknownObjectStore(n)),
            ) && n@ == name@ && *final(self) == *old(self)),
            registry.has_store(name.spec_bytes()) ==> (r matches Ok(h)
                && final(self).has_store_handle(h) && final(self).store_of(h)
                == name.spec_bytes() && !old(self).has_store_handle(h)),
    {
        let exists_res = registry.store_exists(name);
        let present = match exists_res {
            Ok(b) => b,
            Err(_) => false,
        };
        if present {
            let h = self.kv_stores.insert(ObjectStoreKey::new(name));
            Ok(h)
        } else {
            Err(SessionError::Store(ObjectStoreError::UnknownObjectStore(name.to_owned())))
        }
    }

    /// Begins a lookup: resolves the store handle and validates the key
    /// synchronously, then spawns the backing lookup and returns a
    /// pending-lookup handle at once.
    pub fn lookup(&mut self, registry: &ObjectStores, store: u32, key: &str) -> (r: Result<
        u32,
        SessionError,
    >)
        requires
            old(self).wf(),
            registry.wf(),
            old(self).pending_lookups.next_handle() < u32::MAX,
        ensures
            final(self).wf(),
            !old(self).has_store_handle(store) ==> r == Result::<u32, SessionError>::Err(
                SessionError::UnknownHandle,
            ) && *final(self) == *old(self),
            old(self).has_store_handle(store) && !valid_key_bytes(key.spec_bytes()) ==> (r
                matches Err(SessionError::InvalidKey(e)) && e == key_error(key.spec_bytes())
                && *final(self) == *old(self)),
            old(self).has_store_handle(store) && valid_key_bytes(key.spec_bytes()) ==> (r
                matches Ok(h) && !old(self).pending_lookup(h) && final(self).pending_lookup(h) && {
                let out = final(self).pending_lookups.value_of(h)->Complete_0;
                let nb = old(self).store_of(store);
                let kb = key.spec_bytes();
                &&& registry.has_key(nb, kb) ==> (out matches Ok(v) && v@ == registry.value_at(
                    nb,
                    kb,
                ) && v.wf())
                &&& !registry.has_key(nb, kb) ==> out == Result::<
                    ObjectValue,
                    ObjectStoreError,
                >::Err(ObjectStoreError::MissingObject)
            }),
    {
        let sk: ObjectStoreKey = match self.kv_stores.get(store) {
            Some(sk) => sk.clone(),
            None => {
                return Err(SessionError::UnknownHandle);
            },
        };
        let ok = match ObjectKey::new(key) {
            Ok(k) => k,
            Err(e) => {
                return Err(SessionError::InvalidKey(e));
            },
        };
        let outcome = registry.lookup(&sk, &ok);
        let task = PeekableTask::spawn(outcome);
        let h = self.pending_lookups.insert(task);
        Ok(h)
    }

    /// Reports whether a pending lookup is ready, without consuming it.
    pub fn lookup_peek(&self, h: u32) -> (r: Result<bool, SessionError>)
        ensures
            !self.pending_lookup(h) ==> r == Result::<bool, SessionError>::Err(
                SessionError::UnknownHandle,
            ),
            self.pending_lookup(h) ==> r == Result::<bool, SessionError>::Ok(
                self.pending_lookups.value_of(h) is Complete,
            ),
    {
        match self.pending_lookups.get(h) {
            Some(t) => Ok(t.is_ready()),
            None => Err(SessionError::UnknownHandle),
        }
    }

    /// Waits on a pending lookup, consuming its handle: a found object
    /// becomes a lookup-result handle with status `Okay`; a missing
    /// object is the soft pair (no result, `NotFound`); any other
    /// registry error propagates as an error.  A consumed or unknown
    /// handle fails.
    pub fn lookup_wait(&mut self, h: u32) -> (r: Result<(Option<u32>, KvStatus), SessionError>)
        requires
            old(self).wf(),
            old(self).bodies.next_handle() < u32::MAX,
            old(self).lookup_results.next_handle() < u32::MAX,
        ensures
            final(self).wf(),
            !old(self).pending_lookup(h) ==> r == Result::<
                (Option<u32>, KvStatus),
                SessionError,
            >::Err(SessionError::UnknownHandle) && *final(self) == *old(self),
            old(self).pending_lookup(h) ==> !final(self).pending_lookup(h),
            old(self).pending_lookup(h) ==> {
                let out = old(self).pending_lookups.value_of(h)->Complete_0;
                &&& (out matches Ok(v) ==> (r matches Ok((Some(rh), st)) && st == KvStatus::Okay
                    && final(self).lookup_results.contains(rh) && {
                    let lr = final(self).lookup_results.value_of(rh);
                    &&& final(self).bodies.contains(lr.spec_body())
                    &&& final(self).bodies.value_of(lr.spec_body())@ == v.body@
                    &&& lr.spec_generation() == v.generation
                    &&& v.metadata@.len() > 0 ==> lr.spec_metadata() == Option::Some(v.metadata@)
                    &&& v.metadata@.len() == 0 ==> lr.spec_metadata() is None
                }))
                &&& (out == Result::<ObjectValue, ObjectStoreError>::Err(
                    ObjectStoreError::MissingObject,
                ) ==> r == Result::<(Option<u32>, KvStatus), SessionError>::Ok(
                    (Option::None, KvStatus::NotFound),
                ))
                &&& (match out {
                    Result::Err(e) => !(e is MissingObject) ==> r == Result::<
                        (Option<u32>, KvStatus),
                        SessionError,
                    >::Err(SessionError::Store(e)),
                    Result::Ok(_) => true,
                })
            },
    {
        let task = match self.pending_lookups.take(h) {
            Some(t) => t,
            None => {
                return Err(SessionError::UnknownHandle);
            },
        };
        match task.recv() {
            Ok(v) => {
                let has_md = v.metadata_len > 0;
                let bh = self.bodies.insert(v.body);
                let lr = LookupResult {
                    body: bh,
                    metadata: if has_md {
                        Some(v.metadata)
                    } else {
                        None
                    },
                    generation: v.generation,
                };
                let rh = self.lookup_results.insert(lr);
                Ok((Some(rh), KvStatus::Okay))
            },
            Err(e) => {
                match e {
                    ObjectStoreError::MissingObject => Ok((None, KvStatus::NotFound)),
                    other => Err(SessionError::Store(other)),
                }
            },
        }
    }

    /// Begins an insert: resolves the store handle and validates the key
    /// synchronously, runs the backing insert, and returns a
    /// pending-insert handle at once.  The write's checks and effects are
    /// those of the registry's insert.
    pub fn insert(
        &mut self,
        registry: &mut ObjectStores,
        store: u32,
        key: &str,
        body: Vec<u8>,
        mode: KvInsertMode,
        generation: Option<u32>,
        metadata: Option<Vec<u8>>,
    ) -> (r: Result<u32, SessionError>)
        requires
            old(self).wf(),
            old(registry).wf(),
            old(self).pending_inserts.next_handle() < u32::MAX,
        ensures
            final(self).wf(),
            final(registry).wf(),
            !old(self).has_store_handle(store) ==> r == Result::<u32, SessionError>::Err(
                SessionError::UnknownHandle,
            ) && *final(self) == *old(self) && *final(registry) == *old(registry),
            old(self).has_store_handle(store) && !valid_key_bytes(key.spec_bytes()) ==> (r
                matches Err(SessionError::InvalidKey(e)) && e == key_error(key.spec_bytes())
                && *final(self) == *old(self) && *final(registry) == *old(registry)),
            old(self).has_store_handle(store) && valid_key_bytes(key.spec_bytes()) ==> (r
                matches Ok(h) && !old(self).pending_inserts.contains(h) && final(self).pending_inserts.contains(h) && {
                let out = final(self).pending_inserts.value_of(h)->Complete_0;
                let nb = old(self).store_of(store);
                let kb = key.spec_bytes();
                &&& out == insert_check(old(registry).value_opt(nb, kb), mode, generation)
                &&& out is Err ==> *final(registry) == *old(registry)
                &&& out is Ok ==> final(registry).has_key(nb, kb) && final(registry).value_at(
                    nb,
                    kb,
                ).body == merged_body(old(registry).value_opt(nb, kb), body@, mode) && final(registry).value_at(nb, kb).metadata == (match metadata {
                    Option::Some(m) => m@,
                    Option::None => Seq::<u8>::empty(),
                })
                &&& out is Ok ==> forall|n2: Seq<u8>, k2: Seq<u8>|
                    !(n2 == nb && k2 == kb) ==> final(registry).has_key(n2, k2) == old(registry).has_key(n2, k2)
                &&& out is Ok ==> forall|n2: Seq<u8>, k2: Seq<u8>|
                    !(n2 == nb && k2 == kb) && old(registry).has_key(n2, k2) ==> final(registry).value_at(n2, k2) == old(registry).value_at(n2, k2)
            }),
    {
        let sk: ObjectStoreKey = match self.kv_stores.get(store) {
            Some(sk) => sk.clone(),
            None => {
                return Err(SessionError::UnknownHandle);
            },
        };
        let ok = match ObjectKey::new(key) {
            Ok(k) => k,
            Err(e) => {
                return Err(SessionError::InvalidKey(e));
            },
        };
        let outcome = registry.insert(sk, ok, body, mode, generation, metadata);
        let task = PeekableTask::spawn(outcome);
        let h = self.pending_inserts.insert(task);
        Ok(h)
    }

    /// Reports whether a pending insert is ready, without consuming it.
    pub fn insert_peek(&self, h: u32) -> (r: Result<bool, SessionError>)
        ensures
            !self.pending_inserts.contains(h) ==> r == Result::<bool, SessionError>::Err(
                SessionError::UnknownHandle,
            ),
            self.pending_inserts.contains(h) ==> r == Result::<bool, SessionError>::Ok(
                self.pending_inserts.value_of(h) is Complete,
            ),
    {
        match self.pending_inserts.get(h) {
            Some(t) => Ok(t.is_ready()),
            None => Err(SessionError::UnknownHandle),
        }
    }

    /// Waits on a pending insert, consuming its handle, and renders the
    /// outcome into a status.
    pub fn insert_wait(&mut self, h: u32) -> (r: Result<KvStatus, SessionError>)
        requires
            old(self).wf(),
        ensures
            final(self).wf(),
            !old(self).pending_inserts.contains(h) ==> r == Result::<KvStatus, SessionError>::Err(
                SessionError::UnknownHandle,
            ) && *final(self) == *old(self),
            old(self).pending_inserts.contains(h) ==> !final(self).pending_inserts.contains(h) && {
                let out = old(self).pending_inserts.value_of(h)->Complete_0;
                &&& out is Ok ==> r == Result::<KvStatus, SessionError>::Ok(KvStatus::Okay)
                &&& (out matches Err(e) ==> r == Result::<KvStatus, SessionError>::Ok(
                    e.spec_status(),
                ))
            },
    {
        let task = match self.pending_inserts.take(h) {
            Some(t) => t,
            None => {
                return Err(SessionError::UnknownHandle);
            },
        };
        match task.recv() {
            Ok(_) => Ok(KvStatus::Okay),
            Err(e) => Ok(e.status()),
        }
    }

    /// Begins a delete: resolves the store handle and validates the key
    /// synchronously, runs the backing delete, and returns a
    /// pending-delete handle at once.
    pub fn delete(&mut self, registry: &mut ObjectStores, store: u32, key: &str) -> (r: Result<
        u32,
        SessionError,
    >)
        requires
            old(self).wf(),
            old(registry).wf(),
            old(self).pending_deletes.next_handle() < u32::MAX,
        ensures
            final(self).wf(),
            final(registry).wf(),
            !old(self).has_store_handle(store) ==> r == Result::<u32, SessionError>::Err(
                SessionError::UnknownHandle,
            ) && *final(self) == *old(self) && *final(registry) == *old(registry),
            old(self).has_store_handle(store) && !valid_key_bytes(key.spec_bytes()) ==> (r
                matches Err(SessionError::InvalidKey(e)) && e == key_error(key.spec_bytes())
                && *final(self) == *old(self) && *final(registry) == *old(registry)),
            old(self).has_store_handle(store) && valid_key_bytes(key.spec_bytes()) ==> (r
                matches Ok(h) && !old(self).pending_deletes.contains(h) && final(self).pending_deletes.contains(h) && {
                let out = final(self).pending_deletes.value_of(h)->Complete_0;
                let nb = old(self).store_of(store);
                let kb = key.spec_bytes();
                &&& old(registry).has_key(nb, kb) ==> out is Ok && !final(registry).has_key(nb, kb)
                &&& !old(registry).has_key(nb, kb) ==> out == Result::<(), KvStoreError>::Err(
                    KvStoreError::NotFound,
                ) && *final(registry) == *old(registry)
                &&& out is Ok ==> forall|n2: Seq<u8>, k2: Seq<u8>|
                    !(n2 == nb && k2 == kb) ==> final(registry).has_key(n2, k2) == old(registry).has_key(n2, k2)
            }),
    {
        let sk: ObjectStoreKey = match self.kv_stores.get(store) {
            Some(sk) => sk.clone(),
            None => {
                return Err(SessionError::UnknownHandle);
            },
        };
        let ok = match ObjectKey::new(key) {
            Ok(k) => k,
            Err(e) => {
                return Err(SessionError::InvalidKey(e));
            },
        };
        let outcome = registry.delete(sk, ok);
        let task = PeekableTask::spawn(outcome);
        let h = self.pending_deletes.insert(task);
        Ok(h)
    }

    /// Reports whether a pending delete is ready, without consuming it.
    pub fn delete_peek(&self, h: u32) -> (r: Result<bool, SessionError>)
        ensures
            !self.pending_deletes.contains(h) ==> r == Result::<bool, SessionError>::Err(
                SessionError::UnknownHandle,
            ),
            self.pending_deletes.contains(h) ==> r == Result::<bool, SessionError>::Ok(
                self.pending_deletes.value_of(h) is Complete,
            ),
    {
        match self.pending_deletes.get(h) {
            Some(t) => Ok(t.is_ready()),
            None => Err(SessionError::UnknownHandle),
        }
    }

    /// Waits on a pending delete, consuming its handle.  A missing key is
    /// a hard error here, deliberately asymmetric with lookup: callers
    /// distinguish the two call sites.
    pub fn delete_wait(&mut self, h: u32) -> (r: Result<KvStatus, SessionError>)
        requires
            old(self).wf(),
        ensures
            final(self).wf(),
            !old(self).pending_deletes.contains(h) ==> r == Result::<KvStatus, SessionError>::Err(
                SessionError::UnknownHandle,
            ) && *final(self) == *old(self),
            old(self).pending_deletes.contains(h) ==> !final(self).pending_deletes.contains(h) && {
                let out = old(self).pending_deletes.value_of(h)->Complete_0;
                &&& out is Ok ==> r == Result::<KvStatus, SessionError>::Ok(KvStatus::Okay)
                &&& (out matches Err(e) ==> r == Result::<KvStatus, SessionError>::Err(
                    SessionError::Kv(e),
                ))
            },
    {
        let task = match self.pending_deletes.take(h) {
            Some(t) => t,
            None => {
                return Err(SessionError::UnknownHandle);
            },
        };
        match task.recv() {
            Ok(_) => Ok(KvStatus::Okay),
            Err(e) => Err(SessionError::Kv(e)),
        }
    }

    /// Begins a listing: resolves the store handle synchronously (a zero
    /// limit is rejected there too), runs the backing listing, and
    /// returns a pending-list handle at once.
    pub fn list(
        &mut self,
        registry: &ObjectStores,
        store: u32,
        cursor: Option<String>,
        prefix: Option<String>,
        limit: u32,
    ) -> (r: Result<u32, SessionError>)
        requires
            old(self).wf(),
            registry.wf(),
            old(self).pending_lists.next_handle() < u32::MAX,
        ensures
            final(self).wf(),
            !old(self).has_store_handle(store) ==> r == Result::<u32, SessionError>::Err(
                SessionError::UnknownHandle,
            ) && *final(self) == *old(self),
            old(self).has_store_handle(store) && limit == 0 ==> r == Result::<
                u32,
                SessionError,
            >::Err(SessionError::Kv(KvStoreError::BadRequest)) && *final(self) == *old(self),
            old(self).has_store_handle(store) && limit >= 1 ==> (r matches Ok(h) && !old(self).pending_lists.contains(h) && final(self).pending_lists.contains(h) && final(self).pending_lists.value_of(h) is Complete && {
                let out = final(self).pending_lists.value_of(h)->Complete_0;
                let nb = old(self).store_of(store);
                &&& !registry.has_store(nb) ==> out == Result::<Vec<u8>, KvStoreError>::Err(
                    KvStoreError::InternalError,
                )
                &&& registry.has_store(nb) ==> (match cursor {
                    Option::None => (out matches Ok(doc) && doc@ == list_doc(
                        registry.keys_of(nb),
                        Option::None,
                        opt_str_bytes(prefix),
                        limit,
                    )),
                    Option::Some(c) => {
                        if (exists|b: Seq<u8>| b64_encoding(b) == c@ && valid_utf8(b)) {
                            out matches Ok(doc) && (exists|b: Seq<u8>|
                                b64_encoding(b) == c@ && valid_utf8(b) && doc@ == list_doc(
                                    registry.keys_of(nb),
                                    Option::Some(b),
                                    opt_str_bytes(prefix),
                                    limit,
                                ))
                        } else {
                            out == Result::<Vec<u8>, KvStoreError>::Err(KvStoreError::BadRequest)
                        }
                    },
                })
            }),
    {
        let sk: ObjectStoreKey = match self.kv_stores.get(store) {
            Some(sk) => sk.clone(),
            None => {
                return Err(SessionError::UnknownHandle);
            },
        };
        if limit == 0 {
            return Err(SessionError::Kv(KvStoreError::BadRequest));
        }
        let outcome = registry.list(sk, cursor, prefix, limit);
        let task = PeekableTask::spawn(outcome);
        let h = self.pending_lists.insert(task);
        Ok(h)
    }

    /// Reports whether a pending listing is ready, without consuming it.
    pub fn list_peek(&self, h: u32) -> (r: Result<bool, SessionError>)
        ensures
            !self.pending_lists.contains(h) ==> r == Result::<bool, SessionError>::Err(
                SessionError::UnknownHandle,
            ),
            self.pending_lists.contains(h) ==> r == Result::<bool, SessionError>::Ok(
                self.pending_lists.value_of(h) is Complete,
            ),
    {
        match self.pending_lists.get(h) {
            Some(t) => Ok(t.is_ready()),
            None => Err(SessionError::UnknownHandle),
        }
    }

    /// Waits on a pending listing, consuming its handle: the rendered
    /// document becomes a body handle with status `Okay`; an error is
    /// rendered as a status with no body.
    pub fn list_wait(&mut self, h: u32) -> (r: Result<(Option<u32>, KvStatus), SessionError>)
        requires
            old(self).wf(),
            old(self).bodies.next_handle() < u32::MAX,
        ensures
            final(self).wf(),
            !old(self).pending_lists.contains(h) ==> r == Result::<
                (Option<u32>, KvStatus),
                SessionError,
            >::Err(SessionError::UnknownHandle) && *final(self) == *old(self),
            old(self).pending_lists.contains(h) ==> !final(self).pending_lists.contains(h) && {
                let out = old(self).pending_lists.value_of(h)->Complete_0;
                &&& (out matches Ok(doc) ==> (r matches Ok((Some(bh), st)) && st == KvStatus::Okay
                    && final(self).bodies.contains(bh) && final(self).bodies.value_of(bh)@
                    == doc@))
                &&& (out matches Err(e) ==> r == Result::<(Option<u32>, KvStatus), SessionError>::Ok(
                    (Option::None, e.spec_status()),
                ))
            },
    {
        let task = match self.pending_lists.take(h) {
            Some(t) => t,
            None => {
                return Err(SessionError::UnknownHandle);
            },
        };
        match task.recv() {
            Ok(doc) => {
                let bh = self.bodies.insert(doc);
                Ok((Some(bh), KvStatus::Okay))
            },
            Err(e) => Ok((None, e.status())),
        }
    }

    /// The body handle of a lookup result; readable any number of times.
    pub fn body(&self, rh: u32) -> (r: Result<u32, SessionError>)
        ensures
            !self.lookup_results.contains(rh) ==> r == Result::<u32, SessionError>::Err(
                SessionError::UnknownHandle,
            ),
            self.lookup_results.contains(rh) ==> r == Result::<u32, SessionError>::Ok(
                self.lookup_results.value_of(rh).spec_body(),
            ),
    {
        match self.lookup_results.get(rh) {
            Some(lr) => Ok(lr.body),
            None => Err(SessionError::UnknownHandle),
        }
    }

    /// The generation stamp of a lookup result.
    pub fn generation(&self, rh: u32) -> (r: Result<u32, SessionError>)
        ensures
            !self.lookup_results.contains(rh) ==> r == Result::<u32, SessionError>::Err(
                SessionError::UnknownHandle,
            ),
            self.lookup_results.contains(rh) ==> r == Result::<u32, SessionError>::Ok(
                self.lookup_results.value_of(rh).spec_generation(),
            ),
    {
        match self.lookup_results.get(rh) {
            Some(lr) => Ok(lr.generation),
            None => Err(SessionError::UnknownHandle),
        }
    }

    /// Reads a lookup result's metadata into a caller-declared capacity:
    /// absent metadata reads as nothing; a capacity smaller than the
    /// metadata's length is a buffer-length error rather than a silent
    /// truncation; a successful read moves the bytes out, so a second
    /// read finds nothing.
    pub fn metadata(&mut self, rh: u32, max_len: u64) -> (r: Result<Option<Vec<u8>>, SessionError>)
        requires
            old(self).wf(),
        ensures
            final(self).wf(),
            !old(self).lookup_results.contains(rh) ==> r == Result::<
                Option<Vec<u8>>,
                SessionError,
            >::Err(SessionError::UnknownHandle) && *final(self) == *old(self),
            old(self).lookup_results.contains(rh) ==> {
                let lr = old(self).lookup_results.value_of(rh);
                &&& (match lr.spec_metadata() {
                    Option::None => r == Result::<Option<Vec<u8>>, SessionError>::Ok(Option::None)
                        && *final(self) == *old(self),
                    Option::Some(md) => {
                        &&& md.len() > max_len ==> r == Result::<
                            Option<Vec<u8>>,
                            SessionError,
                        >::Err(SessionError::BufferLen(md.len() as u64)) && *final(self) == *old(self)
                        &&& md.len() <= max_len ==> (r matches Ok(rv) && rv matches Some(v) && v@
                            == md && final(self).lookup_results.contains(rh) && final(self).lookup_results.value_of(rh).spec_metadata() is None && final(self).lookup_results.value_of(rh).spec_body() == lr.spec_body() && final(self).lookup_results.value_of(rh).spec_generation() == lr.spec_generation())
                    },
                })
            },
    {
        let mut has_md: bool = false;
        let mut len: usize = 0;
        let mut bh: u32 = 0;
        let mut gen: u32 = 0;
        match self.lookup_results.get(rh) {
            Some(lr) => {
                bh = lr.body;
                gen = lr.generation;
                match &lr.metadata {
                    Some(md) => {
                        has_md = true;
                        len = md.len();
                    },
                    None => {},
                }
            },
            None => {
                return Err(SessionError::UnknownHandle);
            },
        }
        if !has_md {
            return Ok(None);
        }
        if len as u64 > max_len {
            return Err(SessionError::BufferLen(len as u64));
        }
        let emptied = LookupResult { body: bh, metadata: None, generation: gen };
        match self.lookup_results.replace(rh, emptied) {
            Ok(prev_lr) => Ok(prev_lr.metadata),
            Err(_) => {
                proof {
                    assert(false);
                }
                Err(SessionError::UnknownHandle)
            },
        }
    }

    /// Releases a lookup-result handle; releasing an unknown or already
    /// released handle is an error, never silently ignored.
    pub fn release(&mut self, rh: u32) -> (r: Result<(), SessionError>)
        requires
            old(self).wf(),
        ensures
            final(self).wf(),
            !old(self).lookup_results.contains(rh) ==> r == Result::<(), SessionError>::Err(
                SessionError::UnknownHandle,
            ) && *final(self) == *old(self),
            old(self).lookup_results.contains(rh) ==> r is Ok && !final(self).lookup_results.contains(rh),
    {
        match self.lookup_results.take(rh) {
            Some(_) => Ok(()),
            None => Err(SessionError::UnknownHandle),
        }
    }

    /// The bytes under a body handle.
    pub fn body_contents(&self, bh: u32) -> (r: Result<&Vec<u8>, SessionError>)
        ensures
            !self.bodies.contains(bh) ==> r is Err,
            self.bodies.contains(bh) ==> (r matches Ok(v) && *v == self.bodies.value_of(bh)),
    {
        match self.bodies.get(bh) {
            Some(v) => Ok(v),
            None => Err(SessionError::UnknownHandle),
        }
    }
}

} // verus!

//! The layered error taxonomy: storage-registry errors, the key-value
//! store's error set, its guest-facing twin, and the fixed status codes a
//! guest sees.  Every conversion is total over the inputs it admits, so no
//! error kind is silently dropped when crossing a layer boundary.

use vstd::prelude::*;
use vstd::std_specs::convert::FromSpec;

verus! {

/// How an insert resolves a conflict with an existing value.
#[derive(Debug, Clone, Copy, PartialEq, Eq, Structural)]
pub enum KvInsertMode {
    Overwrite,
    Add,
    Append,
    Prepend,
}

/// Errors of the storage registry itself.
#[derive(Debug, PartialEq, Eq)]
pub enum ObjectStoreError {
    /// The object was not in the store.
    MissingObject,
    /// The registry lock was poisoned; permanent for the process.
    PoisonedLock,
    /// No store with the given name exists.
    UnknownObjectStore(String),
}

/// Errors of the key-value store surface.
#[derive(Debug, Clone, Copy, PartialEq, Eq, Structural)]
pub enum KvStoreError {
    /// Sentinel: no error has ever been set.  Never surfaced to a guest.
    Uninitialized,
    /// There was no error.
    NoError,
    /// The request is malformed (for example, an undecodable cursor).
    BadRequest,
    /// The requested resource is absent.
    NotFound,
    /// A client precondition (generation match, or `Add` on an existing
    /// key) did not hold.
    PreconditionFailed,
    /// A size limit was exceeded.
    PayloadTooLarge,
    /// An unexpected internal failure.
    InternalError,
    /// Rate limiting; reserved for backing stores that enforce it.
    TooManyRequests,
}

/// The guest-facing twin of `KvStoreError`.
#[derive(Debug, Clone, Copy, PartialEq, Eq, Structural)]
pub enum KvError {
    Uninitialized,
    NoError,
    BadRequest,
    NotFound,
    PreconditionFailed,
    PayloadTooLarge,
    InternalError,
    TooManyRequests,
}

/// The fixed status code set a wait call renders its outcome into.
#[derive(Debug, Clone, Copy, PartialEq, Eq, Structural)]
pub enum KvStatus {
    Okay,
    BadRequest,
    NotFound,
    PreconditionFailed,
    PayloadTooLarge,
    InternalError,
    TooManyRequests,
}

/// The hostcall ABI's overall status word.
#[derive(Debug, Clone, Copy, PartialEq, Eq, Structural)]
pub enum FastlyStatus {
    Okay,
    Inval,
    NoneFound,
    Buflen,
}

impl From<KvError> for KvStoreError {
    /// Total, variant for variant.
    fn from(e: KvError) -> Self {
        match e {
            KvError::Uninitialized => KvStoreError::Uninitialized,
            KvError::NoError => KvStoreError::NoError,
            KvError::BadRequest => KvStoreError::BadRequest,
            KvError::NotFound => KvStoreError::NotFound,
            KvError::PreconditionFailed => KvStoreError::PreconditionFailed,
            KvError::PayloadTooLarge => KvStoreError::PayloadTooLarge,
            KvError::InternalError => KvStoreError::InternalError,
            KvError::TooManyRequests => KvStoreError::TooManyRequests,
        }
    }
}

impl vstd::std_specs::convert::FromSpecImpl<KvError> for KvStoreError {
    open spec fn obeys_from_spec() -> bool {
        true
    }

    open spec fn from_spec(e: KvError) -> Self {
        match e {
            KvError::Uninitialized => KvStoreError::Uninitialized,
            KvError::NoError => KvStoreError::NoError,
            KvError::BadRequest => KvStoreError::BadRequest,
            KvError::NotFound => KvStoreError::NotFound,
            KvError::PreconditionFailed => KvStoreError::PreconditionFailed,
            KvError::PayloadTooLarge => KvStoreError::PayloadTooLarge,
            KvError::InternalError => KvStoreError::InternalError,
            KvError::TooManyRequests => KvStoreError::TooManyRequests,
        }
    }
}

impl From<KvStoreError> for KvError {
    /// Total, variant for variant: the inverse of the conversion above.
    fn from(e: KvStoreError) -> Self {
        match e {
            KvStoreError::Uninitialized => KvError::Uninitialized,
            KvStoreError::NoError => KvError::NoError,
            KvStoreError::BadRequest => KvError::BadRequest,
            KvStoreError::NotFound => KvError::NotFound,
            KvStoreError::PreconditionFailed => KvError::PreconditionFailed,
            KvStoreError::PayloadTooLarge => KvError::PayloadTooLarge,
            KvStoreError::InternalError => KvError::InternalError,
            KvStoreError::TooManyRequests => KvError::TooManyRequests,
        }
    }
}

impl vstd::std_specs::convert::FromSpecImpl<KvStoreError> for KvError {
    open spec fn obeys_from_spec() -> bool {
        true
    }

    open spec fn from_spec(e: KvStoreError) -> Self {
        match e {
            KvStoreError::Uninitialized => KvError::Uninitialized,
            KvStoreError::NoError => KvError::NoError,
            KvStoreError::BadRequest => KvError::BadRequest,
            KvStoreError::NotFound => KvError::NotFound,
            KvStoreError::PreconditionFailed => KvError::PreconditionFailed,
            KvStoreError::PayloadTooLarge => KvError::PayloadTooLarge,
            KvStoreError::InternalError => KvError::InternalError,
            KvStoreError::TooManyRequests => KvError::TooManyRequests,
        }
    }
}

/// The round trip through the guest-facing twin loses nothing: the two
/// conversions invert each other, so no error kind is dropped at that
/// boundary.
pub proof fn lemma_kv_error_round_trip(e: KvStoreError, g: KvError)
    ensures
        KvError::from_spec(KvStoreError::from_spec(g)) == g,
        KvStoreError::from_spec(KvError::from_spec(e)) == e,
{
}

impl KvStoreError {
    /// The status a wait call reports for this error.
    pub open spec fn spec_status(self) -> KvStatus {
        match self {
            KvStoreError::Uninitialized => KvStatus::InternalError,
            KvStoreError::NoError => KvStatus::Okay,
            KvStoreError::BadRequest => KvStatus::BadRequest,
            KvStoreError::NotFound => KvStatus::NotFound,
            KvStoreError::PreconditionFailed => KvStatus::PreconditionFailed,
            KvStoreError::PayloadTooLarge => KvStatus::PayloadTooLarge,
            KvStoreError::InternalError => KvStatus::InternalError,
            KvStoreError::TooManyRequests => KvStatus::TooManyRequests,
        }
    }

    /// Renders the error as a guest status.  The uninitialized sentinel
    /// must never reach a guest, so it is left out here.
    pub fn status(&self) -> (r: KvStatus)
        requires
            !(self is Uninitialized),
        ensures
            r == self.spec_status(),
    {
        match self {
            KvStoreError::Uninitialized => KvStatus::InternalError,
            KvStoreError::NoError => KvStatus::Okay,
            KvStoreError::BadRequest => KvStatus::BadRequest,
            KvStoreError::NotFound => KvStatus::NotFound,
            KvStoreError::PreconditionFailed => KvStatus::PreconditionFailed,
            KvStoreError::PayloadTooLarge => KvStatus::PayloadTooLarge,
            KvStoreError::InternalError => KvStatus::InternalError,
            KvStoreError::TooManyRequests => KvStatus::TooManyRequests,
        }
    }

    /// The ABI status word for this error.  Only a real outcome can be
    /// rendered, so the uninitialized sentinel is left out.
    pub fn fastly_status(&self) -> (r: FastlyStatus)
        requires
            !(self is Uninitialized),
        ensures
            self is NoError ==> r == FastlyStatus::Okay,
            self is NotFound ==> r == FastlyStatus::NoneFound,
            !(self is NoError) && !(self is NotFound) ==> r == FastlyStatus::Inval,
    {
        match self {
            KvStoreError::Uninitialized => FastlyStatus::Inval,
            KvStoreError::NoError => FastlyStatus::Okay,
            KvStoreError::BadRequest => FastlyStatus::Inval,
            KvStoreError::NotFound => FastlyStatus::NoneFound,
            KvStoreError::PreconditionFailed => FastlyStatus::Inval,
            KvStoreError::PayloadTooLarge => FastlyStatus::Inval,
            KvStoreError::InternalError => FastlyStatus::Inval,
            KvStoreError::TooManyRequests => FastlyStatus::Inval,
        }
    }
}

impl ObjectStoreError {
    /// The ABI status word for this error.  A poisoned lock is never
    /// rendered as a status, so it is left out.
    pub fn fastly_status(&self) -> (r: FastlyStatus)
        requires
            !(self is PoisonedLock),
        ensures
            self is MissingObject ==> r == FastlyStatus::NoneFound,
            self matches ObjectStoreError::UnknownObjectStore(_) ==> r == FastlyStatus::Inval,
    {
        match self {
            ObjectStoreError::MissingObject => FastlyStatus::NoneFound,
            ObjectStoreError::PoisonedLock => FastlyStatus::Inval,
            ObjectStoreError::UnknownObjectStore(_) => FastlyStatus::Inval,
        }
    }

    /// Demotes a key-value store error to a registry error: only
    /// `NotFound` has a real counterpart.
    pub fn of_kv_store_error(e: &KvStoreError) -> (r: Self)
        ensures
            e is NotFound ==> r is MissingObject,
            !(e is NotFound) ==> (r matches ObjectStoreError::UnknownObjectStore(s)
                && s@ == Seq::<char>::empty()),
    {
        match e {
            KvStoreError::NotFound => ObjectStoreError::MissingObject,
            _ => ObjectStoreError::UnknownObjectStore(String::new()),
        }
    }
}

} // verus!

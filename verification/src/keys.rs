//! Object keys and store names, with the byte-exact validation rules that
//! every key must satisfy before it may enter a store.

use vstd::prelude::*;
use vstd::string::StrSliceExecFns;
use vstd::string::StringSliceAdditionalSpecFns;

verus! {

/// Largest allowed key length, in UTF-8 bytes.
pub const MAX_KEY_BYTES: usize = 1024;

/// Why a candidate object key was rejected.  The `Contains` payload is the
/// forbidden character that was found, the first one in the order in which
/// the rules are checked.
#[derive(Debug, Clone, Copy, PartialEq, Eq)]
pub enum KeyValidationError {
    EmptyKey,
    Over1024Bytes,
    StartsWithWellKnown,
    ContainsDot,
    ContainsDotDot,
    Contains(char),
}

/// The reserved prefix that no key may start with.
pub open spec fn spec_well_known_prefix() -> Seq<u8> {
    ".well-known/acme-challenge".spec_bytes()
}

/// `kb` holds the byte `b` somewhere.
pub open spec fn contains_byte(kb: Seq<u8>, b: u8) -> bool {
    exists|i: int| 0 <= i < kb.len() && kb[i] == b
}

/// One of the forbidden bytes occurs in `kb`: carriage return, line feed,
/// `[`, `]`, `*`, `?` or `#`.
pub open spec fn has_forbidden_byte(kb: Seq<u8>) -> bool {
    ||| contains_byte(kb, 13)
    ||| contains_byte(kb, 10)
    ||| contains_byte(kb, 91)
    ||| contains_byte(kb, 93)
    ||| contains_byte(kb, 42)
    ||| contains_byte(kb, 63)
    ||| contains_byte(kb, 35)
}

/// `kb` begins with `prefix`.
pub open spec fn starts_with(kb: Seq<u8>, prefix: Seq<u8>) -> bool {
    kb.len() >= prefix.len() && kb.subrange(0, prefix.len() as int) == prefix
}

/// The validation rules for an object key, over its UTF-8 bytes: length
/// 1 to 1024 bytes, not `.` or `..`, no reserved prefix, none of the
/// forbidden bytes.
pub open spec fn valid_key_bytes(kb: Seq<u8>) -> bool {
    &&& 1 <= kb.len() <= MAX_KEY_BYTES
    &&& !starts_with(kb, spec_well_known_prefix())
    &&& kb != seq![46u8]
    &&& kb != seq![46u8, 46u8]
    &&& !has_forbidden_byte(kb)
}

/// The error an invalid key is rejected with: the rules are checked in a
/// fixed order and the first one broken names the variant.
pub open spec fn key_error(kb: Seq<u8>) -> KeyValidationError
    recommends
        !valid_key_bytes(kb),
{
    if kb.len() < 1 {
        KeyValidationError::EmptyKey
    } else if kb.len() > MAX_KEY_BYTES {
        KeyValidationError::Over1024Bytes
    } else if starts_with(kb, spec_well_known_prefix()) {
        KeyValidationError::StartsWithWellKnown
    } else if kb == seq![46u8, 46u8] {
        KeyValidationError::ContainsDotDot
    } else if kb == seq![46u8] {
        KeyValidationError::ContainsDot
    } else if contains_byte(kb, 13) {
        KeyValidationError::Contains('\r')
    } else if contains_byte(kb, 10) {
        KeyValidationError::Contains('\n')
    } else if contains_byte(kb, 91) {
        KeyValidationError::Contains('[')
    } else if contains_byte(kb, 93) {
        KeyValidationError::Contains(']')
    } else if contains_byte(kb, 42) {
        KeyValidationError::Contains('*')
    } else if contains_byte(kb, 63) {
        KeyValidationError::Contains('?')
    } else {
        KeyValidationError::Contains('#')
    }
}

/// Does `kb` start with `prefix`?
pub fn starts_with_bytes(kb: &[u8], prefix: &[u8]) -> (r: bool)
    ensures
        r == starts_with(kb@, prefix@),
{
    if kb.len() < prefix.len() {
        return false;
    }
    let n: usize = prefix.len();
    let mut i: usize = 0;
    while i < n
        invariant
            n == prefix@.len() <= kb@.len(),
            0 <= i <= n,
            forall|j: int| 0 <= j < i ==> kb@[j] == prefix@[j],
        decreases n - i,
    {
        if kb[i] != prefix[i] {
            assert(!starts_with(kb@, prefix@)) by {
                assert(kb@.subrange(0, n as int)[i as int] == kb@[i as int]);
            }
            return false;
        }
        i += 1;
    }
    assert(kb@.subrange(0, n as int) =~= prefix@);
    true
}

/// Does `kb` hold the byte `b`?
pub fn slice_contains_byte(kb: &[u8], b: u8) -> (r: bool)
    ensures
        r == contains_byte(kb@, b),
{
    let n: usize = kb.len();
    let mut i: usize = 0;
    while i < n
        invariant
            n == kb@.len(),
            0 <= i <= n,
            forall|j: int| 0 <= j < i ==> kb@[j] != b,
        decreases n - i,
    {
        if kb[i] == b {
            return true;
        }
        i += 1;
    }
    false
}

/// Checks a candidate key against every validation rule, in the fixed
/// order that decides which error an invalid key is rejected with.
pub fn is_valid_key(key: &str) -> (r: Result<(), KeyValidationError>)
    ensures
        r is Ok <==> valid_key_bytes(key.spec_bytes()),
        r matches Err(e) ==> e == key_error(key.spec_bytes()),
{
    let kb: &[u8] = key.as_bytes();
    if kb.len() < 1 {
        return Err(KeyValidationError::EmptyKey);
    }
    if kb.len() > MAX_KEY_BYTES {
        return Err(KeyValidationError::Over1024Bytes);
    }
    if starts_with_bytes(kb, ".well-known/acme-challenge".as_bytes()) {
        return Err(KeyValidationError::StartsWithWellKnown);
    }
    if kb.len() == 2 && kb[0] == 46 && kb[1] == 46 {
        assert(kb@ =~= seq![46u8, 46u8]);
        return Err(KeyValidationError::ContainsDotDot);
    }
    assert(kb@ != seq![46u8, 46u8]) by {
        if kb@ == seq![46u8, 46u8] {
            assert(kb@[0] == 46 && kb@[1] == 46);
        }
    }
    if kb.len() == 1 && kb[0] == 46 {
        assert(kb@ =~= seq![46u8]);
        return Err(KeyValidationError::ContainsDot);
    }
    assert(kb@ != seq![46u8]) by {
        if kb@ == seq![46u8] {
            assert(kb@[0] == 46);
        }
    }
    if slice_contains_byte(kb, 13) {
        return Err(KeyValidationError::Contains('\r'));
    }
    if slice_contains_byte(kb, 10) {
        return Err(KeyValidationError::Contains('\n'));
    }
    if slice_contains_byte(kb, 91) {
        return Err(KeyValidationError::Contains('['));
    }
    if slice_contains_byte(kb, 93) {
        return Err(KeyValidationError::Contains(']'));
    }
    if slice_contains_byte(kb, 42) {
        return Err(KeyValidationError::Contains('*'));
    }
    if slice_contains_byte(kb, 63) {
        return Err(KeyValidationError::Contains('?'));
    }
    if slice_contains_byte(kb, 35) {
        return Err(KeyValidationError::Contains('#'));
    }
    Ok(())
}

/// A validated object key.  The invariant is established at construction
/// and never bypassed: the key's UTF-8 bytes satisfy `valid_key_bytes`.
#[derive(Debug)]
pub struct ObjectKey {
    key: String,
}

impl View for ObjectKey {
    type V = Seq<u8>;

    closed spec fn view(&self) -> Seq<u8> {
        vstd::utf8::encode_utf8(self.key@)
    }
}

impl Clone for ObjectKey {
    fn clone(&self) -> (r: Self)
        ensures
            r@ == self@,
    {
        ObjectKey { key: self.key.clone() }
    }
}

impl ObjectKey {
    /// Validates `key` and wraps it; fails with the exact variant that
    /// names the first broken rule.
    pub fn new(key: &str) -> (r: Result<Self, KeyValidationError>)
        ensures
            r matches Ok(k) ==> k@ == key.spec_bytes() && valid_key_bytes(k@),
            r is Ok <==> valid_key_bytes(key.spec_bytes()),
            r matches Err(e) ==> e == key_error(key.spec_bytes()),
    {
        match is_valid_key(key) {
            Ok(_) => Ok(ObjectKey { key: key.to_owned() }),
            Err(e) => Err(e),
        }
    }

    /// The key's UTF-8 bytes.
    pub fn bytes(&self) -> (r: &[u8])
        ensures
            r@ == self@,
    {
        self.key.as_str().as_bytes()
    }

    /// The key as a string slice.
    pub fn as_str(&self) -> (r: &str)
        ensures
            r.spec_bytes() == self@,
    {
        self.key.as_str()
    }
}

/// The name of a store: an opaque string, never validated.
#[derive(Debug)]
pub struct ObjectStoreKey {
    name: String,
}

impl View for ObjectStoreKey {
    type V = Seq<u8>;

    closed spec fn view(&self) -> Seq<u8> {
        vstd::utf8::encode_utf8(self.name@)
    }
}

impl Clone for ObjectStoreKey {
    fn clone(&self) -> (r: Self)
        ensures
            r@ == self@,
    {
        ObjectStoreKey { name: self.name.clone() }
    }
}

impl ObjectStoreKey {
    /// Wraps a store name; any string is accepted.
    pub fn new(name: &str) -> (r: Self)
        ensures
            r@ == name.spec_bytes(),
    {
        ObjectStoreKey { name: name.to_owned() }
    }

    /// The name's UTF-8 bytes.
    pub fn bytes(&self) -> (r: &[u8])
        ensures
            r@ == self@,
    {
        self.name.as_str().as_bytes()
    }
}

} // verus!

//! Cursor tokens: the opaque base64 text a listing hands out so that the
//! next page can resume after the last key it emitted.

use base64::Engine;
use vstd::prelude::*;
use vstd::utf8::valid_utf8;

verus! {

/// The standard base64 encoding (with padding) of a byte sequence, as the
/// outside encoder produces it.
pub uninterp spec fn b64_encoding(bytes: Seq<u8>) -> Seq<char>;

/// Relies on base64's `BASE64_STANDARD.encode`: the standard alphabet
/// with padding; the result is a function of the input bytes alone.
#[verifier::external_body]
pub(crate) fn b64_encode(bytes: &[u8]) -> (r: String)
    ensures
        r@ == b64_encoding(bytes@),
{
    base64::prelude::BASE64_STANDARD.encode(bytes)
}

/// Relies on base64's `BASE64_STANDARD.decode`: it accepts canonical
/// encodings only (padding required, no trailing bits), returns the bytes
/// whose encoding the input is, and rejects every other input.
#[verifier::external_body]
pub(crate) fn b64_decode(token: &str) -> (r: Option<Vec<u8>>)
    ensures
        match r {
            Some(v) => b64_encoding(v@) == token@ && (forall|b: Seq<u8>|
                b64_encoding(b) == token@ ==> v@ == b),
            None => forall|b: Seq<u8>| b64_encoding(b) != token@,
        },
{
    base64::prelude::BASE64_STANDARD.decode(token).ok()
}

/// Relies on std's `str::from_utf8`: it succeeds exactly on valid UTF-8.
#[verifier::external_body]
pub(crate) fn utf8_valid(bytes: &[u8]) -> (r: bool)
    ensures
        r == valid_utf8(bytes@),
{
    core::str::from_utf8(bytes).is_ok()
}

} // verus!

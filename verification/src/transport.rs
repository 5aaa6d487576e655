//! Transport encoding across the command boundary: standard base64 with
//! canonical padding, provided by the `base64` crate behind trusted
//! wrappers.

use base64::Engine;
use vstd::prelude::*;

verus! {

/// The text that standard base64, with canonical padding, assigns to a byte
/// sequence.
pub uninterp spec fn b64_of(b: Seq<u8>) -> Seq<char>;

/// Relies on the `base64` crate's `STANDARD` engine, method `encode`: the
/// encoding is a function of the input bytes alone.
#[verifier::external_body]
pub fn b64_encode(b: &[u8]) -> (r: String)
    ensures
        r@ == b64_of(b@),
{
    base64::engine::general_purpose::STANDARD.encode(b)
}

/// Relies on the `base64` crate's `STANDARD` engine, method `decode`: with
/// canonical padding required and trailing bits rejected, it accepts exactly
/// the texts that `encode` produces, and returns the one byte sequence that
/// encodes to its input. The error carries the engine's own rendering of
/// what was wrong, of which nothing is promised.
#[verifier::external_body]
pub fn b64_decode(s: &str) -> (r: Result<Vec<u8>, String>)
    ensures
        r matches Ok(v) ==> s@ == b64_of(v@) && (forall|w: Seq<u8>| b64_of(w) == s@ ==> w == v@),
        r is Err ==> !(exists|w: Seq<u8>| b64_of(w) == s@),
{
    match base64::engine::general_purpose::STANDARD.decode(s) {
        Ok(v) => Ok(v),
        Err(e) => Err(e.to_string()),
    }
}

} // verus!

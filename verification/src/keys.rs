//! Preparing the operator's public key: base64 decoding, trailing-whitespace
//! stripping, and text conversion.

use vstd::prelude::*;

verus! {

/// The bytes that standard-alphabet base64 decoding yields for a text that
/// decodes at all.
pub uninterp spec fn base64_decoded(s: Seq<char>) -> Seq<u8>;

/// Whether a text is canonical standard-alphabet base64: exactly the texts
/// on which decoding succeeds.
pub uninterp spec fn base64_ok(s: Seq<char>) -> bool;

/// Relies on tls_helpers::from_base64_raw: standard-alphabet base64
/// decoding, a deterministic function of the input text alone, which
/// succeeds exactly on canonical base64.
#[verifier::external_body]
fn decode_base64(s: &str) -> (r: Option<Vec<u8>>)
    ensures
        r is Some <==> base64_ok(s@),
        match r {
            Some(b) => b@ == base64_decoded(s@),
            None => true,
        },
{
    tls_helpers::from_base64_raw(s).ok()
}

/// The text that lossy UTF-8 decoding yields for a byte sequence, a function
/// of the bytes alone.
pub uninterp spec fn utf8_lossy(bytes: Seq<u8>) -> Seq<char>;

/// Relies on String::from_utf8_lossy: a pure function of the bytes, with
/// invalid sequences replaced by the replacement character.
#[verifier::external_body]
fn utf8_lossy_string(bytes: &Vec<u8>) -> (r: String)
    ensures
        r@ == utf8_lossy(bytes@),
{
    String::from_utf8_lossy(bytes).into_owned()
}

/// Whether a byte is stripped from the end of a decoded key: a newline,
/// carriage return, or space.
pub open spec fn spec_is_trailing_ws(b: u8) -> bool {
    b == 10 || b == 13 || b == 32
}

/// The bytes with every trailing newline, carriage return and space removed.
pub open spec fn spec_strip_trailing_ws(bytes: Seq<u8>) -> Seq<u8>
    decreases bytes.len(),
{
    if bytes.len() > 0 && spec_is_trailing_ws(bytes.last()) {
        spec_strip_trailing_ws(bytes.drop_last())
    } else {
        bytes
    }
}

/// Removes trailing newline, carriage return and space bytes.
pub fn strip_trailing_whitespace(bytes: Vec<u8>) -> (r: Vec<u8>)
    ensures
        r@ == spec_strip_trailing_ws(bytes@),
{
    let mut b = bytes;
    loop
        invariant
            spec_strip_trailing_ws(b@) == spec_strip_trailing_ws(bytes@),
        ensures
            b@ == spec_strip_trailing_ws(bytes@),
        decreases b@.len(),
    {
        if b.len() == 0 {
            break ;
        }
        let last = b[b.len() - 1];
        if !(last == 10 || last == 13 || last == 32) {
            break ;
        }
        let ghost prev = b@;
        b.pop();
        proof {
            assert(b@ =~= prev.drop_last());
        }
    }
    b
}

/// The key text a decoded public key yields: the decoded bytes, stripped of
/// trailing whitespace, read as text.
pub fn key_from_bytes(bytes: Vec<u8>) -> (r: String)
    ensures
        r@ == utf8_lossy(spec_strip_trailing_ws(bytes@)),
{
    let stripped = strip_trailing_whitespace(bytes);
    utf8_lossy_string(&stripped)
}

/// Decodes a base64-encoded public key and strips trailing whitespace,
/// yielding the key text handed to newly provisioned instances: a key
/// exactly when the text is valid base64, nothing otherwise.
pub fn prepare_public_key(encoded: &str) -> (r: Option<String>)
    ensures
        r is Some <==> base64_ok(encoded@),
        match r {
            Some(k) => k@ == utf8_lossy(spec_strip_trailing_ws(base64_decoded(encoded@))),
            None => true,
        },
{
    match decode_base64(encoded) {
        Some(bytes) => Some(key_from_bytes(bytes)),
        None => None,
    }
}

} // verus!

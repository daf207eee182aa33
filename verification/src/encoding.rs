//! Text encodings used by the field codec: standard base64 with padding for
//! the three segments of a field token, and the UTF-8 bridge from decrypted
//! bytes back to strings.

use vstd::prelude::*;

use base64::Engine;
use base64::engine::general_purpose;

use crate::crypto::PLAINTEXT_LIMIT;

verus! {

use vstd::utf8::encode_utf8;
use vstd::utf8::valid_utf8;

/// The standard base64 encoding (with padding) of a byte sequence.
/// Deterministic in its argument.
pub uninterp spec fn b64_of(bytes: Seq<u8>) -> Seq<char>;

/// Encodes bytes as standard base64 with padding.
///
/// Relies on `base64::engine::general_purpose::STANDARD.encode`: the output
/// is four characters for every three input bytes, rounded up by padding.
#[verifier::external_body]
pub fn base64_encode(bytes: &Vec<u8>) -> (r: String)
    requires
        bytes@.len() <= PLAINTEXT_LIMIT + 64,
    ensures
        r@ == b64_of(bytes@),
        r@.len() == ((bytes@.len() + 2) / 3) * 4,
{
    general_purpose::STANDARD.encode(bytes.as_slice())
}

/// Decodes standard base64 with padding.
///
/// Relies on `base64::engine::general_purpose::STANDARD.decode`: the engine
/// requires canonical padding and rejects non-zero trailing bits, so it
/// accepts exactly the strings that `STANDARD.encode` produces, and then
/// returns the encoded bytes.
#[verifier::external_body]
pub fn base64_decode(text: &str) -> (r: Option<Vec<u8>>)
    ensures
        r matches Some(b) ==> text@ == b64_of(b@),
        forall|b: Seq<u8>|
            b.len() <= PLAINTEXT_LIMIT + 64 && text@ == b64_of(b)
                ==> r is Some && r.unwrap()@ == b,
{
    general_purpose::STANDARD.decode(text).ok()
}

/// Turns bytes back into a string when they are valid UTF-8.
///
/// Relies on `String::from_utf8`: it succeeds exactly on valid UTF-8 input,
/// and the returned string's bytes are the input bytes.
#[verifier::external_body]
pub fn bytes_to_string(bytes: Vec<u8>) -> (r: Option<String>)
    ensures
        r matches Some(s) ==> encode_utf8(s@) == bytes@,
        valid_utf8(bytes@) ==> r is Some,
{
    String::from_utf8(bytes).ok()
}

} // verus!

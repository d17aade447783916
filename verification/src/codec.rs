//! Recovery of the original payload bytes from a queue message's text body.
//!
//! An upstream gateway may put the original octets into the queue as a
//! standard-alphabet base64 text, flagged by a metadata attribute. When the
//! flag is set and the text decodes, the decoded octets are the payload; when
//! decoding fails, the text itself is kept as UTF-8 octets rather than
//! failing the message. Without the flag the body text's UTF-8 encoding is
//! the payload.

use vstd::prelude::*;
use vstd::utf8::encode_utf8;
use base64::Engine;

verus! {

/// What base64's standard-alphabet decode returns for a given text: `None`
/// exactly when the text is not valid base64. The result depends on the
/// characters alone.
pub uninterp spec fn base64_decoded(s: Seq<char>) -> Option<Seq<u8>>;

/// Relies on base64's `Engine::decode` with the `STANDARD` engine (the
/// standard alphabet with padding): a pure function of the input text that
/// fails exactly on text that is not valid base64.
#[verifier::external_body]
fn base64_decode(s: &str) -> (r: Option<Vec<u8>>)
    ensures
        match r {
            Option::Some(b) => base64_decoded(s@) == Option::Some(b@),
            Option::None => base64_decoded(s@) is None,
        },
{
    match base64::engine::general_purpose::STANDARD.decode(s) {
        Ok(b) => Some(b),
        Err(_) => None,
    }
}

/// The payload octets recovered from a body text: the base64 decoding when
/// the flag is set and the text decodes, the UTF-8 encoding of the text
/// otherwise.
pub open spec fn spec_decoded_body(body: Seq<char>, base64_flag: bool) -> Seq<u8> {
    if base64_flag {
        match base64_decoded(body) {
            Option::Some(b) => b,
            Option::None => encode_utf8(body),
        }
    } else {
        encode_utf8(body)
    }
}

/// Recover the payload octets from the message's body text.
pub fn decode_body(body: &str, base64_flag: bool) -> (r: Vec<u8>)
    ensures
        r@ == spec_decoded_body(body@, base64_flag),
{
    if base64_flag {
        match base64_decode(body) {
            Some(b) => b,
            None => body.as_bytes_vec(),
        }
    } else {
        body.as_bytes_vec()
    }
}

/// Round trip: a message flagged as base64 whose body validly decodes is
/// delivered byte-identical to the octets that were encoded upstream.
pub proof fn lemma_base64_round_trip(body: Seq<char>, original: Seq<u8>)
    requires
        base64_decoded(body) == Option::<Seq<u8>>::Some(original),
    ensures
        spec_decoded_body(body, true) == original,
{
}

/// A message without the base64 flag is delivered as exactly the UTF-8
/// encoding of its body text.
pub proof fn lemma_plain_body_is_utf8(body: Seq<char>)
    ensures
        spec_decoded_body(body, false) == encode_utf8(body),
{
}

} // verus!

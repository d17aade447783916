//! Reconstruction of the outbound HTTP request from a received queue
//! message: the payload octets byte-faithful to what the upstream caller
//! sent, the synthesized header list, and the best-known client IP.

use vstd::prelude::*;
use crate::codec::{decode_body, spec_decoded_body};
use crate::headers::{
    apply_forwarded_for, attrs_to_headers, ct_json, ct_key, has_header, lemma_apply_xff_preserves,
    lemma_lookup_push, sig_key, spec_apply_xff, spec_lookup, spec_pairs_view, spec_synth_headers,
    spec_with_content_type, with_content_type, xff_key,
};
use crate::ip::{derive_source_ip, spec_source_ip};
use crate::text::{spec_lower, lower_ascii, str_eq};

verus! {

/// A message as received from the queue: an opaque id for correlation, the
/// body text, the metadata attributes, the queue-maintained receive count
/// (1 on first delivery), and the single-use acknowledgment token.
pub struct QueueMessage {
    pub message_id: String,
    pub body: String,
    pub attributes: Vec<(String, String)>,
    pub receive_count: u32,
    pub receipt_handle: String,
}

/// The request derived from one message for one delivery attempt: the fixed
/// target URL, the synthesized headers, the payload octets, the best-known
/// client IP, and whether the signature header was absent (a soft warning,
/// never a blocking condition).
pub struct OutboundRequest {
    pub url: String,
    pub headers: Vec<(String, String)>,
    pub body: Vec<u8>,
    pub source_ip: Option<String>,
    pub signature_missing: bool,
}

/// Whether the message's attributes flag the body as base64: the first
/// attribute keyed `bodyisbase64` up to ASCII case decides, by its value
/// reading `true` up to ASCII case.
pub open spec fn spec_b64_flag(attrs: Seq<(Seq<char>, Seq<char>)>) -> bool
    decreases attrs.len(),
{
    if attrs.len() == 0 {
        false
    } else if spec_lower(attrs.first().0) == "bodyisbase64"@ {
        spec_lower(attrs.first().1) == "true"@
    } else {
        spec_b64_flag(attrs.drop_first())
    }
}

/// Read the base64 flag off the message's attributes.
pub fn body_is_base64(attrs: &Vec<(String, String)>) -> (r: bool)
    ensures
        r == spec_b64_flag(spec_pairs_view(attrs@)),
{
    let ghost full = spec_pairs_view(attrs@);
    proof {
        assert(full.skip(0) =~= full);
    }
    let mut i: usize = 0;
    while i < attrs.len()
        invariant
            i <= attrs@.len(),
            full == spec_pairs_view(attrs@),
            full.len() == attrs@.len(),
            spec_b64_flag(full) == spec_b64_flag(full.skip(i as int)),
        decreases attrs@.len() - i,
    {
        proof {
            assert(full.skip(i as int).first() == full[i as int]);
            assert(full.skip(i as int).drop_first() =~= full.skip(i + 1));
        }
        let pair = &attrs[i];
        let key = lower_ascii(pair.0.as_str());
        if str_eq(key.as_str(), "bodyisbase64") {
            let value = lower_ascii(pair.1.as_str());
            return str_eq(value.as_str(), "true");
        }
        i = i + 1;
    }
    proof {
        assert(full.skip(full.len() as int) =~= Seq::<(Seq<char>, Seq<char>)>::empty());
    }
    false
}

/// The full header pipeline on a message's attributes and decoded body:
/// synthesis (lowercase, skip malformed), the content-type default, then
/// the forwarded-for composition with the best-known client IP.
pub open spec fn spec_request_headers(attrs: Seq<(Seq<char>, Seq<char>)>, body: Seq<u8>) -> Seq<
    (Seq<char>, Seq<char>),
> {
    let synth = spec_synth_headers(attrs);
    spec_apply_xff(spec_with_content_type(synth), spec_source_ip(synth, body))
}

/// Build the outbound request for one delivery attempt of a message.
pub fn build_request(msg: &QueueMessage, target_url: &str) -> (r: OutboundRequest)
    ensures
        r.url@ == target_url@,
        r.body@ == spec_decoded_body(msg.body@, spec_b64_flag(spec_pairs_view(msg.attributes@))),
        spec_pairs_view(r.headers@) == spec_request_headers(
            spec_pairs_view(msg.attributes@),
            r.body@,
        ),
        (match r.source_ip {
            Option::Some(s) => spec_source_ip(
                spec_synth_headers(spec_pairs_view(msg.attributes@)),
                r.body@,
            ) == Option::Some(s@),
            Option::None => spec_source_ip(
                spec_synth_headers(spec_pairs_view(msg.attributes@)),
                r.body@,
            ) is None,
        }),
        r.signature_missing == (spec_lookup(
            spec_synth_headers(spec_pairs_view(msg.attributes@)),
            sig_key(),
        ) is None),
{
    let flag = body_is_base64(&msg.attributes);
    let body = decode_body(msg.body.as_str(), flag);
    let synth = attrs_to_headers(&msg.attributes);
    let signature_missing = !has_header(&synth, "x-hub-signature-256");
    let source_ip = derive_source_ip(&synth, body.as_slice());
    let hs = with_content_type(synth);
    let hs = apply_forwarded_for(hs, &source_ip);
    OutboundRequest {
        url: String::from_str(target_url),
        headers: hs,
        body,
        source_ip,
        signature_missing,
    }
}

/// When no attribute supplied a content-type, the delivered header list
/// carries `content-type: application/json`.
pub proof fn lemma_default_content_type(attrs: Seq<(Seq<char>, Seq<char>)>, body: Seq<u8>)
    requires
        spec_lookup(spec_synth_headers(attrs), ct_key()) is None,
    ensures
        spec_lookup(spec_request_headers(attrs, body), ct_key()) == Option::Some(ct_json()),
{
    let synth = spec_synth_headers(attrs);
    lemma_lookup_push(synth, ct_key(), (ct_key(), ct_json()));
    reveal_strlit("content-type");
    reveal_strlit("x-forwarded-for");
    assert(ct_key().len() != xff_key().len());
    lemma_apply_xff_preserves(
        spec_with_content_type(synth),
        spec_source_ip(synth, body),
        ct_key(),
    );
}

/// A content-type supplied by the attributes is delivered unchanged: the
/// default never overrides it, and the forwarded-for composition never
/// touches it.
pub proof fn lemma_supplied_content_type(attrs: Seq<(Seq<char>, Seq<char>)>, body: Seq<u8>, v: Seq<char>)
    requires
        spec_lookup(spec_synth_headers(attrs), ct_key()) == Option::<Seq<char>>::Some(v),
    ensures
        spec_lookup(spec_request_headers(attrs, body), ct_key()) == Option::<Seq<char>>::Some(v),
{
    let synth = spec_synth_headers(attrs);
    reveal_strlit("content-type");
    reveal_strlit("x-forwarded-for");
    assert(ct_key().len() != xff_key().len());
    lemma_apply_xff_preserves(
        spec_with_content_type(synth),
        spec_source_ip(synth, body),
        ct_key(),
    );
}

} // verus!

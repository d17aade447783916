//! Best-effort derivation of the original client IP, used to populate or
//! extend the forwarded-for header.
//!
//! Metadata attributes are checked first against a fixed set of recognized
//! key spellings; failing that, the decoded body is probed as JSON against a
//! fixed ordered list of field paths, flat and dotted, first match wins.

use vstd::prelude::*;
use crate::headers::spec_pairs_view;
use crate::text::{push_char, str_eq};

verus! {

/// The recognized attribute keys that directly carry the client IP, in their
/// lowercased spellings.
pub open spec fn spec_is_ip_key(k: Seq<char>) -> bool {
    ||| k == "sourceip"@
    ||| k == "source-ip"@
    ||| k == "clientip"@
    ||| k == "client-ip"@
    ||| k == "originatingip"@
    ||| k == "originating-ip"@
    ||| k == "remote-addr"@
    ||| k == "x-real-ip"@
}

/// The value of the first header whose key is a recognized IP key.
pub open spec fn spec_attr_ip(hs: Seq<(Seq<char>, Seq<char>)>) -> Option<Seq<char>>
    decreases hs.len(),
{
    if hs.len() == 0 {
        Option::None
    } else if spec_is_ip_key(hs.first().0) {
        Option::Some(hs.first().1)
    } else {
        spec_attr_ip(hs.drop_first())
    }
}

fn is_ip_key(k: &str) -> (r: bool)
    ensures
        r == spec_is_ip_key(k@),
{
    str_eq(k, "sourceip") || str_eq(k, "source-ip") || str_eq(k, "clientip") || str_eq(
        k,
        "client-ip",
    ) || str_eq(k, "originatingip") || str_eq(k, "originating-ip") || str_eq(k, "remote-addr")
        || str_eq(k, "x-real-ip")
}

/// Scan the synthesized headers for a recognized IP key.
pub fn attr_source_ip(hs: &Vec<(String, String)>) -> (r: Option<String>)
    ensures
        match r {
            Option::Some(s) => spec_attr_ip(spec_pairs_view(hs@)) == Option::Some(s@),
            Option::None => spec_attr_ip(spec_pairs_view(hs@)) is None,
        },
{
    let ghost full = spec_pairs_view(hs@);
    proof {
        assert(full.skip(0) =~= full);
    }
    let mut i: usize = 0;
    while i < hs.len()
        invariant
            i <= hs@.len(),
            full == spec_pairs_view(hs@),
            full.len() == hs@.len(),
            spec_attr_ip(full) == spec_attr_ip(full.skip(i as int)),
        decreases hs@.len() - i,
    {
        proof {
            assert(full.skip(i as int).first() == full[i as int]);
            assert(full.skip(i as int).drop_first() =~= full.skip(i + 1));
        }
        let pair = &hs[i];
        if is_ip_key(pair.0.as_str()) {
            return Some(pair.1.clone());
        }
        i = i + 1;
    }
    proof {
        assert(full.skip(full.len() as int) =~= Seq::<(Seq<char>, Seq<char>)>::empty());
    }
    None
}

/// What a JSON lookup of the given pointer path returns on the given
/// document bytes: `None` when the bytes are not a JSON document, when the
/// path is absent, or when the value there is not a string; otherwise the
/// string value. The result depends on the bytes and the path alone.
pub uninterp spec fn json_str_at(bytes: Seq<u8>, pointer: Seq<char>) -> Option<Seq<char>>;

/// Relies on serde_json's `from_slice` and `Value::pointer`: parsing is a
/// pure function of the bytes, and a pointer lookup a pure function of the
/// parsed document and the path, so the whole lookup depends on the bytes
/// and the path alone; it fails exactly when the document does not parse,
/// the path is absent, or the value there is not a string.
#[verifier::external_body]
pub(crate) fn json_string_at(bytes: &[u8], pointer: &str) -> (r: Option<String>)
    ensures
        match r {
            Option::Some(s) => json_str_at(bytes@, pointer@) == Option::Some(s@),
            Option::None => json_str_at(bytes@, pointer@) is None,
        },
{
    let doc: serde_json::Value = match serde_json::from_slice(bytes) {
        Ok(v) => v,
        Err(_) => return None,
    };
    match doc.pointer(pointer).and_then(serde_json::Value::as_str) {
        Some(s) => Some(s.to_string()),
        None => None,
    }
}

/// The fixed ordered list of field paths probed for an IP-shaped string,
/// flat names first, then dotted paths into nested objects.
pub open spec fn spec_ip_paths() -> Seq<Seq<char>> {
    seq![
        "sourceIp"@,
        "source_ip"@,
        "clientIp"@,
        "client_ip"@,
        "originatingIp"@,
        "originating_ip"@,
        "remoteAddr"@,
        "remote_addr"@,
        "requestContext.identity.sourceIp"@,
        "headers.x-forwarded-for"@,
        "headers.x-real-ip"@,
        "requestInfo.remoteIp"@,
        "request.ip"@,
        "ip"@,
    ]
}

fn ip_probe_paths() -> (r: Vec<String>)
    ensures
        r@.map_values(|s: String| s@) == spec_ip_paths(),
{
    let mut out: Vec<String> = Vec::new();
    out.push(String::from_str("sourceIp"));
    out.push(String::from_str("source_ip"));
    out.push(String::from_str("clientIp"));
    out.push(String::from_str("client_ip"));
    out.push(String::from_str("originatingIp"));
    out.push(String::from_str("originating_ip"));
    out.push(String::from_str("remoteAddr"));
    out.push(String::from_str("remote_addr"));
    out.push(String::from_str("requestContext.identity.sourceIp"));
    out.push(String::from_str("headers.x-forwarded-for"));
    out.push(String::from_str("headers.x-real-ip"));
    out.push(String::from_str("requestInfo.remoteIp"));
    out.push(String::from_str("request.ip"));
    out.push(String::from_str("ip"));
    proof {
        assert(out@.map_values(|s: String| s@) =~= spec_ip_paths());
    }
    out
}

/// A dotted field path as a JSON pointer: a leading slash, and every dot
/// turned into a slash.
pub open spec fn spec_pointer_of(path: Seq<char>) -> Seq<char> {
    seq!['/'] + path.map_values(|c: char| if c == '.' {
        '/'
    } else {
        c
    })
}

/// Turn a dotted field path into the JSON pointer that probes it.
pub fn dotted_to_pointer(path: &str) -> (r: String)
    ensures
        r@ == spec_pointer_of(path@),
{
    let n = path.unicode_len();
    let mut out = String::new();
    push_char(&mut out, '/');
    let mut i: usize = 0;
    while i < n
        invariant
            i <= n,
            n == path@.len(),
            out@ == seq!['/'] + path@.take(i as int).map_values(
                |c: char|
                    if c == '.' {
                        '/'
                    } else {
                        c
                    },
            ),
        decreases n - i,
    {
        let c = path.get_char(i);
        if c == '.' {
            push_char(&mut out, '/');
        } else {
            push_char(&mut out, c);
        }
        proof {
            assert(out@ =~= seq!['/'] + path@.take(i + 1).map_values(
                |c: char|
                    if c == '.' {
                        '/'
                    } else {
                        c
                    },
            ));
        }
        i = i + 1;
    }
    proof {
        assert(path@.take(n as int) =~= path@);
        assert(out@ =~= spec_pointer_of(path@));
    }
    out
}

/// The first probed path at which the document holds a string value, in the
/// fixed probing order.
pub open spec fn spec_json_ip_from(bytes: Seq<u8>, paths: Seq<Seq<char>>) -> Option<Seq<char>>
    decreases paths.len(),
{
    if paths.len() == 0 {
        Option::None
    } else {
        match json_str_at(bytes, spec_pointer_of(paths.first())) {
            Option::Some(v) => Option::Some(v),
            Option::None => spec_json_ip_from(bytes, paths.drop_first()),
        }
    }
}

/// The IP derived from the decoded body, probing the fixed path list in
/// order and taking the first string found.
pub open spec fn spec_json_ip(bytes: Seq<u8>) -> Option<Seq<char>> {
    spec_json_ip_from(bytes, spec_ip_paths())
}

/// Probe the decoded body for an IP-shaped string value, first match wins.
pub fn extract_ip_from_json_bytes(bytes: &[u8]) -> (r: Option<String>)
    ensures
        match r {
            Option::Some(s) => spec_json_ip(bytes@) == Option::Some(s@),
            Option::None => spec_json_ip(bytes@) is None,
        },
{
    let paths = ip_probe_paths();
    let ghost ps = spec_ip_paths();
    proof {
        assert(ps.skip(0) =~= ps);
    }
    let mut i: usize = 0;
    while i < paths.len()
        invariant
            i <= paths@.len(),
            paths@.map_values(|s: String| s@) == ps,
            ps.len() == paths@.len(),
            spec_json_ip(bytes@) == spec_json_ip_from(bytes@, ps.skip(i as int)),
        decreases paths@.len() - i,
    {
        proof {
            assert(ps.skip(i as int).first() == ps[i as int]);
            assert(ps.skip(i as int).drop_first() =~= ps.skip(i + 1));
        }
        let pointer = dotted_to_pointer(paths[i].as_str());
        match json_string_at(bytes, pointer.as_str()) {
            Some(v) => {
                return Some(v);
            },
            None => {},
        }
        i = i + 1;
    }
    proof {
        assert(ps.skip(ps.len() as int) =~= Seq::<Seq<char>>::empty());
    }
    None
}

/// The best-known client IP of a message: a recognized attribute first, a
/// probed body field second.
pub open spec fn spec_source_ip(hs: Seq<(Seq<char>, Seq<char>)>, body: Seq<u8>) -> Option<
    Seq<char>,
> {
    match spec_attr_ip(hs) {
        Option::Some(v) => Option::Some(v),
        Option::None => spec_json_ip(body),
    }
}

/// Derive the best-known client IP from the synthesized headers and the
/// decoded body.
pub fn derive_source_ip(hs: &Vec<(String, String)>, body: &[u8]) -> (r: Option<String>)
    ensures
        match r {
            Option::Some(s) => spec_source_ip(spec_pairs_view(hs@), body@) == Option::Some(s@),
            Option::None => spec_source_ip(spec_pairs_view(hs@), body@) is None,
        },
{
    match attr_source_ip(hs) {
        Some(v) => Some(v),
        None => extract_ip_from_json_bytes(body),
    }
}

} // verus!

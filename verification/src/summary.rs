//! Diagnostic previews of a message: a short line naming the webhook's event
//! and id when the payload is JSON, a truncated text preview when it is
//! plain UTF-8, and a hex preview otherwise. Purely informational; nothing
//! downstream depends on it.

use vstd::prelude::*;
use vstd::utf8::{decode_utf8, encode_utf8, valid_utf8};
use crate::ip::{json_str_at, json_string_at};
use crate::text::{format_u64, push_char, spec_decimal};

verus! {

/// Relies on std's `str::from_utf8`: it succeeds exactly on valid UTF-8 and
/// returns the text whose UTF-8 encoding is the input.
#[verifier::external_body]
fn utf8_str(bytes: &[u8]) -> (r: Option<&str>)
    ensures
        match r {
            Option::Some(s) => valid_utf8(bytes@) && s@ == decode_utf8(bytes@) && encode_utf8(s@)
                == bytes@,
            Option::None => !valid_utf8(bytes@),
        },
{
    match core::str::from_utf8(bytes) {
        Ok(s) => Some(s),
        Err(_) => None,
    }
}

/// A text preview: the text itself when it has at most `max` characters,
/// else its first `max` characters, an ellipsis, and the character count.
pub open spec fn spec_preview_str(s: Seq<char>, max: int) -> Seq<char> {
    if s.len() > max {
        s.take(max) + "... ("@ + spec_decimal(s.len() as int) + " chars)"@
    } else {
        s
    }
}

/// Preview a text, truncated to at most `max` characters.
pub fn preview_str(s: &str, max: usize) -> (r: String)
    ensures
        r@ == spec_preview_str(s@, max as int),
{
    let n = s.unicode_len();
    if n > max {
        let mut out = String::from_str(s.substring_char(0, max));
        out.append("... (");
        let count = format_u64(n as u64);
        out.append(count.as_str());
        out.append(" chars)");
        proof {
            assert(out@ =~= spec_preview_str(s@, max as int));
        }
        out
    } else {
        String::from_str(s)
    }
}

/// The lowercase hex character of a value below 16.
pub open spec fn spec_hex_char(d: int) -> char {
    if d < 10 {
        ((48 + d) as u8) as char
    } else {
        ((87 + d) as u8) as char
    }
}

/// The two hex characters of a byte.
pub open spec fn spec_hex_byte(b: u8) -> Seq<char> {
    seq![spec_hex_char(b as int / 16), spec_hex_char(b as int % 16)]
}

/// Bytes as space-separated hex pairs.
pub open spec fn spec_hex_join(bs: Seq<u8>) -> Seq<char>
    decreases bs.len(),
{
    if bs.len() == 0 {
        Seq::empty()
    } else if bs.len() == 1 {
        spec_hex_byte(bs[0])
    } else {
        spec_hex_join(bs.drop_last()) + " "@ + spec_hex_byte(bs.last())
    }
}

fn hex_char(d: u8) -> (r: char)
    requires
        d < 16,
    ensures
        r == spec_hex_char(d as int),
{
    if d < 10 {
        (48 + d) as char
    } else {
        (87 + d) as char
    }
}

/// A hex preview: `hex:` and the first `max` bytes as hex pairs, an
/// ellipsis when bytes were cut, and the byte count.
pub open spec fn spec_preview_hex(bs: Seq<u8>, max: int) -> Seq<char> {
    let shown = spec_hex_join(if bs.len() > max {
        bs.take(max)
    } else {
        bs
    });
    if bs.len() > max {
        "hex:"@ + shown + "... ("@ + spec_decimal(bs.len() as int) + " bytes)"@
    } else {
        "hex:"@ + shown + " ("@ + spec_decimal(bs.len() as int) + " bytes)"@
    }
}

/// Preview a byte payload in hex, truncated to at most `max` bytes.
pub fn preview_hex(bytes: &[u8], max: usize) -> (r: String)
    ensures
        r@ == spec_preview_hex(bytes@, max as int),
{
    let n = bytes.len();
    let shown_len = if n > max {
        max
    } else {
        n
    };
    let mut out = String::from_str("hex:");
    let ghost prefix = if bytes@.len() > max {
        bytes@.take(max as int)
    } else {
        bytes@
    };
    proof {
        assert(prefix =~= bytes@.take(shown_len as int));
    }
    let mut i: usize = 0;
    while i < shown_len
        invariant
            i <= shown_len,
            shown_len <= bytes@.len(),
            prefix == bytes@.take(shown_len as int),
            out@ == "hex:"@ + spec_hex_join(prefix.take(i as int)),
        decreases shown_len - i,
    {
        if i > 0 {
            out.append(" ");
        }
        let b = bytes[i];
        push_char(&mut out, hex_char(b / 16));
        push_char(&mut out, hex_char(b % 16));
        proof {
            assert(prefix.take(i + 1).drop_last() =~= prefix.take(i as int));
            assert(prefix.take(i + 1).last() == bytes@[i as int]);
            if i == 0 {
                assert(prefix.take(1) =~= seq![bytes@[0]]);
                assert(spec_hex_join(prefix.take(1)) == spec_hex_byte(bytes@[0]));
            }
            assert(out@ =~= "hex:"@ + spec_hex_join(prefix.take(i + 1)));
        }
        i = i + 1;
    }
    proof {
        assert(prefix.take(shown_len as int) =~= prefix);
    }
    if n > max {
        out.append("... (");
    } else {
        out.append(" (");
    }
    let count = format_u64(n as u64);
    out.append(count.as_str());
    out.append(" bytes)");
    proof {
        assert(out@ =~= spec_preview_hex(bytes@, max as int));
    }
    out
}

/// The event part of the summary: the first of the `type`, `event` and
/// `action` string fields that the JSON payload carries, labelled.
pub open spec fn spec_event_part(bytes: Seq<u8>) -> Option<Seq<char>> {
    match json_str_at(bytes, "/type"@) {
        Option::Some(v) => Option::Some("type:"@ + v),
        Option::None => match json_str_at(bytes, "/event"@) {
            Option::Some(v) => Option::Some("event:"@ + v),
            Option::None => match json_str_at(bytes, "/action"@) {
                Option::Some(v) => Option::Some("action:"@ + v),
                Option::None => Option::None,
            },
        },
    }
}

/// The id part of the summary: the JSON payload's `id` string field,
/// labelled, shortened to its first eight characters when it is long.
pub open spec fn spec_id_part(bytes: Seq<u8>) -> Option<Seq<char>> {
    match json_str_at(bytes, "/id"@) {
        Option::Some(v) => if v.len() > 12 {
            Option::Some("id:"@ + v.take(8) + "..."@)
        } else {
            Option::Some("id:"@ + v)
        },
        Option::None => Option::None,
    }
}

/// The one-line summary of a payload: its labelled event and id parts when
/// it is JSON with such fields, a text preview when it is UTF-8 text, a hex
/// preview otherwise.
pub open spec fn spec_summary(bytes: Seq<u8>) -> Seq<char> {
    if !valid_utf8(bytes) {
        spec_preview_hex(bytes, 24)
    } else {
        match (spec_event_part(bytes), spec_id_part(bytes)) {
            (Option::Some(e), Option::Some(i)) => e + " "@ + i,
            (Option::Some(e), Option::None) => e,
            (Option::None, Option::Some(i)) => i,
            (Option::None, Option::None) => spec_preview_str(decode_utf8(bytes), 40),
        }
    }
}

fn labelled_part(label: &str, v: &str) -> (r: String)
    ensures
        r@ == label@ + v@,
{
    let mut out = String::from_str(label);
    out.append(v);
    out
}

/// Summarize a payload for the delivery log.
pub fn extract_webhook_summary_from_bytes(bytes: &[u8]) -> (r: String)
    ensures
        r@ == spec_summary(bytes@),
{
    let text = match utf8_str(bytes) {
        Some(t) => t,
        None => {
            return preview_hex(bytes, 24);
        },
    };
    let event_part: Option<String> = match json_string_at(bytes, "/type") {
        Some(v) => Some(labelled_part("type:", v.as_str())),
        None => match json_string_at(bytes, "/event") {
            Some(v) => Some(labelled_part("event:", v.as_str())),
            None => match json_string_at(bytes, "/action") {
                Some(v) => Some(labelled_part("action:", v.as_str())),
                None => None,
            },
        },
    };
    let id_part: Option<String> = match json_string_at(bytes, "/id") {
        Some(v) => {
            if v.as_str().unicode_len() > 12 {
                let mut out = String::from_str("id:");
                out.append(v.as_str().substring_char(0, 8));
                out.append("...");
                Some(out)
            } else {
                Some(labelled_part("id:", v.as_str()))
            }
        },
        None => None,
    };
    match (event_part, id_part) {
        (Some(e), Some(i)) => {
            let mut out = e;
            out.append(" ");
            out.append(i.as_str());
            proof {
                assert(out@ =~= spec_summary(bytes@));
            }
            out
        },
        (Some(e), None) => e,
        (None, Some(i)) => i,
        (None, None) => preview_str(text, 40),
    }
}

} // verus!

//! Header synthesis: every metadata attribute of a queue message becomes an
//! outbound header with its key lowercased and its value unchanged. A pair
//! that could not form a legal HTTP header is skipped rather than failing the
//! whole message; a missing content-type defaults to `application/json`; a
//! best-known client IP extends or creates the forwarded-for header.

use vstd::prelude::*;
use crate::text::{spec_lower, lower_ascii, str_eq};

verus! {

/// The characters legal in a (lowercased) header name, the token characters
/// of the HTTP header grammar: lowercase letters, digits, and
/// `! # $ % & ' * + - . ^ _ ` | ~`.
pub open spec fn spec_is_name_char(c: char) -> bool {
    let u = c as u32;
    ||| 97 <= u <= 122
    ||| 48 <= u <= 57
    ||| u == 33
    ||| 35 <= u <= 39
    ||| u == 42
    ||| u == 43
    ||| u == 45
    ||| u == 46
    ||| 94 <= u <= 96
    ||| u == 124
    ||| u == 126
}

/// A legal header name: nonempty, token characters only.
pub open spec fn spec_valid_header_name(s: Seq<char>) -> bool {
    s.len() > 0 && (forall|i: int| 0 <= i < s.len() ==> spec_is_name_char(#[trigger] s[i]))
}

/// The characters legal in a header value. The header grammar refuses the
/// bytes below 32 other than tab, and byte 127; every byte of a multi-byte
/// character is 128 or more, so character-level and byte-level legality
/// coincide.
pub open spec fn spec_is_value_char(c: char) -> bool {
    let u = c as u32;
    u == 9 || (u >= 32 && u != 127)
}

/// A legal header value: every character legal (empty is legal).
pub open spec fn spec_valid_header_value(s: Seq<char>) -> bool {
    forall|i: int| 0 <= i < s.len() ==> spec_is_value_char(#[trigger] s[i])
}

/// Decide whether a lowercased key can stand as a header name.
pub fn is_valid_header_name(s: &str) -> (r: bool)
    ensures
        r == spec_valid_header_name(s@),
{
    let n = s.unicode_len();
    if n == 0 {
        return false;
    }
    let mut i: usize = 0;
    while i < n
        invariant
            i <= n,
            n == s@.len(),
            forall|j: int| 0 <= j < i ==> spec_is_name_char(#[trigger] s@[j]),
        decreases n - i,
    {
        let u = s.get_char(i) as u32;
        let ok = (97 <= u && u <= 122) || (48 <= u && u <= 57) || u == 33 || (35 <= u && u <= 39)
            || u == 42 || u == 43 || u == 45 || u == 46 || (94 <= u && u <= 96) || u == 124 || u
            == 126;
        if !ok {
            return false;
        }
        i = i + 1;
    }
    true
}

/// Decide whether a string can stand as a header value.
pub fn is_valid_header_value(s: &str) -> (r: bool)
    ensures
        r == spec_valid_header_value(s@),
{
    let n = s.unicode_len();
    let mut i: usize = 0;
    while i < n
        invariant
            i <= n,
            n == s@.len(),
            forall|j: int| 0 <= j < i ==> spec_is_value_char(#[trigger] s@[j]),
        decreases n - i,
    {
        let u = s.get_char(i) as u32;
        if !(u == 9 || (u >= 32 && u != 127)) {
            return false;
        }
        i = i + 1;
    }
    true
}

/// The character sequences behind a list of string pairs.
pub open spec fn spec_pairs_view(ps: Seq<(String, String)>) -> Seq<(Seq<char>, Seq<char>)> {
    ps.map_values(|p: (String, String)| (p.0@, p.1@))
}

/// Header synthesis over the attribute pairs in order: lowercase the key,
/// keep the pair when it forms a legal header, skip it otherwise.
pub open spec fn spec_synth_headers(attrs: Seq<(Seq<char>, Seq<char>)>) -> Seq<
    (Seq<char>, Seq<char>),
>
    decreases attrs.len(),
{
    if attrs.len() == 0 {
        Seq::empty()
    } else {
        let rest = spec_synth_headers(attrs.drop_last());
        let key = spec_lower(attrs.last().0);
        let value = attrs.last().1;
        if spec_valid_header_name(key) && spec_valid_header_value(value) {
            rest.push((key, value))
        } else {
            rest
        }
    }
}

/// Turn the message's metadata attributes into the outbound header list:
/// keys lowercased, values unchanged, malformed pairs skipped one by one.
pub fn attrs_to_headers(attrs: &Vec<(String, String)>) -> (r: Vec<(String, String)>)
    ensures
        spec_pairs_view(r@) == spec_synth_headers(spec_pairs_view(attrs@)),
{
    let ghost full = spec_pairs_view(attrs@);
    let mut out: Vec<(String, String)> = Vec::new();
    let mut i: usize = 0;
    while i < attrs.len()
        invariant
            i <= attrs.len(),
            full == spec_pairs_view(attrs@),
            full.len() == attrs@.len(),
            spec_pairs_view(out@) == spec_synth_headers(full.take(i as int)),
        decreases attrs.len() - i,
    {
        let pair = &attrs[i];
        let key = lower_ascii(pair.0.as_str());
        proof {
            assert(full.take(i + 1).drop_last() =~= full.take(i as int));
            assert(full.take(i + 1).last() == (attrs@[i as int].0@, attrs@[i as int].1@));
        }
        if is_valid_header_name(key.as_str()) && is_valid_header_value(pair.1.as_str()) {
            let value = pair.1.clone();
            out.push((key, value));
            proof {
                assert(spec_pairs_view(out@) =~= spec_synth_headers(full.take(i + 1)));
            }
        } else {
            proof {
                assert(spec_pairs_view(out@) =~= spec_synth_headers(full.take(i + 1)));
            }
        }
        i = i + 1;
    }
    proof {
        assert(full.take(attrs@.len() as int) =~= full);
    }
    out
}

/// The value of the first header with the given key, if any.
pub open spec fn spec_lookup(hs: Seq<(Seq<char>, Seq<char>)>, key: Seq<char>) -> Option<Seq<char>>
    decreases hs.len(),
{
    if hs.len() == 0 {
        Option::None
    } else if hs.first().0 == key {
        Option::Some(hs.first().1)
    } else {
        spec_lookup(hs.drop_first(), key)
    }
}

/// One unfolding step of [`spec_lookup`] along an index scan.
pub proof fn lemma_lookup_step(hs: Seq<(Seq<char>, Seq<char>)>, key: Seq<char>, i: int)
    requires
        0 <= i < hs.len(),
    ensures
        spec_lookup(hs.skip(i), key) == if hs[i].0 == key {
            Option::Some(hs[i].1)
        } else {
            spec_lookup(hs.skip(i + 1), key)
        },
{
    assert(hs.skip(i).first() == hs[i]);
    assert(hs.skip(i).drop_first() =~= hs.skip(i + 1));
}

/// Looking a key up after a pair is appended: an existing binding wins, the
/// appended pair answers only when nothing earlier bound the key.
pub proof fn lemma_lookup_push(
    hs: Seq<(Seq<char>, Seq<char>)>,
    key: Seq<char>,
    p: (Seq<char>, Seq<char>),
)
    ensures
        spec_lookup(hs.push(p), key) == (match spec_lookup(hs, key) {
            Option::Some(v) => Option::Some(v),
            Option::None => if p.0 == key {
                Option::Some(p.1)
            } else {
                Option::None
            },
        }),
    decreases hs.len(),
{
    if hs.len() == 0 {
        assert(hs.push(p).first() == p);
        assert(hs.push(p).drop_first() =~= Seq::<(Seq<char>, Seq<char>)>::empty());
    } else {
        assert(hs.push(p).first() == hs.first());
        assert(hs.push(p).drop_first() =~= hs.drop_first().push(p));
        lemma_lookup_push(hs.drop_first(), key, p);
    }
}

/// Find the first header with the given key.
pub fn find_header(hs: &Vec<(String, String)>, key: &str) -> (r: Option<usize>)
    ensures
        match r {
            Option::Some(j) => {
                &&& j < hs@.len()
                &&& spec_pairs_view(hs@)[j as int].0 == key@
                &&& spec_lookup(spec_pairs_view(hs@), key@) == Option::Some(
                    spec_pairs_view(hs@)[j as int].1,
                )
                &&& forall|t: int| 0 <= t < j ==> spec_pairs_view(hs@)[t].0 != key@
            },
            Option::None => spec_lookup(spec_pairs_view(hs@), key@) is None,
        },
{
    let ghost full = spec_pairs_view(hs@);
    proof {
        assert(full.skip(0) =~= full);
    }
    let mut i: usize = 0;
    while i < hs.len()
        invariant
            i <= hs@.len(),
            full == spec_pairs_view(hs@),
            full.len() == hs@.len(),
            spec_lookup(full, key@) == spec_lookup(full.skip(i as int), key@),
            forall|t: int| 0 <= t < i ==> full[t].0 != key@,
        decreases hs@.len() - i,
    {
        proof {
            lemma_lookup_step(full, key@, i as int);
        }
        let pair = &hs[i];
        if str_eq(pair.0.as_str(), key) {
            return Some(i);
        }
        i = i + 1;
    }
    proof {
        assert(full.skip(full.len() as int) =~= Seq::<(Seq<char>, Seq<char>)>::empty());
    }
    None
}

/// Whether some header carries the given key.
pub fn has_header(hs: &Vec<(String, String)>, key: &str) -> (r: bool)
    ensures
        r == (spec_lookup(spec_pairs_view(hs@), key@) is Some),
{
    match find_header(hs, key) {
        Some(_) => true,
        None => false,
    }
}

/// The content-type header's key.
pub open spec fn ct_key() -> Seq<char> {
    "content-type"@
}

/// The default content-type value.
pub open spec fn ct_json() -> Seq<char> {
    "application/json"@
}

/// The forwarded-for header's key.
pub open spec fn xff_key() -> Seq<char> {
    "x-forwarded-for"@
}

/// The signature header's key, whose absence is only warned about.
pub open spec fn sig_key() -> Seq<char> {
    "x-hub-signature-256"@
}

/// The header list with a content-type defaulted to `application/json` when
/// no attribute supplied one.
pub open spec fn spec_with_content_type(hs: Seq<(Seq<char>, Seq<char>)>) -> Seq<
    (Seq<char>, Seq<char>),
> {
    if spec_lookup(hs, ct_key()) is Some {
        hs
    } else {
        hs.push((ct_key(), ct_json()))
    }
}

/// Append the default content-type when none is present.
pub fn with_content_type(hs: Vec<(String, String)>) -> (r: Vec<(String, String)>)
    ensures
        spec_pairs_view(r@) == spec_with_content_type(spec_pairs_view(hs@)),
{
    let ghost full = spec_pairs_view(hs@);
    match find_header(&hs, "content-type") {
        Some(_) => hs,
        None => {
            let mut out = hs;
            out.push((String::from_str("content-type"), String::from_str("application/json")));
            proof {
                assert(spec_pairs_view(out@) =~= full.push((ct_key(), ct_json())));
            }
            out
        },
    }
}

/// A forwarded-for value extended by a newly derived IP: the existing value,
/// a comma and a space, then the IP.
pub open spec fn spec_compose_xff(existing: Seq<char>, ip: Seq<char>) -> Seq<char> {
    existing + ", "@ + ip
}

/// The header list with every forwarded-for entry removed.
pub open spec fn spec_drop_xff(hs: Seq<(Seq<char>, Seq<char>)>) -> Seq<(Seq<char>, Seq<char>)>
    decreases hs.len(),
{
    if hs.len() == 0 {
        Seq::empty()
    } else if hs.first().0 == xff_key() {
        spec_drop_xff(hs.drop_first())
    } else {
        seq![hs.first()] + spec_drop_xff(hs.drop_first())
    }
}

/// The header list with the first forwarded-for entry's value replaced and
/// any later forwarded-for entries removed, as a single-valued header map
/// insert behaves.
pub open spec fn spec_replace_xff(hs: Seq<(Seq<char>, Seq<char>)>, newv: Seq<char>) -> Seq<
    (Seq<char>, Seq<char>),
>
    decreases hs.len(),
{
    if hs.len() == 0 {
        Seq::empty()
    } else if hs.first().0 == xff_key() {
        seq![(xff_key(), newv)] + spec_drop_xff(hs.drop_first())
    } else {
        seq![hs.first()] + spec_replace_xff(hs.drop_first(), newv)
    }
}

/// The forwarded-for composition applied to a header list: nothing happens
/// without a derived IP or with one that cannot stand in a header; an
/// existing forwarded-for entry is extended; otherwise the IP becomes a new
/// trailing entry.
pub open spec fn spec_apply_xff(
    hs: Seq<(Seq<char>, Seq<char>)>,
    ip: Option<Seq<char>>,
) -> Seq<(Seq<char>, Seq<char>)> {
    match ip {
        Option::None => hs,
        Option::Some(ipv) => match spec_lookup(hs, xff_key()) {
            Option::Some(existing) => if spec_valid_header_value(
                spec_compose_xff(existing, ipv),
            ) {
                spec_replace_xff(hs, spec_compose_xff(existing, ipv))
            } else {
                hs
            },
            Option::None => if spec_valid_header_value(ipv) {
                hs.push((xff_key(), ipv))
            } else {
                hs
            },
        },
    }
}

/// Extend an existing forwarded-for value by the derived IP.
pub fn compose_xff(existing: &str, ip: &str) -> (r: String)
    ensures
        r@ == spec_compose_xff(existing@, ip@),
{
    let mut out = String::from_str(existing);
    out.append(", ");
    out.append(ip);
    out
}

/// Apply the forwarded-for composition to the header list.
pub fn apply_forwarded_for(hs: Vec<(String, String)>, ip: &Option<String>) -> (r: Vec<
    (String, String),
>)
    ensures
        spec_pairs_view(r@) == spec_apply_xff(
            spec_pairs_view(hs@),
            match ip {
                Option::Some(s) => Option::Some(s@),
                Option::None => Option::None,
            },
        ),
{
    let ghost full = spec_pairs_view(hs@);
    let ipv = match ip {
        Some(s) => s,
        None => {
            return hs;
        },
    };
    match find_header(&hs, "x-forwarded-for") {
        Some(j) => {
            let composed = compose_xff(hs[j].1.as_str(), ipv.as_str());
            if !is_valid_header_value(composed.as_str()) {
                return hs;
            }
            let ghost newv = composed@;
            proof {
                assert(full.skip(0) =~= full);
                assert(full.take(0) =~= Seq::<(Seq<char>, Seq<char>)>::empty());
                assert(Seq::<(Seq<char>, Seq<char>)>::empty() + spec_replace_xff(full, newv)
                    =~= spec_replace_xff(full, newv));
            }
            let mut out: Vec<(String, String)> = Vec::new();
            let mut i: usize = 0;
            while i < hs.len()
                invariant
                    i <= hs@.len(),
                    j < hs@.len(),
                    full == spec_pairs_view(hs@),
                    full.len() == hs@.len(),
                    full[j as int].0 == xff_key(),
                    forall|t: int| 0 <= t < j ==> full[t].0 != xff_key(),
                    composed@ == newv,
                    i <= j ==> spec_pairs_view(out@) == full.take(i as int),
                    i <= j ==> spec_replace_xff(full, newv) == spec_pairs_view(out@)
                        + spec_replace_xff(full.skip(i as int), newv),
                    i > j ==> spec_replace_xff(full, newv) == spec_pairs_view(out@)
                        + spec_drop_xff(full.skip(i as int)),
                decreases hs@.len() - i,
            {
                proof {
                    assert(full.skip(i as int).first() == full[i as int]);
                    assert(full.skip(i as int).drop_first() =~= full.skip(i + 1));
                }
                if i == j {
                    out.push((String::from_str("x-forwarded-for"), composed.clone()));
                    proof {
                        assert(spec_pairs_view(out@) =~= full.take(j as int).push(
                            (xff_key(), newv),
                        ));
                        assert(spec_replace_xff(full.skip(j as int), newv) == seq![
                            (xff_key(), newv),
                        ] + spec_drop_xff(full.skip(j + 1)));
                        assert(spec_pairs_view(out@) + spec_drop_xff(full.skip(j + 1))
                            =~= full.take(j as int) + (seq![(xff_key(), newv)] + spec_drop_xff(
                            full.skip(j + 1),
                        )));
                        assert(spec_replace_xff(full, newv) == full.take(j as int)
                            + spec_replace_xff(full.skip(j as int), newv));
                    }
                } else {
                    let pair = &hs[i];
                    if i < j || !str_eq(pair.0.as_str(), "x-forwarded-for") {
                        out.push((pair.0.clone(), pair.1.clone()));
                        proof {
                            if i < j {
                                assert(spec_pairs_view(out@) =~= full.take(i + 1));
                                assert(spec_replace_xff(full.skip(i as int), newv) == seq![
                                    full[i as int],
                                ] + spec_replace_xff(full.skip(i + 1), newv));
                                assert(spec_pairs_view(out@) + spec_replace_xff(
                                    full.skip(i + 1),
                                    newv,
                                ) =~= full.take(i as int) + (seq![full[i as int]]
                                    + spec_replace_xff(full.skip(i + 1), newv)));
                            } else {
                                assert(spec_drop_xff(full.skip(i as int)) == seq![full[i as int]]
                                    + spec_drop_xff(full.skip(i + 1)));
                                assert(spec_pairs_view(out@) =~= spec_pairs_view(
                                    out@.drop_last(),
                                ).push(full[i as int]));
                                assert(spec_pairs_view(out@) + spec_drop_xff(full.skip(i + 1))
                                    =~= spec_pairs_view(out@.drop_last()) + (seq![full[i as int]]
                                    + spec_drop_xff(full.skip(i + 1))));
                            }
                        }
                    } else {
                        proof {
                            assert(spec_drop_xff(full.skip(i as int)) == spec_drop_xff(
                                full.skip(i + 1),
                            ));
                        }
                    }
                }
                i = i + 1;
            }
            proof {
                assert(full.skip(full.len() as int) =~= Seq::<(Seq<char>, Seq<char>)>::empty());
                assert(spec_pairs_view(out@) + spec_drop_xff(full.skip(full.len() as int))
                    =~= spec_pairs_view(out@));
            }
            out
        },
        None => {
            if is_valid_header_value(ipv.as_str()) {
                let mut out = hs;
                out.push((String::from_str("x-forwarded-for"), ipv.clone()));
                proof {
                    assert(spec_pairs_view(out@) =~= full.push((xff_key(), ipv@)));
                }
                out
            } else {
                hs
            }
        },
    }
}

/// Looking any other key up is unchanged by removing forwarded-for entries.
pub proof fn lemma_lookup_drop_xff(hs: Seq<(Seq<char>, Seq<char>)>, key: Seq<char>)
    requires
        key != xff_key(),
    ensures
        spec_lookup(spec_drop_xff(hs), key) == spec_lookup(hs, key),
    decreases hs.len(),
{
    if hs.len() > 0 {
        lemma_lookup_drop_xff(hs.drop_first(), key);
        if hs.first().0 != xff_key() {
            let r = seq![hs.first()] + spec_drop_xff(hs.drop_first());
            assert(r.first() == hs.first());
            assert(r.drop_first() =~= spec_drop_xff(hs.drop_first()));
        }
    }
}

/// Looking any other key up is unchanged by replacing the forwarded-for
/// value; looking the forwarded-for key up yields the new value whenever
/// some forwarded-for entry was present.
pub proof fn lemma_lookup_replace_xff(
    hs: Seq<(Seq<char>, Seq<char>)>,
    newv: Seq<char>,
    key: Seq<char>,
)
    ensures
        key != xff_key() ==> spec_lookup(spec_replace_xff(hs, newv), key) == spec_lookup(hs, key),
        key == xff_key() && spec_lookup(hs, xff_key()) is Some ==> spec_lookup(
            spec_replace_xff(hs, newv),
            key,
        ) == Option::Some(newv),
    decreases hs.len(),
{
    if hs.len() > 0 {
        lemma_lookup_replace_xff(hs.drop_first(), newv, key);
        if hs.first().0 == xff_key() {
            let r = seq![(xff_key(), newv)] + spec_drop_xff(hs.drop_first());
            assert(r.first() == (xff_key(), newv));
            assert(r.drop_first() =~= spec_drop_xff(hs.drop_first()));
            if key != xff_key() {
                lemma_lookup_drop_xff(hs.drop_first(), key);
            }
        } else {
            let r = seq![hs.first()] + spec_replace_xff(hs.drop_first(), newv);
            assert(r.first() == hs.first());
            assert(r.drop_first() =~= spec_replace_xff(hs.drop_first(), newv));
        }
    }
}

/// The forwarded-for composition leaves every other header's first value
/// alone.
pub proof fn lemma_apply_xff_preserves(
    hs: Seq<(Seq<char>, Seq<char>)>,
    ip: Option<Seq<char>>,
    key: Seq<char>,
)
    requires
        key != xff_key(),
    ensures
        spec_lookup(spec_apply_xff(hs, ip), key) == spec_lookup(hs, key),
{
    match ip {
        Option::None => {},
        Option::Some(ipv) => {
            match spec_lookup(hs, xff_key()) {
                Option::Some(existing) => {
                    if spec_valid_header_value(spec_compose_xff(existing, ipv)) {
                        lemma_lookup_replace_xff(hs, spec_compose_xff(existing, ipv), key);
                    }
                },
                Option::None => {
                    if spec_valid_header_value(ipv) {
                        lemma_lookup_push(hs, key, (xff_key(), ipv));
                    }
                },
            }
        },
    }
}

/// Composing onto an existing forwarded-for value `existing` with a derived
/// IP `ip` leaves the header reading `existing`, a comma and a space, then
/// `ip`, whenever the composition can stand in a header.
pub proof fn lemma_xff_extends(
    hs: Seq<(Seq<char>, Seq<char>)>,
    existing: Seq<char>,
    ip: Seq<char>,
)
    requires
        spec_lookup(hs, xff_key()) == Option::Some(existing),
        spec_valid_header_value(spec_compose_xff(existing, ip)),
    ensures
        spec_lookup(spec_apply_xff(hs, Option::Some(ip)), xff_key()) == Option::Some(
            existing + ", "@ + ip,
        ),
{
    lemma_lookup_replace_xff(hs, spec_compose_xff(existing, ip), xff_key());
}

} // verus!

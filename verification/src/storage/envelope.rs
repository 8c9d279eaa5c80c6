//! The envelope under which a payload is kept: the payload's text and the
//! time at which it was written, in one line of text. Where the payload is
//! JSON, the envelope is: an object of the time, itself an object of seconds
//! and nanoseconds, and the payload. Reading one is left to a JSON parser.

use crate::decimal::{decimal, lemma_decimal_roundtrip, push_decimal};
use crate::text::is_digit;
use crate::time::Duration;
use vstd::prelude::*;
use vstd::string::*;

verus! {

/// What stands before the seconds.
pub open spec fn before_secs() -> Seq<char> {
    "{\"time\":{\"secs\":"@
}

/// What stands between the seconds and the nanoseconds.
pub open spec fn before_nanos() -> Seq<char> {
    ",\"nanos\":"@
}

/// What stands between the nanoseconds and the payload.
pub open spec fn before_payload() -> Seq<char> {
    "},\"payload\":"@
}

/// What stands behind the payload.
pub open spec fn after_payload() -> Seq<char> {
    "}"@
}

/// The envelope of `payload` written at `secs` seconds and `nanos` nanoseconds.
pub open spec fn frame(secs: nat, nanos: nat, payload: Seq<char>) -> Seq<char> {
    before_secs() + decimal(secs) + before_nanos() + decimal(nanos) + before_payload() + payload
        + after_payload()
}

/// The fixed parts of an envelope, character by character.
proof fn lemma_fixed_parts()
    ensures
        before_secs() == seq![
            '{',
            '"',
            't',
            'i',
            'm',
            'e',
            '"',
            ':',
            '{',
            '"',
            's',
            'e',
            'c',
            's',
            '"',
            ':',
        ],
        before_nanos() == seq![',', '"', 'n', 'a', 'n', 'o', 's', '"', ':'],
        before_payload() == seq!['}', ',', '"', 'p', 'a', 'y', 'l', 'o', 'a', 'd', '"', ':'],
        after_payload() == seq!['}'],
{
    reveal_strlit("{\"time\":{\"secs\":");
    reveal_strlit(",\"nanos\":");
    reveal_strlit("},\"payload\":");
    reveal_strlit("}");
    assert(before_secs() =~= seq![
        '{',
        '"',
        't',
        'i',
        'm',
        'e',
        '"',
        ':',
        '{',
        '"',
        's',
        'e',
        'c',
        's',
        '"',
        ':',
    ]);
    assert(before_nanos() =~= seq![',', '"', 'n', 'a', 'n', 'o', 's', '"', ':']);
    assert(before_payload() =~= seq!['}', ',', '"', 'p', 'a', 'y', 'l', 'o', 'a', 'd', '"', ':']);
    assert(after_payload() =~= seq!['}']);
}

/// Where the parts of an envelope stand in it.
pub proof fn lemma_frame_parts(secs: nat, nanos: nat, payload: Seq<char>)
    ensures
        ({
            let c = frame(secs, nanos, payload);
            let at_secs = 16int;
            let end_secs = at_secs + decimal(secs).len();
            let at_nanos = end_secs + 9;
            let end_nanos = at_nanos + decimal(nanos).len();
            let at_payload = end_nanos + 12;
            &&& c.len() == at_payload + payload.len() + 1
            &&& c.subrange(0, at_secs) == before_secs()
            &&& c.subrange(at_secs, end_secs) == decimal(secs)
            &&& c.subrange(end_secs, at_nanos) == before_nanos()
            &&& c.subrange(at_nanos, end_nanos) == decimal(nanos)
            &&& c.subrange(end_nanos, at_payload) == before_payload()
            &&& c.subrange(at_payload, c.len() - 1) == payload
            &&& c[end_secs] == ','
            &&& c[end_nanos] == '}'
            &&& c[c.len() - 1] == '}'
        }),
{
    lemma_fixed_parts();
    let c = frame(secs, nanos, payload);
    let at_secs = 16int;
    let end_secs = at_secs + decimal(secs).len();
    let at_nanos = end_secs + 9;
    let end_nanos = at_nanos + decimal(nanos).len();
    let at_payload = end_nanos + 12;
    assert(c.len() == at_payload + payload.len() + 1);
    assert(c.subrange(0, at_secs) =~= before_secs());
    assert(c.subrange(at_secs, end_secs) =~= decimal(secs));
    assert(c.subrange(end_secs, at_nanos) =~= before_nanos());
    assert(c.subrange(at_nanos, end_nanos) =~= decimal(nanos));
    assert(c.subrange(end_nanos, at_payload) =~= before_payload());
    assert(c.subrange(at_payload, c.len() - 1) =~= payload);
    assert(c[end_secs] == before_nanos()[0]);
    assert(c[end_nanos] == before_payload()[0]);
    assert(c[c.len() - 1] == after_payload()[0]);
}

/// A run of digits that ends before a character that is no digit ends where
/// any number that is written at its start and followed by no digit ends.
proof fn lemma_number_ends(v: Seq<char>, from: int, end: int, n: nat)
    requires
        0 <= from <= end <= v.len(),
        forall|i: int| from <= i < end ==> is_digit(#[trigger] v[i]),
        end == v.len() || !is_digit(v[end]),
        from + decimal(n).len() < v.len(),
        v.subrange(from, from + decimal(n).len()) == decimal(n),
        !is_digit(v[from + decimal(n).len()]),
    ensures
        end == from + decimal(n).len(),
{
    lemma_decimal_roundtrip(n);
    let d = decimal(n);
    let stop = from + d.len();
    if end < stop {
        assert(v.subrange(from, stop)[end - from] == v[end]);
        assert(is_digit(d[end - from]));
    }
}

/// Envelopes of different times or payloads differ.
pub proof fn lemma_frame_injective(
    secs: nat,
    nanos: nat,
    payload: Seq<char>,
    secs2: nat,
    nanos2: nat,
    payload2: Seq<char>,
)
    requires
        frame(secs, nanos, payload) == frame(secs2, nanos2, payload2),
    ensures
        secs == secs2,
        nanos == nanos2,
        payload == payload2,
{
    let c = frame(secs, nanos, payload);
    lemma_frame_parts(secs, nanos, payload);
    lemma_frame_parts(secs2, nanos2, payload2);
    lemma_decimal_roundtrip(secs);
    lemma_decimal_roundtrip(secs2);
    lemma_decimal_roundtrip(nanos);
    lemma_decimal_roundtrip(nanos2);
    let end_secs: int = 16int + decimal(secs).len();
    assert forall|i: int| 16 <= i < end_secs implies is_digit(#[trigger] c[i]) by {
        assert(c.subrange(16, end_secs)[i - 16] == c[i]);
    }
    lemma_number_ends(c, 16, end_secs, secs2);
    assert(decimal(secs) == decimal(secs2));
    let at_nanos: int = end_secs + 9;
    let end_nanos: int = at_nanos + decimal(nanos).len();
    assert forall|i: int| at_nanos <= i < end_nanos implies is_digit(#[trigger] c[i]) by {
        assert(c.subrange(at_nanos, end_nanos)[i - at_nanos] == c[i]);
    }
    lemma_number_ends(c, at_nanos, end_nanos, nanos2);
    assert(decimal(nanos) == decimal(nanos2));
}

/// Makes the envelope of `payload` written at `time`.
pub fn seal(time: &Duration, payload: &str) -> (content: String)
    ensures
        content@ == frame(time.spec_secs(), time.spec_subsec_nanos(), payload@),
{
    let mut content = String::from_str("{\"time\":{\"secs\":");
    push_decimal(&mut content, time.as_secs());
    content.append(",\"nanos\":");
    push_decimal(&mut content, time.subsec_nanos() as u64);
    content.append("},\"payload\":");
    content.append(payload);
    content.append("}");
    content
}

} // verus!

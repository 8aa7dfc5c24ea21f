//! The wire encoding of an event: the JSON text handed to the transport as
//! the message payload, stated character by character.

use crate::text::push_char;
use crate::types::{rfc3339_text, render_timestamp, spec_type_text, Event, EventModel};
use vstd::prelude::*;

verus! {

/// The hexadecimal digit character for a value below sixteen.
pub open spec fn hex_char(d: int) -> char {
    if d < 10 {
        crate::text::digit_char(d)
    } else if d == 10 { 'a' }
    else if d == 11 { 'b' }
    else if d == 12 { 'c' }
    else if d == 13 { 'd' }
    else if d == 14 { 'e' }
    else { 'f' }
}

/// How a single character is written inside a JSON string: quotes and
/// backslashes get a backslash escape, the common control characters their
/// short escapes, the remaining control characters a `\u00XX` escape, and
/// every other character stands as itself.
pub open spec fn escape_char(c: char) -> Seq<char> {
    if c == '"' { seq!['\\', '"'] }
    else if c == '\\' { seq!['\\', '\\'] }
    else if c == '\n' { seq!['\\', 'n'] }
    else if c == '\r' { seq!['\\', 'r'] }
    else if c == '\t' { seq!['\\', 't'] }
    else if (c as u32) < 0x20 {
        seq!['\\', 'u', '0', '0', hex_char((c as u32) as int / 16), hex_char((c as u32) as int % 16)]
    } else {
        seq![c]
    }
}

/// The body of a JSON string: each character escaped in turn.
pub open spec fn escape_str(s: Seq<char>) -> Seq<char>
    decreases s.len(),
{
    if s.len() == 0 {
        Seq::empty()
    } else {
        escape_str(s.drop_last()) + escape_char(s.last())
    }
}

/// A JSON string: the escaped body between double quotes.
pub open spec fn json_string(s: Seq<char>) -> Seq<char> {
    seq!['"'] + escape_str(s) + seq!['"']
}

/// The members of the payload object, comma-separated, in payload order.
pub open spec fn json_entries(p: Seq<(Seq<char>, Seq<char>)>) -> Seq<char>
    decreases p.len(),
{
    if p.len() == 0 {
        Seq::empty()
    } else if p.len() == 1 {
        json_string(p[0].0) + seq![':'] + json_string(p[0].1)
    } else {
        json_entries(p.drop_last()) + seq![','] + json_string(p.last().0) + seq![':']
            + json_string(p.last().1)
    }
}

/// The payload as a JSON object.
pub open spec fn json_payload(p: Seq<(Seq<char>, Seq<char>)>) -> Seq<char> {
    seq!['{'] + json_entries(p) + seq!['}']
}

/// The whole wire text of an event, given the text of its timestamp: a JSON
/// object with the members `eventId`, `objectId` (`null` where absent),
/// `eventType` in canonical form, `timestamp`, and the `payload` object.
pub open spec fn spec_event_json(m: EventModel, ts: Seq<char>) -> Seq<char> {
    "{\"eventId\":"@ + json_string(m.event_id) + ",\"objectId\":"@ + (match m.object_id {
        Some(o) => json_string(o),
        None => "null"@,
    }) + ",\"eventType\":"@ + json_string(spec_type_text(m.event_type)) + ",\"timestamp\":"@
        + json_string(ts) + ",\"payload\":"@ + json_payload(m.payload) + "}"@
}

/// Append the escaped body of a JSON string.
fn append_escaped(out: &mut String, s: &str)
    ensures
        final(out)@ == old(out)@ + escape_str(s@),
{
    let ghost base = out@;
    let n = s.unicode_len();
    let mut i: usize = 0;
    while i < n
        invariant
            i <= n,
            n == s@.len(),
            out@ =~= base + escape_str(s@.take(i as int)),
        decreases n - i,
    {
        let c = s.get_char(i);
        if c == '"' {
            push_char(out, '\\');
            push_char(out, '"');
        } else if c == '\\' {
            push_char(out, '\\');
            push_char(out, '\\');
        } else if c == '\n' {
            push_char(out, '\\');
            push_char(out, 'n');
        } else if c == '\r' {
            push_char(out, '\\');
            push_char(out, 'r');
        } else if c == '\t' {
            push_char(out, '\\');
            push_char(out, 't');
        } else if (c as u32) < 0x20 {
            push_char(out, '\\');
            push_char(out, 'u');
            push_char(out, '0');
            push_char(out, '0');
            let hi: u32 = (c as u32) / 16;
            let lo: u32 = (c as u32) % 16;
            let hc: char = if hi == 0 { '0' } else { '1' };
            let lc: char = if lo == 0 { '0' }
                else if lo == 1 { '1' }
                else if lo == 2 { '2' }
                else if lo == 3 { '3' }
                else if lo == 4 { '4' }
                else if lo == 5 { '5' }
                else if lo == 6 { '6' }
                else if lo == 7 { '7' }
                else if lo == 8 { '8' }
                else if lo == 9 { '9' }
                else if lo == 10 { 'a' }
                else if lo == 11 { 'b' }
                else if lo == 12 { 'c' }
                else if lo == 13 { 'd' }
                else if lo == 14 { 'e' }
                else { 'f' };
            push_char(out, hc);
            push_char(out, lc);
            proof {
                assert(hc == hex_char((c as u32) as int / 16));
                assert(lc == hex_char((c as u32) as int % 16));
            }
        } else {
            push_char(out, c);
        }
        i = i + 1;
        proof {
            let t = s@.take(i as int);
            assert(t.drop_last() =~= s@.take(i as int - 1));
            assert(t.last() == s@[i as int - 1]);
            assert(out@ =~= base + escape_str(t));
        }
    }
    proof {
        assert(s@.take(n as int) =~= s@);
    }
}

/// Append a complete JSON string.
fn append_json_string(out: &mut String, s: &str)
    ensures
        final(out)@ == old(out)@ + json_string(s@),
{
    push_char(out, '"');
    append_escaped(out, s);
    push_char(out, '"');
    proof {
        assert(out@ =~= old(out)@ + json_string(s@));
    }
}

/// Encode an event for the transport. Fails exactly where the timestamp lies
/// outside the representable range of dates; every other event encodes.
pub fn encode_event(e: &Event) -> (r: Result<String, String>)
    ensures
        match r {
            Ok(s) => rfc3339_text(e@.timestamp) matches Some(ts) && s@ == spec_event_json(e@, ts),
            Err(m) => rfc3339_text(e@.timestamp) is None && m@ == "timestamp out of range"@,
        },
{
    let ts = match render_timestamp(e.timestamp) {
        Some(t) => t,
        None => {
            return Err(String::from_str("timestamp out of range"));
        },
    };
    let mut out = String::from_str("{\"eventId\":");
    append_json_string(&mut out, e.event_id.as_str());
    out.append(",\"objectId\":");
    match &e.object_id {
        Some(o) => append_json_string(&mut out, o.as_str()),
        None => out.append("null"),
    }
    out.append(",\"eventType\":");
    let ty = e.event_type.to_text();
    append_json_string(&mut out, ty.as_str());
    out.append(",\"timestamp\":");
    append_json_string(&mut out, ts.as_str());
    out.append(",\"payload\":");
    push_char(&mut out, '{');
    let ghost entries_base = out@;
    let mut i: usize = 0;
    while i < e.payload.len()
        invariant
            i <= e.payload.len(),
            out@ =~= entries_base + json_entries(e@.payload.take(i as int)),
        decreases e.payload.len() - i,
    {
        if i > 0 {
            push_char(&mut out, ',');
        }
        append_json_string(&mut out, e.payload[i].0.as_str());
        push_char(&mut out, ':');
        append_json_string(&mut out, e.payload[i].1.as_str());
        i = i + 1;
        proof {
            let t = e@.payload.take(i as int);
            assert(t.drop_last() =~= e@.payload.take(i as int - 1));
            assert(t.last() == e@.payload[i as int - 1]);
            assert(out@ =~= entries_base + json_entries(t));
        }
    }
    proof {
        assert(e@.payload.take(e@.payload.len() as int) =~= e@.payload);
    }
    push_char(&mut out, '}');
    push_char(&mut out, '}');
    proof {
        reveal_strlit("}");
        assert("}"@ =~= seq!['}']);
        assert(out@ =~= entries_base + json_entries(e@.payload) + seq!['}'] + seq!['}']);
        assert(out@ =~= spec_event_json(e@, rfc3339_text(e@.timestamp)->0));
    }
    Ok(out)
}

} // verus!

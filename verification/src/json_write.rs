//! Writing JSON values as compact JSON text.
use vstd::prelude::*;

use crate::json::{
    escaped_char, escaped_text, hex_digit, json_items, json_members, json_string, json_text,
    JsonValue,
};
use crate::text::chars_of;

verus! {

fn hex_char(d: u32) -> (c: char)
    requires
        d < 16,
    ensures
        c == hex_digit(d as int),
{
    if d < 10 {
        ((d + 48) as u8) as char
    } else {
        ((d + 87) as u8) as char
    }
}

pub(crate) fn push_all(out: &mut Vec<char>, text: &str)
    ensures
        final(out)@ == old(out)@ + text@,
{
    let chars = chars_of(text);
    let mut i: usize = 0;
    let ghost start = out@;
    while i < chars.len()
        invariant
            chars@ == text@,
            i <= chars@.len(),
            out@ == start + chars@.take(i as int),
        decreases chars.len() - i,
    {
        out.push(chars[i]);
        assert(chars@.take(i + 1) =~= chars@.take(i as int).push(chars@[i as int]));
        i = i + 1;
    }
    assert(chars@.take(chars@.len() as int) =~= chars@);
}

pub(crate) fn write_string(out: &mut Vec<char>, text: &str)
    ensures
        final(out)@ == old(out)@ + json_string(text@),
{
    let ghost start = out@;
    out.push('"');
    let chars = chars_of(text);
    let mut i: usize = 0;
    while i < chars.len()
        invariant
            chars@ == text@,
            i <= chars@.len(),
            out@ == start + seq!['"'] + escaped_text(chars@.take(i as int)),
        decreases chars.len() - i,
    {
        let c = chars[i];
        let ghost before = out@;
        if c == '"' {
            out.push('\\');
            out.push('"');
        } else if c == '\\' {
            out.push('\\');
            out.push('\\');
        } else if c == '\n' {
            out.push('\\');
            out.push('n');
        } else if c == '\r' {
            out.push('\\');
            out.push('r');
        } else if c == '\t' {
            out.push('\\');
            out.push('t');
        } else if c == '\x08' {
            out.push('\\');
            out.push('b');
        } else if c == '\x0c' {
            out.push('\\');
            out.push('f');
        } else if (c as u32) < 0x20 {
            out.push('\\');
            out.push('u');
            out.push('0');
            out.push('0');
            out.push(hex_char((c as u32) / 16));
            out.push(hex_char((c as u32) % 16));
        } else {
            out.push(c);
        }
        proof {
            assert(out@ =~= before + escaped_char(c));
            assert(chars@.take(i + 1).drop_last() =~= chars@.take(i as int));
            assert(chars@.take(i + 1).last() == c);
        }
        i = i + 1;
    }
    out.push('"');
    assert(chars@.take(chars@.len() as int) =~= chars@);
}

fn write_json(value: &JsonValue, out: &mut Vec<char>)
    ensures
        final(out)@ == old(out)@ + json_text(*value),
    decreases value,
{
    let ghost start = out@;
    match value {
        JsonValue::Null => push_all(out, "null"),
        JsonValue::Bool(b) => {
            if *b {
                push_all(out, "true")
            } else {
                push_all(out, "false")
            }
        },
        JsonValue::Number(n) => push_all(out, n.as_str()),
        JsonValue::Text(t) => write_string(out, t.as_str()),
        JsonValue::Array(values) => {
            out.push('[');
            let mut i: usize = 0;
            while i < values.len()
                invariant
                    *value == JsonValue::Array(*values),
                    i <= values@.len(),
                    out@ == start + seq!['['] + json_items(values@.take(i as int)),
                decreases values.len() - i,
            {
                let ghost before = out@;
                if i > 0 {
                    out.push(',');
                }
                assert(value->Array_0 == *values);
                assert(decreases_to!(*value => values@[i as int]));
                write_json(&values[i], out);
                proof {
                    let t = values@.take(i + 1);
                    assert(t.drop_last() =~= values@.take(i as int));
                    assert(t.last() == values@[i as int]);
                    if i == 0 {
                        assert(out@ =~= start + seq!['['] + json_items(t));
                    } else {
                        assert(out@ =~= start + seq!['['] + json_items(t));
                    }
                }
                i = i + 1;
            }
            out.push(']');
            proof {
                assert(values@.take(values@.len() as int) =~= values@);
                assert(out@ =~= start + json_text(*value));
            }
        },
        JsonValue::Object(entries) => {
            out.push('{');
            let mut i: usize = 0;
            while i < entries.len()
                invariant
                    *value == JsonValue::Object(*entries),
                    i <= entries@.len(),
                    out@ == start + seq!['{'] + json_members(entries@.take(i as int)),
                decreases entries.len() - i,
            {
                let ghost before = out@;
                if i > 0 {
                    out.push(',');
                }
                write_string(out, entries[i].0.as_str());
                out.push(':');
                assert(value->Object_0 == *entries);
                assert(decreases_to!(*value => entries@[i as int].1));
                write_json(&entries[i].1, out);
                proof {
                    let t = entries@.take(i + 1);
                    assert(t.drop_last() =~= entries@.take(i as int));
                    assert(t.last() == entries@[i as int]);
                    assert(out@ =~= start + seq!['{'] + json_members(t));
                }
                i = i + 1;
            }
            out.push('}');
            proof {
                assert(entries@.take(entries@.len() as int) =~= entries@);
                assert(out@ =~= start + json_text(*value));
            }
        },
    }
}

/// The compact JSON text of a value.
pub fn json_encoding(value: &JsonValue) -> (text: String)
    ensures
        text@ == json_text(*value),
{
    let mut out: Vec<char> = Vec::new();
    write_json(value, &mut out);
    assert(out@ =~= json_text(*value));
    crate::text::string_from_chars(out.as_slice())
}

} // verus!

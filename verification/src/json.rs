//! JSON documents as the library reads them.
use vstd::prelude::*;

use crate::text::chars_of;

verus! {

/// A JSON document. Object members keep the order in which they are
/// visited, with distinct names.
#[derive(Debug)]
pub enum JsonValue {
    Null,
    Bool(bool),
    Number(String),
    Text(String),
    Array(Vec<JsonValue>),
    Object(Vec<(String, JsonValue)>),
}

/// The value of the first member called `name`, if any.
pub open spec fn member(entries: Seq<(String, JsonValue)>, name: Seq<char>) -> Option<JsonValue>
    decreases entries.len(),
{
    if entries.len() == 0 {
        None
    } else if entries[0].0@ == name {
        Some(entries[0].1)
    } else {
        member(entries.drop_first(), name)
    }
}

pub fn find_member<'a>(entries: &'a Vec<(String, JsonValue)>, name: &str) -> (found: Option<&'a JsonValue>)
    ensures
        match (found, member(entries@, name@)) {
            (Some(v), Some(w)) => *v == w,
            (None, None) => true,
            _ => false,
        },
{
    let wanted = chars_of(name);
    let mut i: usize = 0;
    assert(entries@.skip(0) =~= entries@);
    while i < entries.len()
        invariant
            wanted@ == name@,
            i <= entries@.len(),
            member(entries@, name@) == member(entries@.skip(i as int), name@),
        decreases entries.len() - i,
    {
        proof {
            assert(entries@.skip(i as int)[0] == entries@[i as int]);
            assert(entries@.skip(i as int).drop_first() =~= entries@.skip(i + 1));
        }
        if crate::text::chars_eq_str(wanted.as_slice(), entries[i].0.as_str()) {
            return Some(&entries[i].1);
        }
        i = i + 1;
    }
    None
}

/// No member is called `name`.
pub open spec fn no_member(entries: Seq<(String, JsonValue)>, name: Seq<char>) -> bool {
    forall|j: int| 0 <= j < entries.len() ==> (#[trigger] entries[j]).0@ != name
}

/// Member `i` is the first one called `name`.
pub open spec fn first_member_at(entries: Seq<(String, JsonValue)>, name: Seq<char>, i: int) -> bool {
    &&& 0 <= i < entries.len()
    &&& entries[i].0@ == name
    &&& forall|j: int| 0 <= j < i ==> (#[trigger] entries[j]).0@ != name
}

pub proof fn lemma_member_at(entries: Seq<(String, JsonValue)>, name: Seq<char>, i: int)
    requires
        first_member_at(entries, name, i),
    ensures
        member(entries, name) == Some(entries[i].1),
    decreases i,
{
    if i > 0 {
        assert(entries[0].0@ != name);
        assert forall|j: int| 0 <= j < i - 1 implies (#[trigger] entries.drop_first()[j]).0@ != name by {
            assert(entries.drop_first()[j] == entries[j + 1]);
        }
        lemma_member_at(entries.drop_first(), name, i - 1);
    }
}

pub proof fn lemma_no_member(entries: Seq<(String, JsonValue)>, name: Seq<char>)
    requires
        no_member(entries, name),
    ensures
        member(entries, name) is None,
    decreases entries.len(),
{
    if entries.len() > 0 {
        assert(entries[0].0@ != name);
        assert forall|j: int| 0 <= j < entries.len() - 1 implies (#[trigger] entries.drop_first()[j]).0@ != name by {
            assert(entries.drop_first()[j] == entries[j + 1]);
        }
        lemma_no_member(entries.drop_first(), name);
    }
}

/// The position of the first member called `name`, if any.
pub fn member_position(entries: &Vec<(String, JsonValue)>, name: &str) -> (found: Option<usize>)
    ensures
        match found {
            Some(i) => first_member_at(entries@, name@, i as int),
            None => no_member(entries@, name@),
        },
        match found {
            Some(i) => member(entries@, name@) == Some(entries@[i as int].1),
            None => member(entries@, name@) is None,
        },
{
    let wanted = chars_of(name);
    let mut i: usize = 0;
    while i < entries.len()
        invariant
            wanted@ == name@,
            i <= entries@.len(),
            forall|j: int| 0 <= j < i ==> (#[trigger] entries@[j]).0@ != name@,
        decreases entries.len() - i,
    {
        if crate::text::chars_eq_str(wanted.as_slice(), entries[i].0.as_str()) {
            proof {
                lemma_member_at(entries@, name@, i as int);
            }
            return Some(i);
        }
        i = i + 1;
    }
    proof {
        lemma_no_member(entries@, name@);
    }
    None
}

/// `member` seen from the end: the last member decides only when no
/// earlier one has the name.
pub proof fn lemma_member_last(entries: Seq<(String, JsonValue)>, name: Seq<char>)
    requires
        entries.len() > 0,
    ensures
        member(entries, name) == match member(entries.drop_last(), name) {
            Some(v) => Some(v),
            None => if entries.last().0@ == name {
                Some(entries.last().1)
            } else {
                None
            },
        },
    decreases entries.len(),
{
    if entries.len() > 1 {
        assert(entries.drop_first().drop_last() =~= entries.drop_last().drop_first());
        assert(entries.drop_first().last() == entries.last());
        assert(entries.drop_last()[0] == entries[0]);
        lemma_member_last(entries.drop_first(), name);
        if entries[0].0@ != name {
            assert(member(entries, name) == member(entries.drop_first(), name));
            assert(member(entries.drop_last(), name) == member(entries.drop_last().drop_first(), name));
            assert(member(entries.drop_first().drop_last(), name) == member(entries.drop_last(), name));
        } else {
            assert(member(entries, name) == Some(entries[0].1));
            assert(member(entries.drop_last(), name) == Some(entries[0].1));
        }
    } else {
        assert(entries.drop_first().len() == 0);
        assert(entries.drop_last().len() == 0);
        assert(entries.last() == entries[0]);
    }
}

pub proof fn lemma_member_none(entries: Seq<(String, JsonValue)>, name: Seq<char>)
    requires
        member(entries, name) is None,
    ensures
        no_member(entries, name),
    decreases entries.len(),
{
    if entries.len() > 0 {
        lemma_member_none(entries.drop_first(), name);
        assert forall|j: int| 0 <= j < entries.len() implies (#[trigger] entries[j]).0@ != name by {
            if j > 0 {
                assert(entries.drop_first()[j - 1] == entries[j]);
            }
        }
    }
}

/// `member` after one more member is appended.
proof fn lemma_member_push(entries: Seq<(String, JsonValue)>, entry: (String, JsonValue), name: Seq<char>)
    ensures
        member(entries.push(entry), name) == match member(entries, name) {
            Some(v) => Some(v),
            None => if entry.0@ == name {
                Some(entry.1)
            } else {
                None
            },
        },
{
    lemma_member_last(entries.push(entry), name);
    assert(entries.push(entry).drop_last() =~= entries);
}

/// Takes out every member called `name`: gives the other members, in
/// order, and the value of the first member called `name`, if any.
pub fn take_member(entries: Vec<(String, JsonValue)>, name: &str) -> (result: (
    Vec<(String, JsonValue)>,
    Option<JsonValue>,
))
    ensures
        result.1 == member(entries@, name@),
        forall|n: Seq<char>|
            #[trigger] member(result.0@, n) == if n == name@ {
                None
            } else {
                member(entries@, n)
            },
{
    let ghost given = entries@;
    let wanted = chars_of(name);
    let count = entries.len();
    let mut rest = entries;
    let mut kept: Vec<(String, JsonValue)> = Vec::new();
    let mut taken: Option<JsonValue> = None;
    let mut k: usize = 0;
    while k < count
        invariant
            wanted@ == name@,
            given.len() == count,
            k <= count,
            rest@ == given.skip(k as int),
            taken == member(given.take(k as int), name@),
            forall|n: Seq<char>|
                #[trigger] member(kept@, n) == if n == name@ {
                    None
                } else {
                    member(given.take(k as int), n)
                },
        decreases count - k,
    {
        let entry = rest.remove(0);
        proof {
            assert(entry == given[k as int]);
            assert(given.skip(k as int).remove(0) =~= given.skip(k + 1));
            assert(given.take(k + 1) =~= given.take(k as int).push(entry));
        }
        let ghost before = kept@;
        if crate::text::chars_eq_str(wanted.as_slice(), entry.0.as_str()) {
            proof {
                assert forall|n: Seq<char>| #[trigger] member(kept@, n) == if n == name@ {
                    None
                } else {
                    member(given.take(k + 1), n)
                } by {
                    lemma_member_push(given.take(k as int), entry, n);
                }
                lemma_member_push(given.take(k as int), entry, name@);
            }
            if taken.is_none() {
                taken = Some(entry.1);
            }
        } else {
            kept.push(entry);
            proof {
                assert forall|n: Seq<char>| #[trigger] member(kept@, n) == if n == name@ {
                    None
                } else {
                    member(given.take(k + 1), n)
                } by {
                    lemma_member_push(before, entry, n);
                    lemma_member_push(given.take(k as int), entry, n);
                }
                lemma_member_push(given.take(k as int), entry, name@);
            }
        }
        k = k + 1;
    }
    proof {
        assert(given.take(count as int) =~= given);
    }
    (kept, taken)
}

/// Sets the member `entry.0` to `entry.1`, dropping any earlier member of
/// that name.
pub fn set_member(entries: Vec<(String, JsonValue)>, entry: (String, JsonValue)) -> (out: Vec<
    (String, JsonValue),
>)
    ensures
        forall|n: Seq<char>|
            #[trigger] member(out@, n) == if n == entry.0@ {
                Some(entry.1)
            } else {
                member(entries@, n)
            },
{
    let (mut rest, _) = take_member(entries, entry.0.as_str());
    let ghost before = rest@;
    let ghost e = entry;
    rest.push(entry);
    proof {
        assert forall|n: Seq<char>| #[trigger] member(rest@, n) == if n == e.0@ {
            Some(e.1)
        } else {
            member(entries@, n)
        } by {
            lemma_member_push(before, e, n);
        }
    }
    rest
}

/// A lower-case hexadecimal digit.
pub open spec fn hex_digit(d: int) -> char {
    if d < 10 {
        ((d + 48) as u8) as char
    } else {
        ((d + 87) as u8) as char
    }
}

/// A character as it stands inside a JSON string: the quote and the
/// backslash escaped, the controls that have a short escape written with
/// it, and every other control below U+0020 as `\u00XX`.
pub open spec fn escaped_char(c: char) -> Seq<char> {
    if c == '"' {
        seq!['\\', '"']
    } else if c == '\\' {
        seq!['\\', '\\']
    } else if c == '\n' {
        seq!['\\', 'n']
    } else if c == '\r' {
        seq!['\\', 'r']
    } else if c == '\t' {
        seq!['\\', 't']
    } else if c == '\x08' {
        seq!['\\', 'b']
    } else if c == '\x0c' {
        seq!['\\', 'f']
    } else if (c as u32) < 0x20 {
        seq!['\\', 'u', '0', '0', hex_digit(((c as u32) / 16) as int), hex_digit(((c as u32) % 16) as int)]
    } else {
        seq![c]
    }
}

pub open spec fn escaped_text(s: Seq<char>) -> Seq<char>
    decreases s.len(),
{
    if s.len() == 0 {
        Seq::empty()
    } else {
        escaped_text(s.drop_last()) + escaped_char(s.last())
    }
}

/// A JSON string literal.
pub open spec fn json_string(s: Seq<char>) -> Seq<char> {
    seq!['"'] + escaped_text(s) + seq!['"']
}

/// The compact JSON text of a value: no white space, members in their
/// order, numbers as written.
pub open spec fn json_text(value: JsonValue) -> Seq<char>
    decreases value, 1nat,
{
    match value {
        JsonValue::Null => "null"@,
        JsonValue::Bool(b) => if b {
            "true"@
        } else {
            "false"@
        },
        JsonValue::Number(n) => n@,
        JsonValue::Text(t) => json_string(t@),
        JsonValue::Array(values) => seq!['['] + json_items(values@) + seq![']'],
        JsonValue::Object(entries) => seq!['{'] + json_members(entries@) + seq!['}'],
    }
}

/// The values, comma-separated.
pub open spec fn json_items(values: Seq<JsonValue>) -> Seq<char>
    decreases values, 0nat,
{
    if values.len() == 0 {
        Seq::empty()
    } else if values.len() == 1 {
        json_text(values[0])
    } else {
        json_items(values.drop_last()) + seq![','] + json_text(values.last())
    }
}

/// The members, comma-separated, each as `"name":value`.
pub open spec fn json_members(entries: Seq<(String, JsonValue)>) -> Seq<char>
    decreases entries, 0nat,
{
    if entries.len() == 0 {
        Seq::empty()
    } else if entries.len() == 1 {
        json_string(entries[0].0@) + seq![':'] + json_text(entries[0].1)
    } else {
        json_members(entries.drop_last()) + seq![','] + json_string(entries.last().0@) + seq![':']
            + json_text(entries.last().1)
    }
}


} // verus!

//! The upgrade of a template document to placements by node pool and a
//! temporary-storage policy: what a document must hold, and what it holds
//! afterwards.
use vstd::prelude::*;

use super::StorageError;
use crate::json::{json_string, JsonValue};
use crate::json_write::{push_all, write_string};
use super::migration::{
    holds_text, imported_placement, imported_pool_name_of, migrated_placement,
    migrated_temporary_storage, strictly_sorted, temporary_storage_gib, ImportedPool,
};
use super::node_pool_store::{ResolvedPlacement, WorkspacePlacement, DEFAULT_NODE_POOL};
use crate::ids::{decimal, decimal_text};
use crate::json::{find_member, member, set_member, take_member};
use crate::text::{chars_lt, code, is_ascii_digit, text_lt};

verus! {

/// The value of a run of decimal digits.
pub open spec fn digits_value(s: Seq<char>) -> nat
    decreases s.len(),
{
    if s.len() == 0 {
        0
    } else {
        digits_value(s.drop_last()) * 10 + (code(s.last()) - 0x30) as nat
    }
}

/// A JSON number read as an unsigned 64-bit integer: only a non-empty run
/// of decimal digits whose value fits is one.
pub open spec fn u64_number(s: Seq<char>) -> Option<u64> {
    if s.len() > 0 && (forall|i: int| 0 <= i < s.len() ==> is_ascii_digit(#[trigger] s[i]))
        && digits_value(s) <= u64::MAX {
        Some(digits_value(s) as u64)
    } else {
        None
    }
}

/// Reads a JSON number as an unsigned 64-bit integer.
pub fn parse_u64(text: &str) -> (value: Option<u64>)
    ensures
        value == u64_number(text@),
{
    let s = crate::text::chars_of(text);
    if s.len() == 0 {
        return None;
    }
    let mut value: u64 = 0;
    let mut overflow = false;
    let mut i: usize = 0;
    while i < s.len()
        invariant
            s@ == text@,
            i <= s@.len(),
            forall|k: int| 0 <= k < i ==> is_ascii_digit(#[trigger] s@[k]),
            !overflow ==> value == digits_value(s@.take(i as int)),
            overflow ==> digits_value(s@.take(i as int)) > u64::MAX,
        decreases s.len() - i,
    {
        let c = s[i];
        if !crate::text::char_is_ascii_digit(c) {
            assert(!is_ascii_digit(text@[i as int]));
            return None;
        }
        let d: u64 = (c as u32 - 48) as u64;
        proof {
            assert(s@.take(i + 1).drop_last() =~= s@.take(i as int));
            assert(s@.take(i + 1).last() == c);
        }
        if !overflow {
            if value > (u64::MAX - d) / 10 {
                overflow = true;
                assert(value * 10 + d > u64::MAX) by (nonlinear_arith)
                    requires
                        value > (u64::MAX - d) / 10,
                        d <= 9,
                ;
            } else {
                assert(value * 10 + d <= u64::MAX) by (nonlinear_arith)
                    requires
                        value <= (u64::MAX - d) / 10,
                        d <= 9,
                ;
                value = value * 10 + d;
            }
        } else {
            assert(digits_value(s@.take(i as int)) * 10 + d > u64::MAX) by (nonlinear_arith)
                requires
                    digits_value(s@.take(i as int)) > u64::MAX,
            ;
        }
        i = i + 1;
    }
    proof {
        assert(s@.take(s@.len() as int) =~= s@);
    }
    if overflow {
        None
    } else {
        Some(value)
    }
}

/// An optional reference to a value, as a value.
pub open spec fn opt_json(value: Option<&JsonValue>) -> Option<JsonValue> {
    match value {
        Some(v) => Some(*v),
        None => None,
    }
}

/// A node selector as an old template may hold it: absent, null, or an
/// object whose values are all strings.
pub open spec fn selector_ok(value: Option<JsonValue>) -> bool {
    match value {
        None => true,
        Some(JsonValue::Null) => true,
        Some(JsonValue::Object(entries)) => forall|i: int|
            0 <= i < entries@.len() ==> (#[trigger] entries@[i]).1 is Text,
        _ => false,
    }
}

/// The key and value pairs of a node selector, in order.
pub open spec fn selector_pairs(value: Option<JsonValue>) -> Seq<(String, String)> {
    match value {
        Some(JsonValue::Object(entries)) => entries@.map_values(
            |e: (String, JsonValue)| (e.0, e.1->Text_0),
        ),
        _ => Seq::empty(),
    }
}

/// A list of node names as an old template may hold it: absent, null, or
/// an array of strings.
pub open spec fn hosts_ok(value: Option<JsonValue>) -> bool {
    match value {
        None => true,
        Some(JsonValue::Null) => true,
        Some(JsonValue::Array(values)) => forall|i: int|
            0 <= i < values@.len() ==> #[trigger] values@[i] is Text,
        _ => false,
    }
}

/// The node names of such a list, in order.
pub open spec fn host_names(value: Option<JsonValue>) -> Seq<String> {
    match value {
        Some(JsonValue::Array(values)) => values@.map_values(|v: JsonValue| v->Text_0),
        _ => Seq::empty(),
    }
}

/// Reads a node selector.
pub fn read_selector(value: Option<&JsonValue>) -> (result: Result<Vec<(String, String)>, StorageError>)
    ensures
        result is Ok <==> selector_ok(opt_json(value)),
        result matches Ok(pairs) ==> pairs@ == selector_pairs(opt_json(value)),
        result is Err ==> result == Err::<Vec<(String, String)>, StorageError>(
            StorageError::InvalidTemplate,
        ),
{
    match value {
        None => Ok(Vec::new()),
        Some(JsonValue::Null) => Ok(Vec::new()),
        Some(JsonValue::Object(entries)) => {
            let mut pairs: Vec<(String, String)> = Vec::new();
            let mut i: usize = 0;
            while i < entries.len()
                invariant
                    opt_json(value) == Some(JsonValue::Object(*entries)),
                    i <= entries@.len(),
                    forall|k: int| 0 <= k < i ==> (#[trigger] entries@[k]).1 is Text,
                    pairs@ == entries@.take(i as int).map_values(
                        |e: (String, JsonValue)| (e.0, e.1->Text_0),
                    ),
                decreases entries.len() - i,
            {
                match &entries[i].1 {
                    JsonValue::Text(t) => {
                        pairs.push((entries[i].0.clone(), t.clone()));
                        assert(entries@.take(i + 1).map_values(
                            |e: (String, JsonValue)| (e.0, e.1->Text_0),
                        ) =~= entries@.take(i as int).map_values(
                            |e: (String, JsonValue)| (e.0, e.1->Text_0),
                        ).push((entries@[i as int].0, entries@[i as int].1->Text_0)));
                    },
                    _ => {
                        assert(!(entries@[i as int].1 is Text));
                        assert(opt_json(value) == Some(JsonValue::Object(*entries)));
                        assert(!selector_ok(opt_json(value)));
                        return Err(StorageError::InvalidTemplate);
                    },
                }
                i = i + 1;
            }
            assert(entries@.take(entries@.len() as int) =~= entries@);
            Ok(pairs)
        },
        _ => Err(StorageError::InvalidTemplate),
    }
}

/// Reads a list of node names.
pub fn read_hosts(value: Option<&JsonValue>) -> (result: Result<Vec<String>, StorageError>)
    ensures
        result is Ok <==> hosts_ok(opt_json(value)),
        result matches Ok(hosts) ==> hosts@ == host_names(opt_json(value)),
        result is Err ==> result == Err::<Vec<String>, StorageError>(StorageError::InvalidTemplate),
{
    match value {
        None => Ok(Vec::new()),
        Some(JsonValue::Null) => Ok(Vec::new()),
        Some(JsonValue::Array(values)) => {
            let mut hosts: Vec<String> = Vec::new();
            let mut i: usize = 0;
            while i < values.len()
                invariant
                    opt_json(value) == Some(JsonValue::Array(*values)),
                    i <= values@.len(),
                    forall|k: int| 0 <= k < i ==> #[trigger] values@[k] is Text,
                    hosts@ == values@.take(i as int).map_values(|v: JsonValue| v->Text_0),
                decreases values.len() - i,
            {
                match &values[i] {
                    JsonValue::Text(t) => {
                        hosts.push(t.clone());
                        assert(values@.take(i + 1).map_values(|v: JsonValue| v->Text_0)
                            =~= values@.take(i as int).map_values(|v: JsonValue| v->Text_0).push(
                            values@[i as int]->Text_0,
                        ));
                    },
                    _ => {
                        assert(!(values@[i as int] is Text));
                        assert(opt_json(value) == Some(JsonValue::Array(*values)));
                        assert(!hosts_ok(opt_json(value)));
                        return Err(StorageError::InvalidTemplate);
                    },
                }
                i = i + 1;
            }
            assert(values@.take(values@.len() as int) =~= values@);
            Ok(hosts)
        },
        _ => Err(StorageError::InvalidTemplate),
    }
}

/// The keys are in strictly increasing order.
pub open spec fn keys_sorted(pairs: Seq<(String, String)>) -> bool {
    forall|i: int, j: int|
        0 <= i < j < pairs.len() ==> text_lt(#[trigger] pairs[i].0@, #[trigger] pairs[j].0@)
}

/// The value that the last pair with key `key` gives it, if any.
pub open spec fn selector_value(pairs: Seq<(String, String)>, key: Seq<char>) -> Option<Seq<char>>
    decreases pairs.len(),
{
    if pairs.len() == 0 {
        None
    } else if pairs.last().0@ == key {
        Some(pairs.last().1@)
    } else {
        selector_value(pairs.drop_last(), key)
    }
}

/// `map` holds the selector `pairs` as a map of keys to values: keys in
/// strictly increasing order, each key of `pairs` once, with the value of
/// its last pair.
pub open spec fn selector_map_of(map: Seq<(String, String)>, pairs: Seq<(String, String)>) -> bool {
    &&& keys_sorted(map)
    &&& forall|i: int|
        0 <= i < map.len() ==> selector_value(pairs, (#[trigger] map[i]).0@) == Some(map[i].1@)
    &&& forall|key: Seq<char>|
        #[trigger] selector_value(pairs, key) is Some ==> exists|i: int|
            0 <= i < map.len() && map[i].0@ == key
}

fn key_position(map: &Vec<(String, String)>, key: &[char]) -> (position: (usize, bool))
    requires
        keys_sorted(map@),
    ensures
        position.0 <= map@.len(),
        position.1 ==> position.0 < map@.len() && map@[position.0 as int].0@ == key@,
        !position.1 ==> forall|i: int| 0 <= i < position.0 ==> text_lt(#[trigger] map@[i].0@, key@),
        !position.1 ==> forall|i: int|
            position.0 <= i < map@.len() ==> text_lt(key@, #[trigger] map@[i].0@),
{
    let mut p: usize = 0;
    while p < map.len()
        invariant
            keys_sorted(map@),
            p <= map@.len(),
            forall|i: int| 0 <= i < p ==> text_lt(#[trigger] map@[i].0@, key@),
        decreases map.len() - p,
    {
        let current = crate::text::chars_of(map[p].0.as_str());
        if crate::text::chars_eq(current.as_slice(), key) {
            return (p, true);
        }
        if !chars_lt(current.as_slice(), key) {
            proof {
                crate::text::lemma_text_lt_total(map@[p as int].0@, key@);
                assert forall|i: int| p <= i < map@.len() implies text_lt(
                    key@,
                    #[trigger] map@[i].0@,
                ) by {
                    if i > p {
                        crate::text::lemma_text_lt_transitive(key@, map@[p as int].0@, map@[i].0@);
                    }
                }
            }
            return (p, false);
        }
        p = p + 1;
    }
    (p, false)
}

proof fn lemma_sorted_keys_distinct(map: Seq<(String, String)>, i: int, j: int)
    requires
        keys_sorted(map),
        0 <= i < map.len(),
        0 <= j < map.len(),
        i != j,
    ensures
        map[i].0@ != map[j].0@,
{
    if i < j {
        assert(text_lt(map[i].0@, map[j].0@));
    } else {
        assert(text_lt(map[j].0@, map[i].0@));
    }
    crate::text::lemma_text_lt_irreflexive(map[i].0@);
}

/// A node selector as a map: the keys sorted, each once, with the value of
/// its last pair.
pub fn selector_map(pairs: Vec<(String, String)>) -> (map: Vec<(String, String)>)
    ensures
        selector_map_of(map@, pairs@),
{
    let mut map: Vec<(String, String)> = Vec::new();
    let mut n: usize = 0;
    while n < pairs.len()
        invariant
            n <= pairs@.len(),
            selector_map_of(map@, pairs@.take(n as int)),
        decreases pairs.len() - n,
    {
        let entry = (pairs[n].0.clone(), pairs[n].1.clone());
        let ghost before = pairs@.take(n as int);
        let ghost after = pairs@.take(n + 1);
        proof {
            assert(after.drop_last() =~= before);
            assert(after.last() == pairs@[n as int]);
            assert(entry == pairs@[n as int]);
        }
        let key = crate::text::chars_of(entry.0.as_str());
        let (p, found) = key_position(&map, key.as_slice());
        let ghost old_map = map@;
        if found {
            map.set(p, entry);
            proof {
                assert forall|i: int, j: int| 0 <= i < j < map@.len() implies text_lt(
                    #[trigger] map@[i].0@,
                    #[trigger] map@[j].0@,
                ) by {
                    assert(text_lt(old_map[i].0@, old_map[j].0@));
                }
                assert forall|i: int| 0 <= i < map@.len() implies selector_value(
                    after,
                    (#[trigger] map@[i]).0@,
                ) == Some(map@[i].1@) by {
                    if i != p {
                        lemma_sorted_keys_distinct(old_map, i, p as int);
                    }
                }
                assert forall|k: Seq<char>| #[trigger] selector_value(after, k) is Some implies exists|
                    i: int,
                | 0 <= i < map@.len() && map@[i].0@ == k by {
                    if k == entry.0@ {
                        assert(map@[p as int].0@ == k);
                    } else {
                        assert(selector_value(before, k) is Some);
                        let i = choose|i: int| 0 <= i < old_map.len() && old_map[i].0@ == k;
                        assert(map@[i].0@ == k);
                    }
                }
            }
        } else {
            map.insert(p, entry);
            proof {
                assert(map@ =~= old_map.insert(p as int, entry));
                assert forall|i: int, j: int| 0 <= i < j < map@.len() implies text_lt(
                    #[trigger] map@[i].0@,
                    #[trigger] map@[j].0@,
                ) by {
                    if j < p {
                    } else if j == p {
                    } else if i < p {
                        crate::text::lemma_text_lt_transitive(map@[i].0@, key@, map@[j].0@);
                    } else if i == p {
                    } else {
                        assert(text_lt(old_map[i - 1].0@, old_map[j - 1].0@));
                    }
                }
                assert forall|i: int| 0 <= i < map@.len() implies selector_value(
                    after,
                    (#[trigger] map@[i]).0@,
                ) == Some(map@[i].1@) by {
                    if i < p {
                        crate::text::lemma_text_lt_irreflexive(key@);
                        assert(text_lt(old_map[i].0@, key@));
                        assert(old_map[i].0@ != key@);
                    } else if i > p {
                        crate::text::lemma_text_lt_irreflexive(key@);
                        assert(text_lt(key@, old_map[i - 1].0@));
                        assert(old_map[i - 1].0@ != key@);
                    }
                }
                assert forall|k: Seq<char>| #[trigger] selector_value(after, k) is Some implies exists|
                    i: int,
                | 0 <= i < map@.len() && map@[i].0@ == k by {
                    if k == entry.0@ {
                        assert(map@[p as int].0@ == k);
                    } else {
                        assert(selector_value(before, k) is Some);
                        let i = choose|i: int| 0 <= i < old_map.len() && old_map[i].0@ == k;
                        if i < p {
                            assert(map@[i].0@ == k);
                        } else {
                            assert(map@[i + 1].0@ == k);
                        }
                    }
                }
            }
        }
        n = n + 1;
    }
    proof {
        assert(pairs@.take(pairs@.len() as int) =~= pairs@);
    }
    map
}

/// The members of a node selector object, as compact JSON.
pub open spec fn selector_text(pairs: Seq<(String, String)>) -> Seq<char>
    decreases pairs.len(),
{
    if pairs.len() == 0 {
        Seq::empty()
    } else if pairs.len() == 1 {
        json_string(pairs[0].0@) + seq![':'] + json_string(pairs[0].1@)
    } else {
        selector_text(pairs.drop_last()) + seq![','] + json_string(pairs.last().0@) + seq![':']
            + json_string(pairs.last().1@)
    }
}

/// The items of a list of host names, as compact JSON.
pub open spec fn hosts_text(hosts: Seq<String>) -> Seq<char>
    decreases hosts.len(),
{
    if hosts.len() == 0 {
        Seq::empty()
    } else if hosts.len() == 1 {
        json_string(hosts[0]@)
    } else {
        hosts_text(hosts.drop_last()) + seq![','] + json_string(hosts.last()@)
    }
}

/// The compact JSON of a private placement: its selector, then its
/// required and its preferred hosts.
pub open spec fn placement_text(placement: ResolvedPlacement) -> Seq<char> {
    "{\"selector\":{"@ + selector_text(placement.selector@) + "},\"required_hosts\":["@ + hosts_text(
        placement.required_hosts@,
    ) + "],\"preferred_hosts\":["@ + hosts_text(placement.preferred_hosts@) + "]}"@
}

fn write_selector(out: &mut Vec<char>, pairs: &Vec<(String, String)>)
    ensures
        final(out)@ == old(out)@ + selector_text(pairs@),
{
    let ghost start = out@;
    let mut i: usize = 0;
    while i < pairs.len()
        invariant
            i <= pairs@.len(),
            out@ == start + selector_text(pairs@.take(i as int)),
        decreases pairs.len() - i,
    {
        let ghost before = out@;
        if i > 0 {
            out.push(',');
        }
        write_string(out, pairs[i].0.as_str());
        out.push(':');
        write_string(out, pairs[i].1.as_str());
        proof {
            let t = pairs@.take(i + 1);
            assert(t.drop_last() =~= pairs@.take(i as int));
            assert(t.last() == pairs@[i as int]);
            if i == 0 {
                assert(t[0] == pairs@[0]);
                assert(out@ =~= start + selector_text(t));
            } else {
                assert(out@ =~= start + selector_text(t));
            }
        }
        i = i + 1;
    }
    assert(pairs@.take(pairs@.len() as int) =~= pairs@);
}

fn write_hosts(out: &mut Vec<char>, hosts: &Vec<String>)
    ensures
        final(out)@ == old(out)@ + hosts_text(hosts@),
{
    let ghost start = out@;
    let mut i: usize = 0;
    while i < hosts.len()
        invariant
            i <= hosts@.len(),
            out@ == start + hosts_text(hosts@.take(i as int)),
        decreases hosts.len() - i,
    {
        if i > 0 {
            out.push(',');
        }
        write_string(out, hosts[i].as_str());
        proof {
            let t = hosts@.take(i + 1);
            assert(t.drop_last() =~= hosts@.take(i as int));
            assert(t.last() == hosts@[i as int]);
            if i == 0 {
                assert(t[0] == hosts@[0]);
            }
            assert(out@ =~= start + hosts_text(t));
        }
        i = i + 1;
    }
    assert(hosts@.take(hosts@.len() as int) =~= hosts@);
}

/// The compact JSON of a private placement, which names the node pool
/// created for it.
pub fn placement_json(placement: &ResolvedPlacement) -> (text: String)
    ensures
        text@ == placement_text(*placement),
{
    let mut out: Vec<char> = Vec::new();
    push_all(&mut out, "{\"selector\":{");
    write_selector(&mut out, &placement.selector);
    push_all(&mut out, "},\"required_hosts\":[");
    write_hosts(&mut out, &placement.required_hosts);
    push_all(&mut out, "],\"preferred_hosts\":[");
    write_hosts(&mut out, &placement.preferred_hosts);
    push_all(&mut out, "]}");
    assert(out@ =~= placement_text(*placement));
    crate::text::string_from_chars(out.as_slice())
}

/// A number of the `storage_policy` member, when that member is an object
/// and the number a non-negative 64-bit integer.
pub open spec fn policy_number(policy: Option<JsonValue>, name: Seq<char>) -> Option<u64> {
    match policy {
        Some(JsonValue::Object(entries)) => match member(entries@, name) {
            Some(JsonValue::Number(text)) => u64_number(text@),
            _ => None,
        },
        _ => None,
    }
}

/// The temporary-storage budget of a template spec: its explicit budget,
/// else its old scratch budgets added up (see `migrated_temporary_storage`).
pub open spec fn spec_budget(spec: Seq<(String, JsonValue)>) -> int {
    let policy = member(spec, "storage_policy"@);
    migrated_temporary_storage(
        policy_number(policy, "temporary_storage_gib"@),
        policy_number(policy, "build_scratch_gib"@),
        policy_number(policy, "buildkit_cache_gib"@),
        policy_number(policy, "codex_scratch_gib"@),
    )
}

/// The new `storage_policy` value: the budget and nothing else.
pub open spec fn storage_policy_value(value: JsonValue, gib: u64) -> bool {
    match value {
        JsonValue::Object(entries) => entries@.len() == 1 && entries@[0].0@
            == "temporary_storage_gib"@ && match entries@[0].1 {
            JsonValue::Number(text) => text@ == decimal(gib as nat),
            _ => false,
        },
        _ => false,
    }
}

/// A list of names as a JSON array of strings.
pub open spec fn names_value(value: JsonValue, names: Seq<String>) -> bool {
    match value {
        JsonValue::Array(items) => items@.len() == names.len() && forall|i: int|
            0 <= i < names.len() ==> match #[trigger] items@[i] {
                JsonValue::Text(t) => t@ == names[i]@,
                _ => false,
            },
        _ => false,
    }
}

/// The new `placement` value: the allowed node pools, then the default one.
pub open spec fn placement_value(value: JsonValue, placement: WorkspacePlacement) -> bool {
    match value {
        JsonValue::Object(entries) => entries@.len() == 2 && entries@[0].0@ == "allowed_node_pools"@
            && names_value(entries@[0].1, placement.allowed_node_pools@) && entries@[1].0@
            == "default_node_pool"@ && match entries@[1].1 {
            JsonValue::Text(t) => t@ == placement.default_node_pool@,
            _ => false,
        },
        _ => false,
    }
}

/// The members an upgrade drops from a template spec.
pub open spec fn dropped_member(name: Seq<char>) -> bool {
    name == "ephemeral_storage_limit_mib"@ || name == "node_selector"@ || name
        == "required_node_names"@ || name == "preferred_node_names"@
}

/// Member `name` of an upgraded spec: the new storage policy and
/// placement, no old size limit or node choice, pod requests without their
/// ephemeral-storage request, and every other member as it was.
pub open spec fn spec_member_migrated(
    before: Seq<(String, JsonValue)>,
    after: Seq<(String, JsonValue)>,
    name: Seq<char>,
    gib: u64,
    placement: WorkspacePlacement,
) -> bool {
    if name == "storage_policy"@ {
        match member(after, name) {
            Some(v) => storage_policy_value(v, gib),
            None => false,
        }
    } else if name == "placement"@ {
        match member(after, name) {
            Some(v) => placement_value(v, placement),
            None => false,
        }
    } else if dropped_member(name) {
        member(after, name) is None
    } else if name == "pod_requests"@ {
        match member(before, name) {
            Some(JsonValue::Object(requests)) => match member(after, name) {
                Some(JsonValue::Object(kept)) => forall|n: Seq<char>|
                    #[trigger] member(kept@, n) == if n == "ephemeral_storage_mib"@ {
                        None
                    } else {
                        member(requests@, n)
                    },
                _ => false,
            },
            other => member(after, name) == other,
        }
    } else {
        member(after, name) == member(before, name)
    }
}

/// The placement an upgraded template gets from its old node selector and
/// node names: the default pool when it had none of them; otherwise one
/// new pool, named after the JSON of its private placement (the selector
/// as a sorted map, the distinct node names sorted), which the template
/// allows and uses by default.
pub open spec fn placement_chosen(
    placement: WorkspacePlacement,
    pools: Seq<ImportedPool>,
    selector: Seq<(String, String)>,
    required: Seq<String>,
    preferred: Seq<String>,
) -> bool {
    if selector.len() == 0 && required.len() == 0 && preferred.len() == 0 {
        &&& placement.default_node_pool@ == DEFAULT_NODE_POOL@
        &&& placement.allowed_node_pools@.len() == 1
        &&& placement.allowed_node_pools@[0]@ == DEFAULT_NODE_POOL@
        &&& pools.len() == 0
    } else {
        &&& pools.len() == 1
        &&& selector_map_of(pools[0].placement.selector@, selector)
        &&& strictly_sorted(pools[0].placement.required_hosts@)
        &&& strictly_sorted(pools[0].placement.preferred_hosts@)
        &&& forall|t: Seq<char>|
            holds_text(pools[0].placement.required_hosts@, t) <==> holds_text(required, t)
        &&& forall|t: Seq<char>|
            holds_text(pools[0].placement.preferred_hosts@, t) <==> holds_text(preferred, t)
        &&& pools[0].name@ == imported_pool_name_of(placement_text(pools[0].placement))
        &&& pools[0].display_name@ == "Custom placement"@
        &&& placement.default_node_pool@ == pools[0].name@
        &&& placement.allowed_node_pools@.len() == 1
        &&& placement.allowed_node_pools@[0]@ == pools[0].name@
    }
}

/// A template document that can be upgraded: an object whose `spec` is an
/// object with a readable node selector and node-name lists.
pub open spec fn document_migratable(document: JsonValue) -> bool {
    match document {
        JsonValue::Object(root) => match member(root@, "spec"@) {
            Some(JsonValue::Object(spec)) => selector_ok(member(spec@, "node_selector"@)) && hosts_ok(
                member(spec@, "required_node_names"@),
            ) && hosts_ok(member(spec@, "preferred_node_names"@)),
            _ => false,
        },
        _ => false,
    }
}

/// An upgraded template document.
#[derive(Debug)]
pub struct MigratedTemplateDocument {
    pub document: JsonValue,
    pub temporary_storage_gib: u64,
    pub placement: WorkspacePlacement,
    pub pools: Vec<ImportedPool>,
}

/// `migrated` is the upgrade of `document`: the same document but for its
/// spec, whose members are upgraded member by member; the budget and the
/// placement the spec determines; and the pool to create, if any.
pub open spec fn document_migrated(document: JsonValue, migrated: MigratedTemplateDocument) -> bool {
    match (document, migrated.document) {
        (JsonValue::Object(root), JsonValue::Object(root2)) => match (
            member(root@, "spec"@),
            member(root2@, "spec"@),
        ) {
            (Some(JsonValue::Object(spec)), Some(JsonValue::Object(spec2))) => {
                &&& forall|n: Seq<char>|
                    n != "spec"@ ==> #[trigger] member(root2@, n) == member(root@, n)
                &&& migrated.temporary_storage_gib == spec_budget(spec@)
                &&& placement_chosen(
                    migrated.placement,
                    migrated.pools@,
                    selector_pairs(member(spec@, "node_selector"@)),
                    host_names(member(spec@, "required_node_names"@)),
                    host_names(member(spec@, "preferred_node_names"@)),
                )
                &&& forall|n: Seq<char>|
                    #[trigger] spec_member_migrated(
                        spec@,
                        spec2@,
                        n,
                        migrated.temporary_storage_gib,
                        migrated.placement,
                    )
            },
            _ => false,
        },
        _ => false,
    }
}

fn policy_number_of(policy: Option<&JsonValue>, name: &str) -> (number: Option<u64>)
    ensures
        number == policy_number(opt_json(policy), name@),
{
    match policy {
        Some(JsonValue::Object(entries)) => match find_member(entries, name) {
            Some(JsonValue::Number(text)) => parse_u64(text.as_str()),
            _ => None,
        },
        _ => None,
    }
}

fn storage_policy_entry(gib: u64) -> (entry: (String, JsonValue))
    ensures
        entry.0@ == "storage_policy"@,
        storage_policy_value(entry.1, gib),
{
    let mut entries: Vec<(String, JsonValue)> = Vec::new();
    entries.push(("temporary_storage_gib".to_owned(), JsonValue::Number(decimal_text(gib))));
    ("storage_policy".to_owned(), JsonValue::Object(entries))
}

fn placement_entry(placement: &WorkspacePlacement) -> (entry: (String, JsonValue))
    ensures
        entry.0@ == "placement"@,
        placement_value(entry.1, *placement),
{
    let mut items: Vec<JsonValue> = Vec::new();
    let mut i: usize = 0;
    while i < placement.allowed_node_pools.len()
        invariant
            i <= placement.allowed_node_pools@.len(),
            items@.len() == i,
            forall|k: int|
                0 <= k < i ==> match #[trigger] items@[k] {
                    JsonValue::Text(t) => t@ == placement.allowed_node_pools@[k]@,
                    _ => false,
                },
        decreases placement.allowed_node_pools.len() - i,
    {
        items.push(JsonValue::Text(placement.allowed_node_pools[i].clone()));
        i = i + 1;
    }
    let mut entries: Vec<(String, JsonValue)> = Vec::new();
    entries.push(("allowed_node_pools".to_owned(), JsonValue::Array(items)));
    entries.push(
        ("default_node_pool".to_owned(), JsonValue::Text(placement.default_node_pool.clone())),
    );
    ("placement".to_owned(), JsonValue::Object(entries))
}

proof fn lemma_selector_map_empty(map: Seq<(String, String)>, pairs: Seq<(String, String)>)
    requires
        selector_map_of(map, pairs),
    ensures
        map.len() == 0 <==> pairs.len() == 0,
{
    if pairs.len() > 0 {
        assert(selector_value(pairs, pairs.last().0@) is Some);
    }
    if map.len() > 0 {
        assert(selector_value(pairs, map[0].0@) == Some(map[0].1@));
    }
}

proof fn lemma_member_names_distinct()
    ensures
        "spec"@.len() == 4,
        "storage_policy"@.len() == 14,
        "placement"@.len() == 9,
        "pod_requests"@.len() == 12,
        "ephemeral_storage_limit_mib"@.len() == 27,
        "node_selector"@.len() == 13,
        "required_node_names"@.len() == 19,
        "preferred_node_names"@.len() == 20,
{
    reveal_strlit("spec");
    reveal_strlit("storage_policy");
    reveal_strlit("placement");
    reveal_strlit("pod_requests");
    reveal_strlit("ephemeral_storage_limit_mib");
    reveal_strlit("node_selector");
    reveal_strlit("required_node_names");
    reveal_strlit("preferred_node_names");
}

/// Upgrades a template document to placements by node pool and a
/// temporary-storage policy; a document without an object `spec`, or with
/// an unreadable node selector or node-name list, is refused.
pub fn migrate_template_document(document: JsonValue) -> (result: Result<
    MigratedTemplateDocument,
    StorageError,
>)
    ensures
        result is Ok <==> document_migratable(document),
        result matches Ok(migrated) ==> document_migrated(document, migrated),
        result is Err ==> result == Err::<MigratedTemplateDocument, StorageError>(
            StorageError::InvalidTemplate,
        ),
{
    let ghost given = document;
    proof {
        lemma_member_names_distinct();
    }
    let root = match document {
        JsonValue::Object(root) => root,
        _ => {
            return Err(StorageError::InvalidTemplate);
        },
    };
    let ghost root0 = root@;
    let (root_rest, spec_value) = take_member(root, "spec");
    let spec = match spec_value {
        Some(JsonValue::Object(spec)) => spec,
        _ => {
            return Err(StorageError::InvalidTemplate);
        },
    };
    let ghost spec0 = spec@;
    let policy = find_member(&spec, "storage_policy");
    let explicit = policy_number_of(policy, "temporary_storage_gib");
    let build = policy_number_of(policy, "build_scratch_gib");
    let cache = policy_number_of(policy, "buildkit_cache_gib");
    let codex = policy_number_of(policy, "codex_scratch_gib");
    let gib = temporary_storage_gib(explicit, build, cache, codex);
    let selector = match read_selector(find_member(&spec, "node_selector")) {
        Ok(pairs) => pairs,
        Err(e) => {
            return Err(e);
        },
    };
    let required = match read_hosts(find_member(&spec, "required_node_names")) {
        Ok(hosts) => hosts,
        Err(e) => {
            return Err(e);
        },
    };
    let preferred = match read_hosts(find_member(&spec, "preferred_node_names")) {
        Ok(hosts) => hosts,
        Err(e) => {
            return Err(e);
        },
    };
    let ghost selector0 = selector@;
    let ghost required0 = required@;
    let ghost preferred0 = preferred@;
    let policy_entry = storage_policy_entry(gib);
    let ghost po = policy_entry;
    let spec = set_member(spec, policy_entry);
    let ghost spec1 = spec@;
    let (spec, _) = take_member(spec, "ephemeral_storage_limit_mib");
    let ghost spec2 = spec@;

    let (spec, requests) = take_member(spec, "pod_requests");
    let ghost spec_p = spec@;
    let ghost requests0 = requests;
    let ghost mut kept0: Seq<(String, JsonValue)> = Seq::empty();
    let spec = match requests {
        Some(JsonValue::Object(entries)) => {
            let ghost entries0 = entries@;
            let (kept, _) = take_member(entries, "ephemeral_storage_mib");
            proof {
                kept0 = kept@;
                assert forall|n: Seq<char>| #[trigger] member(kept0, n) == if n
                    == "ephemeral_storage_mib"@ {
                    None
                } else {
                    member(entries0, n)
                } by {}
            }
            set_member(spec, ("pod_requests".to_owned(), JsonValue::Object(kept)))
        },
        Some(other) => set_member(spec, ("pod_requests".to_owned(), other)),
        None => spec,
    };
    let ghost spec3 = spec@;
    let (spec, _) = take_member(spec, "required_node_names");
    let ghost spec3a = spec@;
    let (spec, _) = take_member(spec, "preferred_node_names");
    let ghost spec3b = spec@;
    let (spec, _) = take_member(spec, "node_selector");
    let ghost spec4 = spec@;
    let map = selector_map(selector);
    proof {
        lemma_selector_map_empty(map@, selector0);
    }
    let (placement, pools) = match migrated_placement(map, required, preferred) {
        None => {
            let mut allowed: Vec<String> = Vec::new();
            allowed.push(DEFAULT_NODE_POOL.to_owned());
            (
                WorkspacePlacement {
                    default_node_pool: DEFAULT_NODE_POOL.to_owned(),
                    allowed_node_pools: allowed,
                },
                Vec::new(),
            )
        },
        Some(private) => {
            let text = placement_json(&private);
            let (placement, pool) = imported_placement(text.as_str(), private);
            let mut pools: Vec<ImportedPool> = Vec::new();
            pools.push(pool);
            (placement, pools)
        },
    };
    let entry = placement_entry(&placement);
    let ghost pe = entry;
    let spec = set_member(spec, entry);
    let ghost spec5 = spec@;
    let root = set_member(root_rest, ("spec".to_owned(), JsonValue::Object(spec)));
    let migrated = MigratedTemplateDocument {
        document: JsonValue::Object(root),
        temporary_storage_gib: gib,
        placement,
        pools,
    };
    proof {
        assert forall|n: Seq<char>| #[trigger]
            spec_member_migrated(spec0, spec5, n, gib, migrated.placement) by {
            assert(member(spec5, n) == if n == "placement"@ {
                Some(pe.1)
            } else {
                member(spec4, n)
            });
            assert(member(spec4, n) == if n == "node_selector"@ {
                None
            } else {
                member(spec3b, n)
            });
            assert(member(spec3b, n) == if n == "preferred_node_names"@ {
                None
            } else {
                member(spec3a, n)
            });
            assert(member(spec3a, n) == if n == "required_node_names"@ {
                None
            } else {
                member(spec3, n)
            });
            assert(member(spec_p, n) == if n == "pod_requests"@ {
                None
            } else {
                member(spec2, n)
            });
            assert(member(spec2, n) == if n == "ephemeral_storage_limit_mib"@ {
                None
            } else {
                member(spec1, n)
            });
            assert(member(spec1, n) == if n == "storage_policy"@ {
                Some(po.1)
            } else {
                member(spec0, n)
            });
            assert(member(spec2, "pod_requests"@) == member(spec0, "pod_requests"@));
        }
    }
    Ok(migrated)
}

/// Upgrades every stored template document, or, when any of them is
/// refused, none (the whole upgrade is rolled back with `InvalidTemplate`).
pub fn migrate_template_documents(documents: Vec<JsonValue>) -> (result: Result<
    Vec<MigratedTemplateDocument>,
    StorageError,
>)
    ensures
        result is Ok <==> forall|i: int|
            0 <= i < documents@.len() ==> #[trigger] document_migratable(documents@[i]),
        result matches Ok(migrated) ==> migrated@.len() == documents@.len() && forall|i: int|
            0 <= i < documents@.len() ==> #[trigger] document_migrated(
                documents@[i],
                migrated@[i],
            ),
        result is Err ==> result == Err::<Vec<MigratedTemplateDocument>, StorageError>(
            StorageError::InvalidTemplate,
        ),
{
    let ghost given = documents@;
    let count = documents.len();
    let mut rest = documents;
    let mut out: Vec<MigratedTemplateDocument> = Vec::new();
    let mut done: usize = 0;
    while done < count
        invariant
            given == documents@,
            given.len() == count,
            done <= count,
            rest@ == given.skip(done as int),
            out@.len() == done,
            forall|i: int| 0 <= i < done ==> #[trigger] document_migratable(given[i]),
            forall|i: int| 0 <= i < done ==> #[trigger] document_migrated(given[i], out@[i]),
        decreases count - done,
    {
        let document = rest.remove(0);
        proof {
            assert(document == given[done as int]);
            assert(given.skip(done as int).remove(0) =~= given.skip(done + 1));
        }
        match migrate_template_document(document) {
            Ok(migrated) => {
                out.push(migrated);
            },
            Err(e) => {
                assert(!document_migratable(given[done as int]));
                return Err(e);
            },
        }
        done = done + 1;
    }
    Ok(out)
}

} // verus!

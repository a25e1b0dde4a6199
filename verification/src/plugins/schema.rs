//! What a plugin's configuration schema may contain: it stays within
//! complexity limits, references only itself, and declares no secrets,
//! which belong to the encrypted injection subsystem.
use vstd::prelude::*;

use super::error::{is_invalid_package, PluginError};
pub use crate::json::JsonValue;
use crate::json::{find_member, json_text, member};
use crate::json_write::json_encoding;
use crate::digest::{hash_secret, sha256_hex};
use crate::text::{ascii_lower_char, chars_of, contains, starts_with, utf8_len};
use vstd::utf8::encode_utf8;

verus! {

/// The deepest nesting and the most nodes a schema may have.
pub const MAX_SCHEMA_DEPTH: usize = 32;

pub const MAX_SCHEMA_NODES: usize = 4096;

/// A property name as it is compared against secret-like words: ASCII
/// letters in lower case, `-` and space turned into `_`.
pub open spec fn normalized_property(c: char) -> char {
    if c == '-' || c == ' ' {
        '_'
    } else {
        ascii_lower_char(c)
    }
}

pub open spec fn normalized_name(name: Seq<char>) -> Seq<char> {
    name.map_values(|c: char| normalized_property(c))
}

/// The property name looks like it holds a credential.
pub open spec fn credential_shaped_name(name: Seq<char>) -> bool {
    let n = normalized_name(name);
    ||| contains(n, "secret"@)
    ||| contains(n, "password"@)
    ||| contains(n, "token"@)
    ||| contains(n, "credential"@)
    ||| contains(n, "private_key"@)
    ||| contains(n, "api_key"@)
}

/// Whether a property name looks like it holds a credential.
pub fn credential_shaped(name: &str) -> (shaped: bool)
    ensures
        shaped == credential_shaped_name(name@),
{
    let chars = chars_of(name);
    let mut n: Vec<char> = Vec::new();
    let mut i: usize = 0;
    while i < chars.len()
        invariant
            chars@ == name@,
            i <= chars@.len(),
            n@ == normalized_name(chars@.take(i as int)),
        decreases chars.len() - i,
    {
        let c = chars[i];
        let mapped = if c == '-' || c == ' ' {
            '_'
        } else {
            crate::text::char_to_ascii_lower(c)
        };
        n.push(mapped);
        assert(normalized_name(chars@.take(i + 1)) =~= normalized_name(chars@.take(i as int)).push(
            normalized_property(c),
        ));
        i = i + 1;
    }
    assert(chars@.take(chars@.len() as int) =~= chars@);
    let n = n.as_slice();
    crate::text::contains_str(n, "secret") || crate::text::contains_str(n, "password")
        || crate::text::contains_str(n, "token") || crate::text::contains_str(n, "credential")
        || crate::text::contains_str(n, "private_key") || crate::text::contains_str(n, "api_key")
}

/// The refusal an object's own members cause, before its children are
/// visited: a write-only flag, a reference outside the schema, or a
/// property named like a credential.
pub open spec fn object_refusal(entries: Seq<(String, JsonValue)>) -> Option<Seq<char>> {
    if member(entries, "writeOnly"@) == Some(JsonValue::Bool(true)) {
        Some("configuration cannot contain write-only fields"@)
    } else if (match member(entries, "$ref"@) {
        Some(JsonValue::Text(r)) => !starts_with(r@, "#/"@),
        _ => false,
    }) {
        Some("configuration schema references must be local"@)
    } else if (match member(entries, "properties"@) {
        Some(JsonValue::Object(props)) => exists|k: int|
            0 <= k < props@.len() && credential_shaped_name(#[trigger] props@[k].0@),
        _ => false,
    }) {
        Some("credentials must use the encrypted injection subsystem"@)
    } else {
        None
    }
}

fn check_object(entries: &Vec<(String, JsonValue)>) -> (result: Result<(), PluginError>)
    ensures
        match object_refusal(entries@) {
            None => result is Ok,
            Some(message) => result matches Err(e) && is_invalid_package(e, message),
        },
{
    match find_member(entries, "writeOnly") {
        Some(JsonValue::Bool(true)) => {
            return Err(PluginError::invalid("configuration cannot contain write-only fields"));
        },
        _ => {},
    }
    match find_member(entries, "$ref") {
        Some(JsonValue::Text(r)) => {
            let c = chars_of(r.as_str());
            if !crate::text::starts_with_str(c.as_slice(), "#/") {
                return Err(PluginError::invalid("configuration schema references must be local"));
            }
        },
        _ => {},
    }
    match find_member(entries, "properties") {
        Some(JsonValue::Object(props)) => {
            let mut k: usize = 0;
            let ghost earlier_fine = member(entries@, "writeOnly"@) != Some(JsonValue::Bool(true))
                && !(match member(entries@, "$ref"@) {
                Some(JsonValue::Text(r)) => !starts_with(r@, "#/"@),
                _ => false,
            });
            assert(earlier_fine);
            while k < props.len()
                invariant
                    earlier_fine,
                    earlier_fine == (member(entries@, "writeOnly"@) != Some(JsonValue::Bool(true))
                        && !(match member(entries@, "$ref"@) {
                        Some(JsonValue::Text(r)) => !starts_with(r@, "#/"@),
                        _ => false,
                    })),
                    member(entries@, "properties"@) matches Some(JsonValue::Object(p)) && p@ == props@,
                    k <= props@.len(),
                    forall|m: int| 0 <= m < k ==> !credential_shaped_name(#[trigger] props@[m].0@),
                decreases props.len() - k,
            {
                if credential_shaped(props[k].0.as_str()) {
                    assert(credential_shaped_name(props@[k as int].0@));
                    return Err(
                        PluginError::invalid("credentials must use the encrypted injection subsystem"),
                    );
                }
                k = k + 1;
            }
        },
        _ => {},
    }
    Ok(())
}

/// The message for a schema beyond the complexity limits.
pub open spec fn complexity_message() -> Seq<char> {
    "configuration schema exceeds complexity limits"@
}

/// The outcome of visiting `value` at `depth` after `nodes` nodes were
/// seen: the node count afterwards, or the message of the first rule
/// broken, visiting depth-first in member order.
pub open spec fn inspect_value(value: JsonValue, depth: nat, nodes: nat) -> Result<nat, Seq<char>>
    decreases value, 1nat,
{
    let n = nodes + 1;
    if depth > MAX_SCHEMA_DEPTH || n > MAX_SCHEMA_NODES {
        Err(complexity_message())
    } else {
        match value {
            JsonValue::Array(values) => inspect_all(values@, depth + 1, n),
            JsonValue::Object(entries) => match object_refusal(entries@) {
                Some(message) => Err(message),
                None => inspect_members(entries@, depth + 1, n),
            },
            _ => Ok(n),
        }
    }
}

/// Visiting the values in order, stopping at the first refusal.
pub open spec fn inspect_all(values: Seq<JsonValue>, depth: nat, nodes: nat) -> Result<nat, Seq<char>>
    decreases values, 0nat,
{
    if values.len() == 0 {
        Ok(nodes)
    } else {
        match inspect_value(values[0], depth, nodes) {
            Ok(after) => inspect_all(values.drop_first(), depth, after),
            Err(message) => Err(message),
        }
    }
}

/// Visiting the member values in order, stopping at the first refusal.
pub open spec fn inspect_members(entries: Seq<(String, JsonValue)>, depth: nat, nodes: nat) -> Result<
    nat,
    Seq<char>,
>
    decreases entries, 0nat,
{
    if entries.len() == 0 {
        Ok(nodes)
    } else {
        match inspect_value(entries[0].1, depth, nodes) {
            Ok(after) => inspect_members(entries.drop_first(), depth, after),
            Err(message) => Err(message),
        }
    }
}


fn inspect_node(value: &JsonValue, depth: usize, nodes: &mut usize) -> (result: Result<
    (),
    PluginError,
>)
    ensures
        match inspect_value(*value, depth as nat, *old(nodes) as nat) {
            Ok(after) => result is Ok && *final(nodes) == after && after <= MAX_SCHEMA_NODES,
            Err(message) => result matches Err(e) && is_invalid_package(e, message),
        },
    decreases value,
{
    let ghost start: usize = *nodes;
    let n = (*nodes).saturating_add(1);
    *nodes = n;
    if depth > MAX_SCHEMA_DEPTH || n > MAX_SCHEMA_NODES {
        return Err(PluginError::invalid("configuration schema exceeds complexity limits"));
    }
    match value {
        JsonValue::Array(values) => {
            let mut i: usize = 0;
            assert(values@.skip(0) =~= values@);
            while i < values.len()
                invariant
                    *value == JsonValue::Array(*values),
                    start == *old(nodes),
                    inspect_value(*value, depth as nat, start as nat) == inspect_all(
                        values@,
                        (depth + 1) as nat,
                        n as nat,
                    ),
                    depth <= MAX_SCHEMA_DEPTH,
                    n <= MAX_SCHEMA_NODES,
                    *nodes <= MAX_SCHEMA_NODES,
                    i <= values@.len(),
                    inspect_all(values@, (depth + 1) as nat, n as nat) == inspect_all(
                        values@.skip(i as int),
                        (depth + 1) as nat,
                        *nodes as nat,
                    ),
                decreases values.len() - i,
            {
                assert(values@.skip(i as int)[0] == values@[i as int]);
                assert(values@.skip(i as int).drop_first() =~= values@.skip(i + 1));
                assert(decreases_to!(*value => values@[i as int]));
                let ghost before: usize = *nodes;
                match inspect_node(&values[i], depth + 1, nodes) {
                    Ok(()) => {},
                    Err(e) => {
                        assert(inspect_all(values@.skip(i as int), (depth + 1) as nat, before as nat) is Err);
                        return Err(e);
                    },
                }
                i = i + 1;
            }
            Ok(())
        },
        JsonValue::Object(entries) => {
            check_object(entries)?;
            let mut i: usize = 0;
            assert(entries@.skip(0) =~= entries@);
            while i < entries.len()
                invariant
                    *value == JsonValue::Object(*entries),
                    start == *old(nodes),
                    inspect_value(*value, depth as nat, start as nat) == inspect_members(
                        entries@,
                        (depth + 1) as nat,
                        n as nat,
                    ),
                    depth <= MAX_SCHEMA_DEPTH,
                    n <= MAX_SCHEMA_NODES,
                    *nodes <= MAX_SCHEMA_NODES,
                    i <= entries@.len(),
                    inspect_members(entries@, (depth + 1) as nat, n as nat) == inspect_members(
                        entries@.skip(i as int),
                        (depth + 1) as nat,
                        *nodes as nat,
                    ),
                decreases entries.len() - i,
            {
                assert(entries@.skip(i as int)[0] == entries@[i as int]);
                assert(entries@.skip(i as int).drop_first() =~= entries@.skip(i + 1));
                assert(decreases_to!(*value => entries@[i as int].1));
                let ghost before: usize = *nodes;
                match inspect_node(&entries[i].1, depth + 1, nodes) {
                    Ok(()) => {},
                    Err(e) => {
                        assert(inspect_members(entries@.skip(i as int), (depth + 1) as nat, before as nat) is Err);
                        return Err(e);
                    },
                }
                i = i + 1;
            }
            Ok(())
        },
        _ => Ok(()),
    }
}

/// Walks a schema depth-first, refusing with the first rule broken: more
/// than 32 levels or 4096 nodes, a write-only field, a reference outside
/// the schema, or a property named like a credential.
pub fn inspect(schema: &JsonValue) -> (result: Result<(), PluginError>)
    ensures
        match inspect_value(*schema, 0, 0) {
            Ok(_) => result is Ok,
            Err(message) => result matches Err(e) && is_invalid_package(e, message),
        },
{
    let mut nodes: usize = 0;
    inspect_node(schema, 0, &mut nodes)
}

/// The largest schema, in bytes of JSON.
pub const MAX_SCHEMA_BYTES: usize = 262144;

/// The schema's root declares the `object` type.
pub open spec fn object_root(schema: JsonValue) -> bool {
    match schema {
        JsonValue::Object(entries) => match member(entries@, "type"@) {
            Some(JsonValue::Text(t)) => t@ == "object"@,
            _ => false,
        },
        _ => false,
    }
}

fn has_object_root(schema: &JsonValue) -> (root: bool)
    ensures
        root == object_root(*schema),
{
    match schema {
        JsonValue::Object(entries) => match find_member(entries, "type") {
            Some(JsonValue::Text(t)) => {
                let c = chars_of(t.as_str());
                crate::text::chars_eq_str(c.as_slice(), "object")
            },
            _ => false,
        },
        _ => false,
    }
}

/// The checks a configuration schema passes before it is compiled: an
/// object root, at most 256 KiB of compact JSON, and the rules of
/// `inspect`.
pub fn check_schema(schema: &JsonValue) -> (result: Result<(), PluginError>)
    ensures
        !object_root(*schema) ==> (result matches Err(e) && is_invalid_package(
            e,
            "configuration schema must have an object root"@,
        )),
        object_root(*schema) && utf8_len(json_text(*schema)) > MAX_SCHEMA_BYTES ==> (result matches Err(e)
            && is_invalid_package(e, "configuration schema exceeds 256 KiB"@)),
        object_root(*schema) && utf8_len(json_text(*schema)) <= MAX_SCHEMA_BYTES ==> match inspect_value(
            *schema,
            0,
            0,
        ) {
            Ok(_) => result is Ok,
            Err(message) => result matches Err(e) && is_invalid_package(e, message),
        },
{
    if !has_object_root(schema) {
        return Err(PluginError::invalid("configuration schema must have an object root"));
    }
    let encoded = json_encoding(schema);
    let text = chars_of(encoded.as_str());
    if crate::text::utf8_len_at_least(text.as_slice(), MAX_SCHEMA_BYTES + 1) {
        return Err(PluginError::invalid("configuration schema exceeds 256 KiB"));
    }
    inspect(schema)
}

/// Whether the text parses with `serde_json::from_str` and
/// `jsonschema::draft202012::options().build` accepts the value as a
/// schema.
pub uninterp spec fn draft202012_compiles(schema: Seq<char>) -> bool;

/// Whether the instance text parses with `serde_json::from_str` and
/// `Validator::is_valid` of the validator built from the schema text
/// accepts it.
pub uninterp spec fn draft202012_accepts(schema: Seq<char>, instance: Seq<char>) -> bool;

/// Parses the text with `serde_json::from_str` and builds a Draft 2020-12
/// validator from it with `jsonschema::draft202012::options().build`;
/// says whether both succeed.
#[verifier::external_body]
fn schema_compiles(schema_json: &str) -> (compiles: bool)
    ensures
        compiles == draft202012_compiles(schema_json@),
{
    match serde_json::from_str::<serde_json::Value>(schema_json) {
        Ok(schema) => jsonschema::draft202012::options().build(&schema).is_ok(),
        Err(_) => false,
    }
}

/// Builds the validator as `schema_compiles` does and calls
/// `Validator::is_valid` on the instance parsed with `serde_json::from_str`;
/// `false` when either text does not parse or the schema does not build.
#[verifier::external_body]
fn schema_accepts(schema_json: &str, instance_json: &str) -> (accepts: bool)
    ensures
        accepts == (draft202012_compiles(schema_json@) && draft202012_accepts(
            schema_json@,
            instance_json@,
        )),
{
    let schema = serde_json::from_str::<serde_json::Value>(schema_json);
    let instance = serde_json::from_str::<serde_json::Value>(instance_json);
    match (schema, instance) {
        (Ok(schema), Ok(instance)) => match jsonschema::draft202012::options().build(&schema) {
            Ok(validator) => validator.is_valid(&instance),
            Err(_) => false,
        },
        _ => false,
    }
}

/// The largest configuration value, in bytes of JSON.
pub const MAX_INSTANCE_BYTES: usize = 1048576;

/// A plugin's configuration schema, checked and compiled, with the digest
/// under which configuration values are stored against it.
pub struct ConfigurationSchema {
    schema_json: String,
    digest: String,
}

impl ConfigurationSchema {
    #[verifier::type_invariant]
    closed spec fn compiled(self) -> bool {
        &&& draft202012_compiles(self.schema_json@)
        &&& self.digest@ == sha256_hex(encode_utf8(self.schema_json@))
    }

    /// The schema's JSON text.
    pub closed spec fn schema_text(self) -> Seq<char> {
        self.schema_json@
    }

    /// The digest of the schema's JSON text.
    pub closed spec fn digest_text(self) -> Seq<char> {
        self.digest@
    }

    /// Checks and compiles a schema: the checks of `check_schema`, then a
    /// valid Draft 2020-12 schema. The schema is kept as its compact JSON
    /// text, and the digest is the SHA-256 of that text.
    pub fn compile(schema: &JsonValue) -> (compiled: Result<Self, PluginError>)
        ensures
            !object_root(*schema) ==> (compiled matches Err(e) && is_invalid_package(
                e,
                "configuration schema must have an object root"@,
            )),
            object_root(*schema) && utf8_len(json_text(*schema)) > MAX_SCHEMA_BYTES ==> (compiled matches Err(
                e,
            ) && is_invalid_package(e, "configuration schema exceeds 256 KiB"@)),
            object_root(*schema) && utf8_len(json_text(*schema)) <= MAX_SCHEMA_BYTES ==> match inspect_value(
                *schema,
                0,
                0,
            ) {
                Err(message) => compiled matches Err(e) && is_invalid_package(e, message),
                Ok(_) => if draft202012_compiles(json_text(*schema)) {
                    compiled matches Ok(c) && c.schema_text() == json_text(*schema) && c.digest_text()
                        == sha256_hex(encode_utf8(json_text(*schema)))
                } else {
                    compiled matches Err(e) && is_invalid_package(
                        e,
                        "configuration schema is invalid"@,
                    )
                },
            },
    {
        match check_schema(schema) {
            Ok(()) => {},
            Err(e) => {
                return Err(e);
            },
        }
        let schema_json = json_encoding(schema);
        if !schema_compiles(schema_json.as_str()) {
            return Err(PluginError::invalid("configuration schema is invalid"));
        }
        let digest = hash_secret(schema_json.as_str());
        Ok(ConfigurationSchema { schema_json, digest })
    }

    /// Checks a configuration value, given as its compact JSON text, against
    /// the schema; a value over 1 MiB is refused without validation. What a
    /// validator reports is never passed on: it may quote the value.
    pub fn validate(&self, value_json: &str) -> (result: Result<(), PluginError>)
        ensures
            utf8_len(value_json@) > MAX_INSTANCE_BYTES ==> result == Err::<(), PluginError>(
                PluginError::InvalidConfiguration,
            ),
            utf8_len(value_json@) <= MAX_INSTANCE_BYTES ==> (result is Ok <==> draft202012_accepts(
                self.schema_text(),
                value_json@,
            )),
            result is Err ==> result == Err::<(), PluginError>(PluginError::InvalidConfiguration),
    {
        proof {
            use_type_invariant(self);
        }
        let text = chars_of(value_json);
        if crate::text::utf8_len_at_least(text.as_slice(), MAX_INSTANCE_BYTES + 1) {
            return Err(PluginError::InvalidConfiguration);
        }
        if schema_accepts(self.schema_json.as_str(), value_json) {
            Ok(())
        } else {
            Err(PluginError::InvalidConfiguration)
        }
    }

    /// The digest under which values are stored against this schema.
    pub fn digest(&self) -> (digest: String)
        ensures
            digest@ == self.digest_text(),
    {
        self.digest.clone()
    }
}

} // verus!

//! Bringing stored template specs and replayable responses up to the
//! schema that dropped per-template environment values: an empty legacy
//! environment is removed, and any value in it stops the upgrade, since it
//! may hold a secret that now belongs to the encrypted injections.
use vstd::prelude::*;

use super::StorageError;
use crate::json::{
    lemma_member_at, lemma_member_last, lemma_member_none, lemma_no_member, member, member_position,
    JsonValue,
};

verus! {

/// The spec members that no longer exist.
pub open spec fn legacy_spec_member(name: Seq<char>) -> bool {
    name == "environment"@ || name == "preserve_home_ownership"@ || name == "preserve_home_root"@
}

/// The members of a spec without the legacy ones, in order.
pub open spec fn without_legacy(entries: Seq<(String, JsonValue)>) -> Seq<(String, JsonValue)>
    decreases entries.len(),
{
    if entries.len() == 0 {
        entries
    } else {
        let rest = without_legacy(entries.drop_last());
        if legacy_spec_member(entries.last().0@) {
            rest
        } else {
            rest.push(entries.last())
        }
    }
}

/// An environment that is absent or an empty object.
pub open spec fn empty_environment(environment: Option<JsonValue>) -> bool {
    match environment {
        None => true,
        Some(JsonValue::Object(values)) => values@.len() == 0,
        _ => false,
    }
}

/// The members of a template spec that can be upgraded: the spec is
/// recognizable by its access mode, resources and pod requests, and its
/// environment is empty.
pub open spec fn cleansable_spec(entries: Seq<(String, JsonValue)>) -> bool {
    &&& member(entries, "access_mode"@) is Some
    &&& member(entries, "resources"@) is Some
    &&& member(entries, "pod_requests"@) is Some
    &&& empty_environment(member(entries, "environment"@))
}

/// `out` is the spec `value` with its legacy members removed.
pub open spec fn is_cleansed_spec(value: JsonValue, out: JsonValue) -> bool {
    &&& value matches JsonValue::Object(e)
    &&& out matches JsonValue::Object(o)
    &&& o@ == without_legacy(e@)
}

fn strip_legacy(entries: Vec<(String, JsonValue)>) -> (out: Vec<(String, JsonValue)>)
    ensures
        out@ == without_legacy(entries@),
{
    let ghost given = entries@;
    let mut rest = entries;
    let mut out: Vec<(String, JsonValue)> = Vec::new();
    let mut taken: usize = 0;
    let count = rest.len();
    assert(given.len() == count);
    while rest.len() > 0
        invariant
            taken <= given.len(),
            given.len() <= usize::MAX,
            taken + rest@.len() == given.len(),
            rest@ == given.skip(taken as int),
            out@ == without_legacy(given.take(taken as int)),
        decreases rest.len(),
    {
        let entry = rest.remove(0);
        proof {
            assert(entry == given[taken as int]);
            assert(given.take(taken + 1).drop_last() =~= given.take(taken as int));
            assert(given.skip(taken as int).remove(0) =~= given.skip(taken + 1));
        }
        let c = crate::text::chars_of(entry.0.as_str());
        let c = c.as_slice();
        let legacy = crate::text::chars_eq_str(c, "environment") || crate::text::chars_eq_str(
            c,
            "preserve_home_ownership",
        ) || crate::text::chars_eq_str(c, "preserve_home_root");
        if !legacy {
            out.push(entry);
        }
        taken = taken + 1;
    }
    proof {
        assert(given.take(given.len() as int) =~= given);
    }
    out
}

/// Removes the legacy members of a template spec, refusing a spec that is
/// not recognizable or whose environment holds values.
pub fn cleanse_spec(value: JsonValue) -> (result: Result<JsonValue, StorageError>)
    ensures
        (value matches JsonValue::Object(e) && cleansable_spec(e@)) ==> (result matches Ok(out)
            && is_cleansed_spec(value, out)),
        !(value matches JsonValue::Object(e) && cleansable_spec(e@)) ==> result == Err::<
            JsonValue,
            StorageError,
        >(StorageError::SchemaUpgradeDataInvalid),
{
    let entries = match value {
        JsonValue::Object(entries) => entries,
        _ => return Err(StorageError::SchemaUpgradeDataInvalid),
    };
    if member_position(&entries, "access_mode").is_none() || member_position(
        &entries,
        "resources",
    ).is_none() || member_position(&entries, "pod_requests").is_none() {
        return Err(StorageError::SchemaUpgradeDataInvalid);
    }
    let environment_empty = match member_position(&entries, "environment") {
        None => true,
        Some(i) => match &entries[i].1 {
            JsonValue::Object(values) => values.len() == 0,
            _ => false,
        },
    };
    if !environment_empty {
        return Err(StorageError::SchemaUpgradeDataInvalid);
    }
    Ok(JsonValue::Object(strip_legacy(entries)))
}

/// `b` has the names of `a`, and the values of `a` wherever the name is
/// `name`.
proof fn lemma_member_unchanged(
    a: Seq<(String, JsonValue)>,
    b: Seq<(String, JsonValue)>,
    name: Seq<char>,
)
    requires
        a.len() == b.len(),
        forall|j: int| 0 <= j < a.len() ==> (#[trigger] b[j]).0@ == a[j].0@,
        forall|j: int| 0 <= j < a.len() && a[j].0@ == name ==> (#[trigger] b[j]).1 == a[j].1,
    ensures
        member(b, name) == member(a, name),
    decreases a.len(),
{
    if a.len() > 0 {
        assert(b[0].0@ == a[0].0@);
        assert forall|j: int| 0 <= j < a.len() - 1 implies (#[trigger] b.drop_first()[j]).0@
            == a.drop_first()[j].0@ by {
            assert(b.drop_first()[j] == b[j + 1]);
        }
        assert forall|j: int| 0 <= j < a.len() - 1 && a.drop_first()[j].0@ == name implies (
        #[trigger] b.drop_first()[j]).1 == a.drop_first()[j].1 by {
            assert(b.drop_first()[j] == b[j + 1]);
        }
        lemma_member_unchanged(a.drop_first(), b.drop_first(), name);
    }
}

/// The members of a stored response that can be upgraded: an embedded
/// `workspace` spec must be upgradable, and so must the response itself
/// when it is a template (it has `yaml` and `enabled`).
pub open spec fn response_cleansable(entries: Seq<(String, JsonValue)>) -> bool {
    &&& (member(entries, "workspace"@) matches Some(w) ==> (w matches JsonValue::Object(we)
        && cleansable_spec(we@)))
    &&& (member(entries, "yaml"@) is Some && member(entries, "enabled"@) is Some) ==> cleansable_spec(
        entries,
    )
}

/// `out` holds the members of `entries`, with the value of the first
/// `workspace` member cleansed.
pub open spec fn workspace_cleansed(
    entries: Seq<(String, JsonValue)>,
    out: Seq<(String, JsonValue)>,
) -> bool {
    &&& out.len() == entries.len()
    &&& forall|j: int|
        0 <= j < entries.len() ==> (#[trigger] out[j]).0 == entries[j].0 && if member(
            entries.take(j),
            "workspace"@,
        ) is None && entries[j].0@ == "workspace"@ {
            is_cleansed_spec(entries[j].1, out[j].1)
        } else {
            out[j].1 == entries[j].1
        }
}

/// `out` is the upgraded response object with members `entries`.
pub open spec fn is_cleansed_response(
    entries: Seq<(String, JsonValue)>,
    out: Seq<(String, JsonValue)>,
) -> bool {
    exists|staged: Seq<(String, JsonValue)>|
        #[trigger] workspace_cleansed(entries, staged) && if member(entries, "yaml"@) is Some
            && member(entries, "enabled"@) is Some {
            out == without_legacy(staged)
        } else {
            out == staged
        }
}

/// Upgrades a stored replayable response: an embedded workspace spec, and
/// the response itself when it is a template, lose their legacy members;
/// other responses are kept as they are.
pub fn cleanse_response(value: JsonValue) -> (result: Result<JsonValue, StorageError>)
    ensures
        match value {
            JsonValue::Object(entries) => if response_cleansable(entries@) {
                result matches Ok(JsonValue::Object(out)) && is_cleansed_response(entries@, out@)
            } else {
                result == Err::<JsonValue, StorageError>(StorageError::SchemaUpgradeDataInvalid)
            },
            _ => result == Ok::<JsonValue, StorageError>(value),
        },
{
    let mut entries = match value {
        JsonValue::Object(entries) => entries,
        other => return Ok(other),
    };
    let ghost given = entries@;
    match member_position(&entries, "workspace") {
        Some(i) => {
            let (name, spec) = entries.remove(i);
            let ghost spec_value = spec;
            match cleanse_spec(spec) {
                Ok(cleaned) => {
                    entries.insert(i, (name, cleaned));
                    proof {
                        assert(entries@ =~= given.update(i as int, (name, cleaned)));
                        assert forall|j: int| 0 <= j < given.len() implies (#[trigger] entries@[j]).0
                            == given[j].0 && if member(given.take(j), "workspace"@) is None
                            && given[j].0@ == "workspace"@ {
                            is_cleansed_spec(given[j].1, entries@[j].1)
                        } else {
                            entries@[j].1 == given[j].1
                        } by {
                            if j < i {
                                assert(given[j].0@ != "workspace"@);
                            } else if j > i {
                                assert(crate::json::first_member_at(given.take(j), "workspace"@, i as int)) by {
                                    assert forall|k: int| 0 <= k < i implies (#[trigger] given.take(j)[k]).0@
                                        != "workspace"@ by {
                                        assert(given.take(j)[k] == given[k]);
                                    }
                                }
                                lemma_member_at(given.take(j), "workspace"@, i as int);
                            } else {
                                assert forall|k: int| 0 <= k < j implies (#[trigger] given.take(j)[k]).0@
                                    != "workspace"@ by {
                                    assert(given.take(j)[k] == given[k]);
                                }
                                lemma_no_member(given.take(j), "workspace"@);
                            }
                        }
                    }
                },
                Err(e) => {
                    return Err(e);
                },
            }
        },
        None => {
            proof {
                assert forall|j: int| 0 <= j < given.len() implies (#[trigger] entries@[j]).0
                    == given[j].0 && if member(given.take(j), "workspace"@) is None
                    && given[j].0@ == "workspace"@ {
                    is_cleansed_spec(given[j].1, entries@[j].1)
                } else {
                    entries@[j].1 == given[j].1
                } by {
                }
            }
        },
    }
    let ghost staged = entries@;
    assert(workspace_cleansed(given, staged));
    proof {
        assert(forall|j: int| 0 <= j < given.len() ==> (#[trigger] staged[j]).0@ == given[j].0@);
        assert forall|name: Seq<char>| name != "workspace"@ implies #[trigger] member(staged, name) == member(given, name) by {
            assert forall|j: int| 0 <= j < given.len() && given[j].0@ == name implies (
            #[trigger] staged[j]).1 == given[j].1 by {
            }
            lemma_member_unchanged(given, staged, name);
        }
        reveal_strlit("workspace");
        reveal_strlit("yaml");
        reveal_strlit("enabled");
        reveal_strlit("access_mode");
        reveal_strlit("resources");
        reveal_strlit("pod_requests");
        reveal_strlit("environment");
        assert("yaml"@ != "workspace"@) by {
            assert("yaml"@.len() != "workspace"@.len());
        }
        assert("enabled"@ != "workspace"@) by {
            assert("enabled"@.len() != "workspace"@.len());
        }
        assert("resources"@ != "workspace"@) by {
            assert("resources"@[0] != "workspace"@[0]);
        }
        assert(member(staged, "yaml"@) == member(given, "yaml"@));
        assert(member(staged, "enabled"@) == member(given, "enabled"@));
        assert(member(staged, "access_mode"@) == member(given, "access_mode"@));
        assert(member(staged, "resources"@) == member(given, "resources"@));
        assert(member(staged, "pod_requests"@) == member(given, "pod_requests"@));
        assert(member(staged, "environment"@) == member(given, "environment"@));
    }
    let template = member_position(&entries, "yaml").is_some() && member_position(
        &entries,
        "enabled",
    ).is_some();
    if template {
        cleanse_spec(JsonValue::Object(entries))
    } else {
        Ok(JsonValue::Object(entries))
    }
}

proof fn lemma_without_legacy_idempotent(entries: Seq<(String, JsonValue)>)
    ensures
        without_legacy(without_legacy(entries)) == without_legacy(entries),
    decreases entries.len(),
{
    if entries.len() > 0 {
        lemma_without_legacy_idempotent(entries.drop_last());
        let rest = without_legacy(entries.drop_last());
        if !legacy_spec_member(entries.last().0@) {
            assert(rest.push(entries.last()).drop_last() =~= rest);
        }
    }
}

proof fn lemma_without_legacy_member(entries: Seq<(String, JsonValue)>, name: Seq<char>)
    ensures
        legacy_spec_member(name) ==> member(without_legacy(entries), name) is None,
        !legacy_spec_member(name) ==> member(without_legacy(entries), name) == member(entries, name),
    decreases entries.len(),
{
    if entries.len() > 0 {
        lemma_without_legacy_member(entries.drop_last(), name);
        lemma_member_last(entries, name);
        let rest = without_legacy(entries.drop_last());
        if !legacy_spec_member(entries.last().0@) {
            assert(rest.push(entries.last()).drop_last() =~= rest);
            lemma_member_last(rest.push(entries.last()), name);
        }
    }
}

/// Upgrading a spec twice changes nothing the first upgrade did not: the
/// upgraded spec is accepted again and comes back unchanged, so an
/// interrupted migration can be run again.
pub proof fn lemma_cleanse_spec_idempotent(entries: Seq<(String, JsonValue)>)
    requires
        cleansable_spec(entries),
    ensures
        cleansable_spec(without_legacy(entries)),
        without_legacy(without_legacy(entries)) == without_legacy(entries),
{
    reveal_strlit("environment");
    reveal_strlit("preserve_home_ownership");
    reveal_strlit("preserve_home_root");
    reveal_strlit("access_mode");
    reveal_strlit("resources");
    reveal_strlit("pod_requests");
    assert("access_mode"@[0] != "environment"@[0]);
    assert(!legacy_spec_member("resources"@)) by {
        assert("resources"@.len() == 9);
    }
    assert(!legacy_spec_member("pod_requests"@)) by {
        assert("pod_requests"@.len() == 12);
    }
    lemma_without_legacy_member(entries, "access_mode"@);
    lemma_without_legacy_member(entries, "resources"@);
    lemma_without_legacy_member(entries, "pod_requests"@);
    lemma_without_legacy_member(entries, "environment"@);
    lemma_without_legacy_idempotent(entries);
}

/// A stored response that embeds no workspace and is not a template is
/// kept exactly as it is, whatever environment-like members it holds.
pub proof fn lemma_unrelated_response_unchanged(entries: Seq<(String, JsonValue)>)
    requires
        member(entries, "workspace"@) is None,
        !(member(entries, "yaml"@) is Some && member(entries, "enabled"@) is Some),
    ensures
        response_cleansable(entries),
        forall|out: Seq<(String, JsonValue)>| #[trigger] is_cleansed_response(entries, out) ==> out == entries,
{
    lemma_member_none(entries, "workspace"@);
    assert forall|out: Seq<(String, JsonValue)>| #[trigger] is_cleansed_response(entries, out) implies out == entries by {
        let staged = choose|staged: Seq<(String, JsonValue)>|
            #[trigger] workspace_cleansed(entries, staged) && if member(entries, "yaml"@) is Some
                && member(entries, "enabled"@) is Some {
                out == without_legacy(staged)
            } else {
                out == staged
            };
        assert forall|j: int| 0 <= j < entries.len() implies #[trigger] staged[j] == entries[j] by {
            assert(entries[j].0@ != "workspace"@);
        }
        assert(staged =~= entries);
    }
}

/// A template document whose spec can be upgraded: the document and its
/// `spec` are objects, and the spec's environment is empty.
pub open spec fn document_cleansable(entries: Seq<(String, JsonValue)>) -> bool {
    &&& member(entries, "spec"@) matches Some(spec)
    &&& spec matches JsonValue::Object(s)
    &&& empty_environment(member(s@, "environment"@))
}

/// `out` holds the members of the document `entries`, with the legacy
/// members removed from its first `spec` member.
pub open spec fn document_cleansed(
    entries: Seq<(String, JsonValue)>,
    out: Seq<(String, JsonValue)>,
) -> bool {
    &&& out.len() == entries.len()
    &&& forall|j: int|
        0 <= j < entries.len() ==> (#[trigger] out[j]).0 == entries[j].0 && if member(
            entries.take(j),
            "spec"@,
        ) is None && entries[j].0@ == "spec"@ {
            is_cleansed_spec(entries[j].1, out[j].1)
        } else {
            out[j].1 == entries[j].1
        }
}

/// Upgrades a stored template document (read from its YAML text): its
/// spec loses the legacy members; a document without an object spec, or
/// whose environment holds values, stops the upgrade.
pub fn cleanse_template_document(document: JsonValue) -> (result: Result<JsonValue, StorageError>)
    ensures
        match document {
            JsonValue::Object(entries) => if document_cleansable(entries@) {
                result matches Ok(JsonValue::Object(out)) && document_cleansed(entries@, out@)
            } else {
                result == Err::<JsonValue, StorageError>(StorageError::SchemaUpgradeDataInvalid)
            },
            _ => result == Err::<JsonValue, StorageError>(StorageError::SchemaUpgradeDataInvalid),
        },
{
    let mut entries = match document {
        JsonValue::Object(entries) => entries,
        _ => return Err(StorageError::SchemaUpgradeDataInvalid),
    };
    let ghost given = entries@;
    let i = match member_position(&entries, "spec") {
        Some(i) => i,
        None => return Err(StorageError::SchemaUpgradeDataInvalid),
    };
    let (name, spec) = entries.remove(i);
    let members = match spec {
        JsonValue::Object(members) => members,
        _ => return Err(StorageError::SchemaUpgradeDataInvalid),
    };
    let environment_empty = match member_position(&members, "environment") {
        None => true,
        Some(k) => match &members[k].1 {
            JsonValue::Object(values) => values.len() == 0,
            _ => false,
        },
    };
    if !environment_empty {
        return Err(StorageError::SchemaUpgradeDataInvalid);
    }
    let ghost spec_value = JsonValue::Object(members);
    let cleaned = JsonValue::Object(strip_legacy(members));
    entries.insert(i, (name, cleaned));
    proof {
        assert(entries@ =~= given.update(i as int, (name, cleaned)));
        assert(given[i as int].1 == spec_value);
        assert forall|j: int| 0 <= j < given.len() implies (#[trigger] entries@[j]).0
            == given[j].0 && if member(given.take(j), "spec"@) is None && given[j].0@
            == "spec"@ {
            is_cleansed_spec(given[j].1, entries@[j].1)
        } else {
            entries@[j].1 == given[j].1
        } by {
            if j < i {
                assert(given[j].0@ != "spec"@);
            } else if j > i {
                assert(crate::json::first_member_at(given.take(j), "spec"@, i as int)) by {
                    assert forall|k: int| 0 <= k < i implies (#[trigger] given.take(j)[k]).0@
                        != "spec"@ by {
                        assert(given.take(j)[k] == given[k]);
                    }
                }
                lemma_member_at(given.take(j), "spec"@, i as int);
            } else {
                assert forall|k: int| 0 <= k < j implies (#[trigger] given.take(j)[k]).0@
                    != "spec"@ by {
                    assert(given.take(j)[k] == given[k]);
                }
                lemma_no_member(given.take(j), "spec"@);
            }
        }
    }
    Ok(JsonValue::Object(entries))
}

/// A stored template document that the upgrade accepts.
pub open spec fn document_upgradable(document: JsonValue) -> bool {
    document matches JsonValue::Object(e) && document_cleansable(e@)
}

/// `out` is the upgraded form of the accepted document `document`.
pub open spec fn document_upgraded(document: JsonValue, out: JsonValue) -> bool {
    &&& document matches JsonValue::Object(e)
    &&& out matches JsonValue::Object(o)
    &&& document_cleansed(e@, o@)
}

/// A stored replayable response that the upgrade accepts.
pub open spec fn response_upgradable(response: JsonValue) -> bool {
    match response {
        JsonValue::Object(e) => response_cleansable(e@),
        _ => true,
    }
}

/// `out` is the upgraded form of the accepted response `response`.
pub open spec fn response_upgraded(response: JsonValue, out: JsonValue) -> bool {
    match response {
        JsonValue::Object(e) => out matches JsonValue::Object(o) && is_cleansed_response(e@, o@),
        _ => out == response,
    }
}

/// Every document is accepted, and each output is the upgrade of its input.
pub open spec fn documents_upgraded(given: Seq<JsonValue>, out: Seq<JsonValue>) -> bool {
    &&& out.len() == given.len()
    &&& forall|i: int| 0 <= i < given.len() ==> #[trigger] document_upgraded(given[i], out[i])
}

/// Every response is accepted, and each output is the upgrade of its input.
pub open spec fn responses_upgraded(given: Seq<JsonValue>, out: Seq<JsonValue>) -> bool {
    &&& out.len() == given.len()
    &&& forall|i: int| 0 <= i < given.len() ==> #[trigger] response_upgraded(given[i], out[i])
}

fn upgrade_documents(documents: Vec<JsonValue>) -> (result: Result<Vec<JsonValue>, StorageError>)
    ensures
        (forall|i: int| 0 <= i < documents@.len() ==> #[trigger] document_upgradable(documents@[i]))
            <==> result is Ok,
        result matches Ok(out) ==> documents_upgraded(documents@, out@),
        result is Err ==> result == Err::<Vec<JsonValue>, StorageError>(
            StorageError::SchemaUpgradeDataInvalid,
        ),
{
    let ghost given = documents@;
    let count = documents.len();
    let mut rest = documents;
    let mut out: Vec<JsonValue> = Vec::new();
    let mut done: usize = 0;
    while rest.len() > 0
        invariant
            given == documents@,
            given.len() == count,
            done + rest@.len() == given.len(),
            rest@ == given.skip(done as int),
            out@.len() == done,
            forall|i: int| 0 <= i < done ==> #[trigger] document_upgradable(given[i]),
            forall|i: int| 0 <= i < done ==> #[trigger] document_upgraded(given[i], out@[i]),
        decreases rest.len(),
    {
        let document = rest.remove(0);
        proof {
            assert(document == given[done as int]);
            assert(given.skip(done as int).remove(0) =~= given.skip(done + 1));
        }
        match cleanse_template_document(document) {
            Ok(cleansed) => {
                out.push(cleansed);
            },
            Err(e) => {
                assert(!document_upgradable(given[done as int]));
                return Err(e);
            },
        }
        done = done + 1;
    }
    Ok(out)
}

fn upgrade_responses(responses: Vec<JsonValue>) -> (result: Result<Vec<JsonValue>, StorageError>)
    ensures
        (forall|i: int| 0 <= i < responses@.len() ==> #[trigger] response_upgradable(responses@[i]))
            <==> result is Ok,
        result matches Ok(out) ==> responses_upgraded(responses@, out@),
        result is Err ==> result == Err::<Vec<JsonValue>, StorageError>(
            StorageError::SchemaUpgradeDataInvalid,
        ),
{
    let ghost given = responses@;
    let count = responses.len();
    let mut rest = responses;
    let mut out: Vec<JsonValue> = Vec::new();
    let mut done: usize = 0;
    while rest.len() > 0
        invariant
            given == responses@,
            given.len() == count,
            done + rest@.len() == given.len(),
            rest@ == given.skip(done as int),
            out@.len() == done,
            forall|i: int| 0 <= i < done ==> #[trigger] response_upgradable(given[i]),
            forall|i: int| 0 <= i < done ==> #[trigger] response_upgraded(given[i], out@[i]),
        decreases rest.len(),
    {
        let response = rest.remove(0);
        proof {
            assert(response == given[done as int]);
            assert(given.skip(done as int).remove(0) =~= given.skip(done + 1));
        }
        match cleanse_response(response) {
            Ok(cleansed) => {
                out.push(cleansed);
            },
            Err(e) => {
                assert(!response_upgradable(given[done as int]));
                return Err(e);
            },
        }
        done = done + 1;
    }
    Ok(out)
}

/// The bridge from a database at `BRIDGED_VERSION`: every template
/// document, every workspace's template snapshot and every replayable
/// response is upgraded, or, when any of them is refused, nothing is
/// (the run is rolled back with `SchemaUpgradeDataInvalid`).
pub fn upgrade_to_v20(
    templates: Vec<JsonValue>,
    snapshots: Vec<JsonValue>,
    responses: Vec<JsonValue>,
) -> (result: Result<(Vec<JsonValue>, Vec<JsonValue>, Vec<JsonValue>), StorageError>)
    ensures
        result is Ok <==> ((forall|i: int|
            0 <= i < templates@.len() ==> #[trigger] document_upgradable(templates@[i])) && (forall|
            i: int,
        | 0 <= i < snapshots@.len() ==> #[trigger] document_upgradable(snapshots@[i])) && (forall|
            i: int,
        | 0 <= i < responses@.len() ==> #[trigger] response_upgradable(responses@[i]))),
        result matches Ok((t, w, r)) ==> documents_upgraded(templates@, t@) && documents_upgraded(
            snapshots@,
            w@,
        ) && responses_upgraded(responses@, r@),
        result is Err ==> result == Err::<(Vec<JsonValue>, Vec<JsonValue>, Vec<JsonValue>), StorageError>(
            StorageError::SchemaUpgradeDataInvalid,
        ),
{
    let t = match upgrade_documents(templates) {
        Ok(t) => t,
        Err(e) => {
            return Err(e);
        },
    };
    let w = match upgrade_documents(snapshots) {
        Ok(w) => w,
        Err(e) => {
            return Err(e);
        },
    };
    let r = match upgrade_responses(responses) {
        Ok(r) => r,
        Err(e) => {
            return Err(e);
        },
    };
    Ok((t, w, r))
}

/// The generation a workspace receives with the upgrade; one beyond the
/// largest stored generation stops it.
pub fn next_generation(generation: i64) -> (next: Result<i64, StorageError>)
    ensures
        generation < i64::MAX ==> next == Ok::<i64, StorageError>((generation + 1) as i64),
        generation == i64::MAX ==> next == Err::<i64, StorageError>(
            StorageError::SchemaUpgradeDataInvalid,
        ),
{
    if generation == i64::MAX {
        Err(StorageError::SchemaUpgradeDataInvalid)
    } else {
        Ok(generation + 1)
    }
}

/// An upgraded workspace is reconciled again unless it is deleted or a
/// worker holds its lease (that worker sees the new generation).
pub fn reconcile_after_upgrade(state: &str, lease_active: bool) -> (reconcile: bool)
    ensures
        reconcile == (state@ != "deleted"@ && !lease_active),
{
    let c = crate::text::chars_of(state);
    !crate::text::chars_eq_str(c.as_slice(), "deleted") && !lease_active
}

} // verus!

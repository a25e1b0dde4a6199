//! Operational metrics read from the store.
use vstd::prelude::*;

use crate::quota::Resources;
use crate::text::{
    chars_eq_str, chars_of, lemma_text_lt_irreflexive, lemma_text_lt_total,
    lemma_text_lt_transitive, str_lt, text_lt,
};

verus! {

/// How many background jobs are in each state.
#[derive(Debug, Clone, Copy, PartialEq, Eq)]
pub struct JobCounts {
    pub pending: i64,
    pub running: i64,
    pub completed: i64,
    pub failed: i64,
    /// When the oldest pending job was created, if any is pending.
    pub oldest_pending_created_at: Option<i64>,
    /// The highest attempt count among jobs that can still run.
    pub max_active_attempts: i64,
}

/// An aggregate over no rows is absent; it counts as zero.
pub open spec fn or_zero(value: Option<i64>) -> i64 {
    match value {
        Some(v) => v,
        None => 0,
    }
}

/// The job counts from the aggregates the store returned; aggregates over
/// an empty job table are absent and count as zero.
pub fn job_counts_from(
    pending: Option<i64>,
    running: Option<i64>,
    completed: Option<i64>,
    failed: Option<i64>,
    oldest_pending_created_at: Option<i64>,
    max_active_attempts: Option<i64>,
) -> (counts: JobCounts)
    ensures
        counts.pending == or_zero(pending),
        counts.running == or_zero(running),
        counts.completed == or_zero(completed),
        counts.failed == or_zero(failed),
        counts.oldest_pending_created_at == oldest_pending_created_at,
        counts.max_active_attempts == or_zero(max_active_attempts),
{
    JobCounts {
        pending: match pending {
            Some(v) => v,
            None => 0,
        },
        running: match running {
            Some(v) => v,
            None => 0,
        },
        completed: match completed {
            Some(v) => v,
            None => 0,
        },
        failed: match failed {
            Some(v) => v,
            None => 0,
        },
        oldest_pending_created_at,
        max_active_attempts: match max_active_attempts {
            Some(v) => v,
            None => 0,
        },
    }
}

/// One row of the per-owner, per-state workspace aggregate: how many
/// workspaces the owner has in the state, and the resources they request.
#[derive(Debug, Clone, PartialEq, Eq)]
pub struct WorkspaceMetricRow {
    pub user_id: u128,
    pub state: String,
    pub workspace_count: i64,
    pub resources: Resources,
}

/// How many workspaces are in one state.
#[derive(Debug, Clone, PartialEq, Eq)]
pub struct StateCount {
    pub state: String,
    pub count: i64,
}

/// The workspaces of one owner: counts by state and summed resources.
#[derive(Debug, Clone, PartialEq, Eq)]
pub struct UserWorkspaceMetrics {
    pub user_id: u128,
    pub states: Vec<StateCount>,
    pub resources: Resources,
}

/// Workspace counts by state over the installation, and per owner.
#[derive(Debug, Clone, PartialEq, Eq)]
pub struct WorkspaceMetrics {
    pub states: Vec<StateCount>,
    pub users: Vec<UserWorkspaceMetrics>,
}

/// `row` counts towards `state`, for the given owner or for everyone.
pub open spec fn counted(row: WorkspaceMetricRow, user: Option<u128>, state: Seq<char>) -> bool {
    &&& row.state@ == state
    &&& user matches Some(u) ==> row.user_id == u
}

/// The workspaces counted in `state`, summed over `rows`.
pub open spec fn state_total(rows: Seq<WorkspaceMetricRow>, user: Option<u128>, state: Seq<char>) -> int
    decreases rows.len(),
{
    if rows.len() == 0 {
        0
    } else {
        state_total(rows.drop_last(), user, state) + if counted(rows.last(), user, state) {
            rows.last().workspace_count as int
        } else {
            0
        }
    }
}

/// Some row counts towards `state`.
pub open spec fn state_seen(rows: Seq<WorkspaceMetricRow>, user: Option<u128>, state: Seq<char>) -> bool {
    exists|k: int| 0 <= k < rows.len() && counted(#[trigger] rows[k], user, state)
}

/// `table` lists, in increasing order of state, each state that `rows`
/// count for the given owner (or everyone) once, with its total.
pub open spec fn is_state_table(
    table: Seq<StateCount>,
    rows: Seq<WorkspaceMetricRow>,
    user: Option<u128>,
) -> bool {
    &&& forall|i: int, j: int|
        0 <= i < j < table.len() ==> text_lt(#[trigger] table[i].state@, #[trigger] table[j].state@)
    &&& forall|i: int|
        0 <= i < table.len() ==> state_seen(rows, user, #[trigger] table[i].state@) && table[i].count
            == state_total(rows, user, table[i].state@)
    &&& forall|s: Seq<char>|
        #[trigger] state_seen(rows, user, s) ==> exists|i: int|
            0 <= i < table.len() && table[i].state@ == s
}

/// A resource of the rows of one owner, summed.
pub open spec fn resource_total(
    rows: Seq<WorkspaceMetricRow>,
    user: u128,
    field: spec_fn(Resources) -> nat,
) -> nat
    decreases rows.len(),
{
    if rows.len() == 0 {
        0
    } else {
        resource_total(rows.drop_last(), user, field) + if rows.last().user_id == user {
            field(rows.last().resources)
        } else {
            0
        }
    }
}

/// A sum that stops at the largest value the field holds.
pub open spec fn saturated(total: nat, max: nat) -> nat {
    if total > max {
        max
    } else {
        total
    }
}

pub open spec fn cpu_of(r: Resources) -> nat {
    r.cpu_millis as nat
}

pub open spec fn memory_of(r: Resources) -> nat {
    r.memory_mib as nat
}

pub open spec fn gpu_of(r: Resources) -> nat {
    r.gpu_count as nat
}

pub open spec fn disk_of(r: Resources) -> nat {
    r.disk_gib as nat
}

/// The resources of one owner's rows, each summed and saturated.
pub open spec fn user_resources(rows: Seq<WorkspaceMetricRow>, user: u128) -> Resources {
    Resources {
        cpu_millis: saturated(resource_total(rows, user, |r: Resources| cpu_of(r)), u64::MAX as nat) as u64,
        memory_mib: saturated(resource_total(rows, user, |r: Resources| memory_of(r)), u64::MAX as nat) as u64,
        gpu_count: saturated(resource_total(rows, user, |r: Resources| gpu_of(r)), u32::MAX as nat) as u32,
        disk_gib: saturated(resource_total(rows, user, |r: Resources| disk_of(r)), u64::MAX as nat) as u64,
    }
}

/// Some row belongs to `user`.
pub open spec fn user_seen(rows: Seq<WorkspaceMetricRow>, user: u128) -> bool {
    exists|k: int| 0 <= k < rows.len() && (#[trigger] rows[k]).user_id == user
}

/// `users` lists, in increasing order of id, each owner of `rows` once,
/// with the owner's state table and resources.
pub open spec fn is_user_list(users: Seq<UserWorkspaceMetrics>, rows: Seq<WorkspaceMetricRow>) -> bool {
    &&& forall|i: int, j: int|
        0 <= i < j < users.len() ==> (#[trigger] users[i]).user_id < (#[trigger] users[j]).user_id
    &&& forall|i: int|
        0 <= i < users.len() ==> user_seen(rows, (#[trigger] users[i]).user_id) && is_state_table(
            users[i].states@,
            rows,
            Some(users[i].user_id),
        ) && users[i].resources == user_resources(rows, users[i].user_id)
    &&& forall|u: u128|
        #[trigger] user_seen(rows, u) ==> exists|i: int| 0 <= i < users.len() && users[i].user_id == u
}

/// Every running total the aggregation forms fits a count.
pub open spec fn counts_fit(rows: Seq<WorkspaceMetricRow>) -> bool {
    forall|k: int, user: Option<u128>, s: Seq<char>|
        0 <= k <= rows.len() ==> i64::MIN <= #[trigger] state_total(rows.take(k), user, s)
            <= i64::MAX
}

/// Every running total over the first `k` rows fits a count.
pub open spec fn counts_fit_upto(rows: Seq<WorkspaceMetricRow>, k: int) -> bool {
    forall|j: int, user: Option<u128>, s: Seq<char>|
        0 <= j <= k ==> i64::MIN <= #[trigger] state_total(rows.take(j), user, s) <= i64::MAX
}

fn is_counted(row: &WorkspaceMetricRow, user: Option<u128>, state: &str) -> (yes: bool)
    ensures
        yes == counted(*row, user, state@),
{
    let chars = crate::text::chars_of(row.state.as_str());
    crate::text::chars_eq_str(chars.as_slice(), state) && match user {
        Some(u) => row.user_id == u,
        None => true,
    }
}

fn total_before(rows: &Vec<WorkspaceMetricRow>, k: usize, user: Option<u128>, state: &str) -> (total:
    i64)
    requires
        k <= rows@.len(),
        counts_fit_upto(rows@, k as int),
    ensures
        total == state_total(rows@.take(k as int), user, state@),
{
    let mut total: i64 = 0;
    let mut j: usize = 0;
    while j < k
        invariant
            k <= rows@.len(),
            counts_fit_upto(rows@, k as int),
            j <= k,
            total == state_total(rows@.take(j as int), user, state@),
        decreases k - j,
    {
        proof {
            lemma_push(rows@.take(j as int), rows@[j as int]);
            assert(rows@.take(j as int).push(rows@[j as int]) =~= rows@.take(j + 1));
            assert(i64::MIN <= state_total(rows@.take(j + 1), user, state@) <= i64::MAX);
        }
        if is_counted(&rows[j], user, state) {
            total = total + rows[j].workspace_count;
        }
        j = j + 1;
    }
    total
}

/// Whether every running total the aggregation forms fits a count, the
/// condition `aggregate_workspace_metrics` needs.
pub fn running_counts_fit(rows: &Vec<WorkspaceMetricRow>) -> (fit: bool)
    ensures
        fit == counts_fit(rows@),
{
    let mut k: usize = 0;
    proof {
        assert forall|j: int, user: Option<u128>, s: Seq<char>| 0 <= j <= 0 implies i64::MIN
            <= #[trigger] state_total(rows@.take(j), user, s) <= i64::MAX by {
            assert(rows@.take(j).len() == 0);
        }
    }
    while k < rows.len()
        invariant
            k <= rows@.len(),
            counts_fit_upto(rows@, k as int),
        decreases rows.len() - k,
    {
        let row = &rows[k];
        let ghost x = rows@[k as int];
        proof {
            lemma_push(rows@.take(k as int), x);
            assert(rows@.take(k as int).push(x) =~= rows@.take(k + 1));
        }
        let everyone = total_before(rows, k, None, row.state.as_str()) as i128 + row.workspace_count as i128;
        let owner = total_before(rows, k, Some(row.user_id), row.state.as_str()) as i128
            + row.workspace_count as i128;
        if everyone > i64::MAX as i128 || everyone < i64::MIN as i128 {
            assert(!(i64::MIN <= state_total(rows@.take(k + 1), None, x.state@) <= i64::MAX));
            return false;
        }
        if owner > i64::MAX as i128 || owner < i64::MIN as i128 {
            assert(!(i64::MIN <= state_total(rows@.take(k + 1), Some(x.user_id), x.state@)
                <= i64::MAX));
            return false;
        }
        proof {
            assert forall|j: int, user: Option<u128>, s: Seq<char>| 0 <= j <= k + 1 implies i64::MIN
                <= #[trigger] state_total(rows@.take(j), user, s) <= i64::MAX by {
                if j == k + 1 {
                    if counted(x, user, s) {
                        if user is None {
                        } else {
                            assert(user == Some(x.user_id));
                        }
                    } else {
                        assert(state_total(rows@.take(k as int), user, s) == state_total(rows@.take(k as int), user, s));
                    }
                }
            }
        }
        k = k + 1;
    }
    proof {
        assert(rows@.take(rows@.len() as int) =~= rows@);
    }
    true
}

proof fn lemma_push(rows: Seq<WorkspaceMetricRow>, x: WorkspaceMetricRow)
    ensures
        forall|user: Option<u128>, s: Seq<char>|
            #[trigger] state_total(rows.push(x), user, s) == state_total(rows, user, s) + if counted(
                x,
                user,
                s,
            ) {
                x.workspace_count as int
            } else {
                0
            },
        forall|user: Option<u128>, s: Seq<char>|
            #[trigger] state_seen(rows.push(x), user, s) == (state_seen(rows, user, s) || counted(
                x,
                user,
                s,
            )),
        forall|user: u128, field: spec_fn(Resources) -> nat|
            #[trigger] resource_total(rows.push(x), user, field) == resource_total(rows, user, field)
                + if x.user_id == user {
                field(x.resources)
            } else {
                0
            },
        forall|u: u128| #[trigger] user_seen(rows.push(x), u) == (user_seen(rows, u) || x.user_id == u),
{
    assert(rows.push(x).drop_last() =~= rows);
    assert forall|user: Option<u128>, s: Seq<char>|
        #[trigger] state_seen(rows.push(x), user, s) == (state_seen(rows, user, s) || counted(
            x,
            user,
            s,
        )) by {
        if state_seen(rows, user, s) {
            let k = choose|k: int| 0 <= k < rows.len() && counted(#[trigger] rows[k], user, s);
            assert(rows.push(x)[k] == rows[k]);
        }
        if counted(x, user, s) {
            assert(rows.push(x)[rows.len() as int] == x);
        }
        if state_seen(rows.push(x), user, s) {
            let k = choose|k: int| 0 <= k < rows.push(x).len() && counted(#[trigger] rows.push(x)[k], user, s);
            if k < rows.len() {
                assert(rows.push(x)[k] == rows[k]);
            }
        }
    }
    assert forall|u: u128| #[trigger] user_seen(rows.push(x), u) == (user_seen(rows, u) || x.user_id == u) by {
        if user_seen(rows, u) {
            let k = choose|k: int| 0 <= k < rows.len() && (#[trigger] rows[k]).user_id == u;
            assert(rows.push(x)[k] == rows[k]);
        }
        if x.user_id == u {
            assert(rows.push(x)[rows.len() as int] == x);
        }
        if user_seen(rows.push(x), u) {
            let k = choose|k: int| 0 <= k < rows.push(x).len() && (#[trigger] rows.push(x)[k]).user_id == u;
            if k < rows.len() {
                assert(rows.push(x)[k] == rows[k]);
            }
        }
    }
}

proof fn lemma_unseen_total(rows: Seq<WorkspaceMetricRow>, user: Option<u128>, s: Seq<char>)
    requires
        !state_seen(rows, user, s),
    ensures
        state_total(rows, user, s) == 0,
    decreases rows.len(),
{
    if rows.len() > 0 {
        assert(rows.drop_last().push(rows.last()) =~= rows);
        lemma_push(rows.drop_last(), rows.last());
        lemma_unseen_total(rows.drop_last(), user, s);
    }
}

proof fn lemma_unseen_resources(rows: Seq<WorkspaceMetricRow>, user: u128, field: spec_fn(Resources) -> nat)
    requires
        !user_seen(rows, user),
    ensures
        resource_total(rows, user, field) == 0,
    decreases rows.len(),
{
    if rows.len() > 0 {
        assert(rows.drop_last().push(rows.last()) =~= rows);
        lemma_push(rows.drop_last(), rows.last());
        lemma_unseen_resources(rows.drop_last(), user, field);
    }
}

/// A state table stays one after a row of another owner.
proof fn lemma_table_frame(
    table: Seq<StateCount>,
    rows: Seq<WorkspaceMetricRow>,
    x: WorkspaceMetricRow,
    user: u128,
)
    requires
        is_state_table(table, rows, Some(user)),
        x.user_id != user,
    ensures
        is_state_table(table, rows.push(x), Some(user)),
{
    lemma_push(rows, x);
}

/// Counts row `x` into the state table of `before`.
fn add_count(
    table: &mut Vec<StateCount>,
    x: &WorkspaceMetricRow,
    Ghost(before): Ghost<Seq<WorkspaceMetricRow>>,
    Ghost(user): Ghost<Option<u128>>,
)
    requires
        is_state_table(old(table)@, before, user),
        counted(*x, user, x.state@),
        i64::MIN <= state_total(before.push(*x), user, x.state@) <= i64::MAX,
    ensures
        is_state_table(final(table)@, before.push(*x), user),
{
    proof {
        lemma_push(before, *x);
    }
    let ghost after = before.push(*x);
    let mut p: usize = 0;
    while p < table.len() && str_lt(table[p].state.as_str(), x.state.as_str())
        invariant
            p <= table.len(),
            forall|i: int| 0 <= i < p ==> text_lt(#[trigger] table@[i].state@, x.state@),
        decreases table.len() - p,
    {
        p = p + 1;
    }
    let ghost old_table = table@;
    let c = chars_of(x.state.as_str());
    if p < table.len() && chars_eq_str(c.as_slice(), table[p].state.as_str()) {
        let total = table[p].count + x.workspace_count;
        let entry = StateCount { state: x.state.clone(), count: total };
        table.set(p, entry);
        proof {
            assert forall|i: int| 0 <= i < old_table.len() && i != p implies old_table[i].state@
                != x.state@ by {
                if i < p {
                    assert(text_lt(old_table[i].state@, old_table[p as int].state@));
                } else {
                    assert(text_lt(old_table[p as int].state@, old_table[i].state@));
                }
                lemma_text_lt_irreflexive(x.state@);
            }
            assert forall|s: Seq<char>| #[trigger] state_seen(after, user, s) implies exists|i: int|
                0 <= i < table@.len() && table@[i].state@ == s by {
                if s == x.state@ {
                    assert(table@[p as int].state@ == s);
                } else {
                    let i = choose|i: int| 0 <= i < old_table.len() && old_table[i].state@ == s;
                    assert(table@[i].state@ == s);
                }
            }
        }
    } else {
        proof {
            if p < old_table.len() {
                lemma_text_lt_total(old_table[p as int].state@, x.state@);
            }
            assert(!state_seen(before, user, x.state@)) by {
                if state_seen(before, user, x.state@) {
                    let i = choose|i: int| 0 <= i < old_table.len() && old_table[i].state@ == x.state@;
                    lemma_text_lt_irreflexive(x.state@);
                    if i > p {
                        assert(text_lt(old_table[p as int].state@, old_table[i].state@));
                        lemma_text_lt_transitive(x.state@, old_table[p as int].state@, x.state@);
                    }
                }
            }
            lemma_unseen_total(before, user, x.state@);
        }
        proof {
            assert forall|q: int| p <= q < old_table.len() implies text_lt(x.state@, #[trigger] old_table[q].state@) by {
                if q > p {
                    assert(text_lt(old_table[p as int].state@, old_table[q].state@));
                    lemma_text_lt_transitive(x.state@, old_table[p as int].state@, old_table[q].state@);
                }
            }
        }
        let entry = StateCount { state: x.state.clone(), count: x.workspace_count };
        table.insert(p, entry);
        proof {
            assert forall|i: int, j: int| 0 <= i < j < table@.len() implies text_lt(
                #[trigger] table@[i].state@,
                #[trigger] table@[j].state@,
            ) by {
                if j == p {
                } else if i == p {
                    assert(text_lt(x.state@, old_table[j - 1].state@));
                } else if i < p && j > p {
                    assert(text_lt(x.state@, old_table[j - 1].state@));
                    assert(text_lt(old_table[i].state@, x.state@));
                    lemma_text_lt_transitive(old_table[i].state@, x.state@, old_table[j - 1].state@);
                } else if i > p {
                    assert(text_lt(old_table[i - 1].state@, old_table[j - 1].state@));
                } else {
                    assert(text_lt(old_table[i].state@, old_table[j].state@));
                }
            }
            assert forall|i: int| 0 <= i < table@.len() implies state_seen(
                after,
                user,
                #[trigger] table@[i].state@,
            ) && table@[i].count == state_total(after, user, table@[i].state@) by {
                if i < p {
                    assert(table@[i] == old_table[i]);
                    assert(text_lt(old_table[i].state@, x.state@));
                    lemma_text_lt_irreflexive(x.state@);
                } else if i > p {
                    assert(table@[i] == old_table[i - 1]);
                    if old_table[i - 1].state@ == x.state@ {
                        assert(state_seen(before, user, x.state@));
                    }
                }
            }
            assert forall|s: Seq<char>| #[trigger] state_seen(after, user, s) implies exists|i: int|
                0 <= i < table@.len() && table@[i].state@ == s by {
                if s == x.state@ {
                    assert(table@[p as int].state@ == s);
                } else {
                    let i = choose|i: int| 0 <= i < old_table.len() && old_table[i].state@ == s;
                    if i < p {
                        assert(table@[i].state@ == s);
                    } else {
                        assert(table@[i + 1].state@ == s);
                    }
                }
            }
        }
    }
}

/// Counts row `x` into the owner list of `before`.
fn add_user_row(
    users: &mut Vec<UserWorkspaceMetrics>,
    x: &WorkspaceMetricRow,
    Ghost(before): Ghost<Seq<WorkspaceMetricRow>>,
)
    requires
        is_user_list(old(users)@, before),
        i64::MIN <= state_total(before.push(*x), Some(x.user_id), x.state@) <= i64::MAX,
    ensures
        is_user_list(final(users)@, before.push(*x)),
{
    proof {
        lemma_push(before, *x);
    }
    let ghost after = before.push(*x);
    let mut p: usize = 0;
    while p < users.len() && users[p].user_id < x.user_id
        invariant
            p <= users.len(),
            forall|i: int| 0 <= i < p ==> (#[trigger] users@[i]).user_id < x.user_id,
        decreases users.len() - p,
    {
        p = p + 1;
    }
    let ghost old_users = users@;
    proof {
        assert forall|i: int| 0 <= i < old_users.len() && old_users[i].user_id != x.user_id implies
            is_state_table(#[trigger] old_users[i].states@, after, Some(old_users[i].user_id))
            && old_users[i].resources == user_resources(after, old_users[i].user_id) by {
            lemma_table_frame(old_users[i].states@, before, *x, old_users[i].user_id);
        }
    }
    if p < users.len() && users[p].user_id == x.user_id {
        let mut entry = users.remove(p);
        let ghost old_entry = entry;
        assert(entry == old_users[p as int]);
        add_count(&mut entry.states, x, Ghost(before), Ghost(Some(x.user_id)));
        entry.resources = Resources {
            cpu_millis: entry.resources.cpu_millis.saturating_add(x.resources.cpu_millis),
            memory_mib: entry.resources.memory_mib.saturating_add(x.resources.memory_mib),
            gpu_count: entry.resources.gpu_count.saturating_add(x.resources.gpu_count),
            disk_gib: entry.resources.disk_gib.saturating_add(x.resources.disk_gib),
        };
        users.insert(p, entry);
        proof {
            assert(users@ =~= old_users.update(p as int, entry));
            assert(entry.resources == user_resources(after, x.user_id));
            assert forall|u: u128| #[trigger] user_seen(after, u) implies exists|i: int|
                0 <= i < users@.len() && users@[i].user_id == u by {
                if u == x.user_id {
                    assert(users@[p as int].user_id == u);
                } else {
                    let i = choose|i: int| 0 <= i < old_users.len() && old_users[i].user_id == u;
                    assert(users@[i].user_id == u);
                }
            }
        }
    } else {
        proof {
            assert(!user_seen(before, x.user_id)) by {
                if user_seen(before, x.user_id) {
                    let i = choose|i: int| 0 <= i < old_users.len() && old_users[i].user_id == x.user_id;
                    if i > p {
                        assert(old_users[p as int].user_id < old_users[i].user_id);
                    }
                }
            }
            lemma_unseen_resources(before, x.user_id, |r: Resources| cpu_of(r));
            lemma_unseen_resources(before, x.user_id, |r: Resources| memory_of(r));
            lemma_unseen_resources(before, x.user_id, |r: Resources| gpu_of(r));
            lemma_unseen_resources(before, x.user_id, |r: Resources| disk_of(r));
            assert(!state_seen(before, Some(x.user_id), x.state@)) by {
                if state_seen(before, Some(x.user_id), x.state@) {
                    let k = choose|k: int| 0 <= k < before.len() && counted(#[trigger] before[k], Some(x.user_id), x.state@);
                    assert(before[k].user_id == x.user_id);
                }
            }
            lemma_unseen_total(before, Some(x.user_id), x.state@);
        }
        let mut states: Vec<StateCount> = Vec::new();
        states.push(StateCount { state: x.state.clone(), count: x.workspace_count });
        let entry = UserWorkspaceMetrics { user_id: x.user_id, states, resources: x.resources };
        proof {
            assert forall|s: Seq<char>| #[trigger] state_seen(after, Some(x.user_id), s) implies exists|i: int|
                0 <= i < entry.states@.len() && entry.states@[i].state@ == s by {
                if s != x.state@ {
                    let k = choose|k: int| 0 <= k < before.len() && counted(#[trigger] before[k], Some(x.user_id), s);
                    assert(before[k].user_id == x.user_id);
                    assert(user_seen(before, x.user_id));
                }
                assert(entry.states@[0].state@ == s);
            }
            assert(is_state_table(entry.states@, after, Some(x.user_id)));
            assert(entry.resources == user_resources(after, x.user_id));
        }
        users.insert(p, entry);
        proof {
            assert forall|i: int, j: int| 0 <= i < j < users@.len() implies (#[trigger] users@[i]).user_id
                < (#[trigger] users@[j]).user_id by {
                if i < p && j > p {
                    assert(old_users[i].user_id < x.user_id);
                } else if i == p && j > p {
                    assert(old_users[p as int].user_id <= old_users[j - 1].user_id);
                } else if i > p {
                    assert(old_users[i - 1].user_id < old_users[j - 1].user_id);
                } else if j == p {
                    assert(old_users[i].user_id < x.user_id);
                }
            }
            assert forall|i: int| 0 <= i < users@.len() implies user_seen(after, (#[trigger] users@[i]).user_id)
                && is_state_table(users@[i].states@, after, Some(users@[i].user_id))
                && users@[i].resources == user_resources(after, users@[i].user_id) by {
                if i < p {
                    assert(users@[i] == old_users[i]);
                } else if i > p {
                    assert(users@[i] == old_users[i - 1]);
                    if old_users[i - 1].user_id == x.user_id {
                        assert(user_seen(before, x.user_id));
                    }
                }
            }
            assert forall|u: u128| #[trigger] user_seen(after, u) implies exists|i: int|
                0 <= i < users@.len() && users@[i].user_id == u by {
                if u == x.user_id {
                    assert(users@[p as int].user_id == u);
                } else {
                    let i = choose|i: int| 0 <= i < old_users.len() && old_users[i].user_id == u;
                    if i < p {
                        assert(users@[i].user_id == u);
                    } else {
                        assert(users@[i + 1].user_id == u);
                    }
                }
            }
        }
    }
}

/// Aggregates the per-owner, per-state rows into counts by state (in
/// order of state) and, per owner (in order of id), counts by state and
/// the resources requested, each summed up to the field's largest value.
pub fn aggregate_workspace_metrics(rows: Vec<WorkspaceMetricRow>) -> (metrics: WorkspaceMetrics)
    requires
        counts_fit(rows@),
    ensures
        is_state_table(metrics.states@, rows@, None),
        is_user_list(metrics.users@, rows@),
{
    let mut states: Vec<StateCount> = Vec::new();
    let mut users: Vec<UserWorkspaceMetrics> = Vec::new();
    let mut k: usize = 0;
    while k < rows.len()
        invariant
            k <= rows@.len(),
            counts_fit(rows@),
            is_state_table(states@, rows@.take(k as int), None),
            is_user_list(users@, rows@.take(k as int)),
        decreases rows.len() - k,
    {
        let ghost prefix = rows@.take(k as int);
        proof {
            assert(rows@.take(k + 1) =~= prefix.push(rows@[k as int]));
            assert(i64::MIN <= state_total(rows@.take(k + 1), None, rows@[k as int].state@) <= i64::MAX);
            assert(i64::MIN <= state_total(rows@.take(k + 1), Some(rows@[k as int].user_id), rows@[k as int].state@)
                <= i64::MAX);
        }
        add_count(&mut states, &rows[k], Ghost(prefix), Ghost(None));
        add_user_row(&mut users, &rows[k], Ghost(prefix));
        k = k + 1;
    }
    proof {
        assert(rows@.take(rows@.len() as int) =~= rows@);
    }
    WorkspaceMetrics { states, users }
}

} // verus!

//! The analytics of a team report: the time of each task, of each day and of
//! each member, and the charts drawn from them.

use vstd::prelude::*;

use crate::analytics::{lemma_task_seconds_nonnegative, task_seconds, DailyHours, TaskHours, Worklog};
use crate::text::{lemma_seq_less_irreflexive, lemma_seq_less_total, lemma_seq_less_transitive, seq_less, str_equal, str_less};

verus! {

/// The seconds of all worklogs.
pub open spec fn worklogs_seconds(worklogs: Seq<Worklog>) -> int
    decreases worklogs.len(),
{
    if worklogs.len() == 0 {
        0
    } else {
        worklogs_seconds(worklogs.drop_last()) + worklogs.last().duration_seconds
    }
}

/// The seconds of the worklogs on the issue.
pub open spec fn key_seconds(worklogs: Seq<Worklog>, key: Seq<char>) -> int
    decreases worklogs.len(),
{
    if worklogs.len() == 0 {
        0
    } else {
        key_seconds(worklogs.drop_last(), key) + if worklogs.last().issue_key@ == key {
            worklogs.last().duration_seconds as int
        } else {
            0
        }
    }
}

/// The number of worklogs on the issue.
pub open spec fn key_count(worklogs: Seq<Worklog>, key: Seq<char>) -> int
    decreases worklogs.len(),
{
    if worklogs.len() == 0 {
        0
    } else {
        key_count(worklogs.drop_last(), key) + if worklogs.last().issue_key@ == key {
            1int
        } else {
            0
        }
    }
}

/// The position of the first worklog on the issue, or -1 when there is none.
pub open spec fn first_key_index(worklogs: Seq<Worklog>, key: Seq<char>) -> int
    decreases worklogs.len(),
{
    if worklogs.len() == 0 {
        -1
    } else {
        let earlier = first_key_index(worklogs.drop_last(), key);
        if earlier >= 0 {
            earlier
        } else if worklogs.last().issue_key@ == key {
            worklogs.len() - 1
        } else {
            -1
        }
    }
}

/// The task of an issue: its key, summary and link from its first worklog,
/// and the seconds and number of all its worklogs.
pub open spec fn task_of(worklogs: Seq<Worklog>, key: Seq<char>) -> TaskHours {
    let first = worklogs[first_key_index(worklogs, key)];
    TaskHours {
        issue_key: first.issue_key,
        summary: first.issue_summary,
        issue_url: first.issue_url,
        duration_seconds: key_seconds(worklogs, key) as u32,
        entries: key_count(worklogs, key) as usize,
    }
}

/// `x` comes before `y` in a task list: more seconds first, then by issue key.
pub open spec fn task_before(x: TaskHours, y: TaskHours) -> bool {
    x.duration_seconds > y.duration_seconds || (x.duration_seconds == y.duration_seconds && seq_less(
        x.issue_key@,
        y.issue_key@,
    ))
}

/// Some task is on the issue.
pub open spec fn task_listed(tasks: Seq<TaskHours>, key: Seq<char>) -> bool {
    exists|k: int| 0 <= k < tasks.len() && tasks[k].issue_key@ == key
}

/// The team's tasks: one per issue of the worklogs, in order.
pub open spec fn is_task_summary(worklogs: Seq<Worklog>, tasks: Seq<TaskHours>) -> bool {
    &&& forall|k: int|
        0 <= k < tasks.len() ==> first_key_index(worklogs, (#[trigger] tasks[k]).issue_key@) >= 0
            && tasks[k] == task_of(worklogs, tasks[k].issue_key@)
    &&& forall|i: int| 0 <= i < worklogs.len() ==> task_listed(tasks, (#[trigger] worklogs[i]).issue_key@)
    &&& forall|a: int, b: int| 0 <= a < b < tasks.len() ==> task_before(#[trigger] tasks[a], #[trigger] tasks[b])
}

proof fn lemma_key_seconds_bounded(worklogs: Seq<Worklog>, key: Seq<char>)
    ensures
        0 <= key_seconds(worklogs, key) <= worklogs_seconds(worklogs),
        0 <= key_count(worklogs, key) <= worklogs.len(),
    decreases worklogs.len(),
{
    if worklogs.len() > 0 {
        lemma_key_seconds_bounded(worklogs.drop_last(), key);
    }
}

proof fn lemma_worklogs_seconds_prefix(worklogs: Seq<Worklog>, n: int)
    requires
        0 <= n <= worklogs.len(),
    ensures
        worklogs_seconds(worklogs.take(n)) <= worklogs_seconds(worklogs),
    decreases worklogs.len(),
{
    if n < worklogs.len() {
        lemma_worklogs_seconds_prefix(worklogs.drop_last(), n);
        assert(worklogs.drop_last().take(n) =~= worklogs.take(n));
    } else {
        assert(worklogs.take(n) =~= worklogs);
    }
}

proof fn lemma_first_key_index(worklogs: Seq<Worklog>, key: Seq<char>)
    ensures
        -1 <= first_key_index(worklogs, key) < worklogs.len(),
        first_key_index(worklogs, key) >= 0 ==> worklogs[first_key_index(worklogs, key)].issue_key@ == key,
        first_key_index(worklogs, key) == -1 <==> forall|i: int|
            0 <= i < worklogs.len() ==> (#[trigger] worklogs[i]).issue_key@ != key,
        first_key_index(worklogs, key) == -1 ==> key_seconds(worklogs, key) == 0 && key_count(
            worklogs,
            key,
        ) == 0,
    decreases worklogs.len(),
{
    if worklogs.len() > 0 {
        let rest = worklogs.drop_last();
        lemma_first_key_index(rest, key);
        assert forall|i: int| 0 <= i < rest.len() implies rest[i] == worklogs[i] by {}
        if first_key_index(worklogs, key) == -1 {
            assert forall|i: int| 0 <= i < worklogs.len() implies (#[trigger] worklogs[i]).issue_key@
                != key by {
                if i < rest.len() {
                    assert(rest[i] == worklogs[i]);
                }
            }
        } else if first_key_index(rest, key) == -1 {
            assert(worklogs[worklogs.len() - 1] == worklogs.last());
        }
    }
}

proof fn lemma_push_facts(worklogs: Seq<Worklog>, entry: Worklog, key: Seq<char>)
    ensures
        key_seconds(worklogs.push(entry), key) == key_seconds(worklogs, key) + if entry.issue_key@
            == key {
            entry.duration_seconds as int
        } else {
            0
        },
        key_count(worklogs.push(entry), key) == key_count(worklogs, key) + if entry.issue_key@ == key {
            1int
        } else {
            0
        },
        first_key_index(worklogs, key) >= 0 ==> first_key_index(worklogs.push(entry), key)
            == first_key_index(worklogs, key),
        first_key_index(worklogs, key) < 0 && entry.issue_key@ == key ==> first_key_index(
            worklogs.push(entry),
            key,
        ) == worklogs.len(),
{
    assert(worklogs.push(entry).drop_last() =~= worklogs);
}

/// A worklog's issue is grouped.
pub open spec fn key_grouped(worklogs: Seq<Worklog>, firsts: Seq<usize>, e: int) -> bool {
    exists|k: int| 0 <= k < firsts.len() && worklogs[firsts[k] as int].issue_key@ == worklogs[e].issue_key@
}

/// Groups the worklogs by issue, in the order issues first appear: each
/// group's first worklog, seconds and number of worklogs.
fn group_tasks(worklogs: &Vec<Worklog>) -> (r: (Vec<usize>, Vec<u32>, Vec<usize>))
    requires
        worklogs_seconds(worklogs@) <= u32::MAX,
    ensures
        r.0.len() == r.1.len() && r.1.len() == r.2.len(),
        forall|k: int|
            0 <= k < r.0.len() ==> {
                let key = worklogs@[(#[trigger] r.0@[k]) as int].issue_key@;
                &&& r.0@[k] < worklogs.len()
                &&& first_key_index(worklogs@, key) == r.0@[k]
                &&& r.1@[k] == key_seconds(worklogs@, key)
                &&& r.2@[k] == key_count(worklogs@, key)
            },
        forall|a: int, b: int|
            0 <= a < r.0.len() && 0 <= b < r.0.len() && a != b ==> worklogs@[(#[trigger] r.0@[a]) as int].issue_key@
                != worklogs@[(#[trigger] r.0@[b]) as int].issue_key@,
        forall|e: int| 0 <= e < worklogs.len() ==> #[trigger] key_grouped(worklogs@, r.0@, e),
{
    let ghost ws = worklogs@;
    let mut firsts: Vec<usize> = Vec::new();
    let mut seconds: Vec<u32> = Vec::new();
    let mut counts: Vec<usize> = Vec::new();
    let mut i: usize = 0;
    while i < worklogs.len()
        invariant
            ws == worklogs@,
            i <= worklogs.len(),
            worklogs_seconds(ws) <= u32::MAX,
            firsts.len() == seconds.len(),
            seconds.len() == counts.len(),
            forall|k: int|
                0 <= k < firsts.len() ==> {
                    let key = ws[(#[trigger] firsts@[k]) as int].issue_key@;
                    &&& firsts@[k] < i
                    &&& first_key_index(ws.take(i as int), key) == firsts@[k]
                    &&& seconds@[k] == key_seconds(ws.take(i as int), key)
                    &&& counts@[k] == key_count(ws.take(i as int), key)
                },
            forall|a: int, b: int|
                0 <= a < firsts.len() && 0 <= b < firsts.len() && a != b ==> ws[(#[trigger] firsts@[a]) as int].issue_key@
                    != ws[(#[trigger] firsts@[b]) as int].issue_key@,
            forall|e: int| 0 <= e < i ==> #[trigger] key_grouped(ws, firsts@, e),
        decreases worklogs.len() - i,
    {
        let ghost before = ws.take(i as int);
        let entry = &worklogs[i];
        assert(ws.take(i + 1) =~= before.push(*entry));
        let ghost after = before.push(*entry);
        proof {
            lemma_worklogs_seconds_prefix(ws, i + 1);
        }
        let mut p: usize = 0;
        while p < firsts.len()
            invariant_except_break
                ws == worklogs@,
                forall|k: int| 0 <= k < firsts.len() ==> #[trigger] firsts@[k] < i,
                i < worklogs.len(),
                p <= firsts.len(),
                forall|k: int| 0 <= k < p ==> ws[(#[trigger] firsts@[k]) as int].issue_key@ != entry.issue_key@,
            ensures
                ws == worklogs@,
                p <= firsts.len(),
                p < firsts.len() ==> ws[firsts@[p as int] as int].issue_key@ == entry.issue_key@,
                forall|k: int| 0 <= k < p ==> ws[(#[trigger] firsts@[k]) as int].issue_key@ != entry.issue_key@,
            decreases firsts.len() - p,
        {
            if str_equal(worklogs[firsts[p]].issue_key.as_str(), entry.issue_key.as_str()) {
                break;
            }
            p = p + 1;
        }
        if p < firsts.len() {
            let ghost key = entry.issue_key@;
            proof {
                lemma_push_facts(before, *entry, key);
                lemma_key_seconds_bounded(after, key);
            }
            let total = seconds[p] + entry.duration_seconds;
            seconds.set(p, total);
            let count = counts[p] + 1;
            counts.set(p, count);
            assert forall|k: int| 0 <= k < firsts.len() implies {
                let key = ws[(#[trigger] firsts@[k]) as int].issue_key@;
                &&& firsts@[k] < i + 1
                &&& first_key_index(after, key) == firsts@[k]
                &&& seconds@[k] == key_seconds(after, key)
                &&& counts@[k] == key_count(after, key)
            } by {
                lemma_push_facts(before, *entry, ws[firsts@[k] as int].issue_key@);
            }
            assert forall|e: int| 0 <= e < i + 1 implies #[trigger] key_grouped(ws, firsts@, e) by {
                if e == i {
                    assert(ws[firsts@[p as int] as int].issue_key@ == ws[e].issue_key@);
                }
            }
        } else {
            let ghost key = entry.issue_key@;
            proof {
                assert forall|e: int| 0 <= e < before.len() implies (#[trigger] before[e]).issue_key@ != key by {
                    assert(before[e] == ws[e]);
                    assert(key_grouped(ws, firsts@, e));
                }
                lemma_first_key_index(before, key);
                lemma_push_facts(before, *entry, key);
                lemma_key_seconds_bounded(after, key);
            }
            let ghost old_firsts = firsts@;
            firsts.push(i);
            seconds.push(entry.duration_seconds);
            counts.push(1);
            assert forall|k: int| 0 <= k < firsts.len() implies {
                let key = ws[(#[trigger] firsts@[k]) as int].issue_key@;
                &&& firsts@[k] < i + 1
                &&& first_key_index(after, key) == firsts@[k]
                &&& seconds@[k] == key_seconds(after, key)
                &&& counts@[k] == key_count(after, key)
            } by {
                if k < old_firsts.len() {
                    assert(firsts@[k] == old_firsts[k]);
                }
                lemma_push_facts(before, *entry, ws[firsts@[k] as int].issue_key@);
            }
            assert forall|e: int| 0 <= e < i + 1 implies #[trigger] key_grouped(ws, firsts@, e) by {
                if e == i {
                    assert(firsts@[old_firsts.len() as int] == i);
                } else {
                    assert(key_grouped(ws, old_firsts, e));
                    let k = choose|k: int| 0 <= k < old_firsts.len() && ws[old_firsts[k] as int].issue_key@ == ws[e].issue_key@;
                    assert(firsts@[k] == old_firsts[k]);
                }
            }
        }
        i = i + 1;
    }
    assert(ws.take(worklogs.len() as int) =~= ws);
    (firsts, seconds, counts)
}

fn tasks_from_groups(
    worklogs: &Vec<Worklog>,
    firsts: &Vec<usize>,
    seconds: &Vec<u32>,
    counts: &Vec<usize>,
) -> (tasks: Vec<TaskHours>)
    requires
        firsts.len() == seconds.len(),
        seconds.len() == counts.len(),
        forall|k: int|
            0 <= k < firsts.len() ==> {
                let key = worklogs@[(#[trigger] firsts@[k]) as int].issue_key@;
                &&& firsts@[k] < worklogs.len()
                &&& first_key_index(worklogs@, key) == firsts@[k]
                &&& seconds@[k] == key_seconds(worklogs@, key)
                &&& counts@[k] == key_count(worklogs@, key)
            },
    ensures
        tasks.len() == firsts.len(),
        forall|k: int|
            0 <= k < tasks.len() ==> (#[trigger] tasks@[k]).issue_key@ == worklogs@[firsts@[k] as int].issue_key@
                && tasks@[k] == task_of(worklogs@, tasks@[k].issue_key@) && first_key_index(
                worklogs@,
                tasks@[k].issue_key@,
            ) >= 0,
{
    let mut tasks: Vec<TaskHours> = Vec::new();
    let mut k: usize = 0;
    while k < firsts.len()
        invariant
            k <= firsts.len(),
            firsts.len() == seconds.len(),
            seconds.len() == counts.len(),
            tasks.len() == k,
            forall|j: int|
                0 <= j < firsts.len() ==> {
                    let key = worklogs@[(#[trigger] firsts@[j]) as int].issue_key@;
                    &&& firsts@[j] < worklogs.len()
                    &&& first_key_index(worklogs@, key) == firsts@[j]
                    &&& seconds@[j] == key_seconds(worklogs@, key)
                    &&& counts@[j] == key_count(worklogs@, key)
                },
            forall|j: int|
                0 <= j < k ==> (#[trigger] tasks@[j]).issue_key@ == worklogs@[firsts@[j] as int].issue_key@
                    && tasks@[j] == task_of(worklogs@, tasks@[j].issue_key@) && first_key_index(
                    worklogs@,
                    tasks@[j].issue_key@,
                ) >= 0,
        decreases firsts.len() - k,
    {
        let first = &worklogs[firsts[k]];
        tasks.push(
            TaskHours {
                issue_key: first.issue_key.clone(),
                summary: first.issue_summary.clone(),
                issue_url: first.issue_url.clone(),
                duration_seconds: seconds[k],
                entries: counts[k],
            },
        );
        k = k + 1;
    }
    tasks
}

proof fn lemma_task_before_transitive(x: TaskHours, y: TaskHours, z: TaskHours)
    requires
        task_before(x, y),
        task_before(y, z),
    ensures
        task_before(x, z),
{
    if x.duration_seconds == y.duration_seconds && y.duration_seconds == z.duration_seconds {
        lemma_seq_less_transitive(x.issue_key@, y.issue_key@, z.issue_key@);
    }
}

proof fn lemma_task_before_total(x: TaskHours, y: TaskHours)
    requires
        x.issue_key@ != y.issue_key@,
    ensures
        task_before(x, y) || task_before(y, x),
{
    lemma_seq_less_total(x.issue_key@, y.issue_key@);
}

fn task_precedes(x: &TaskHours, y: &TaskHours) -> (r: bool)
    ensures
        r == task_before(*x, *y),
{
    x.duration_seconds > y.duration_seconds || (x.duration_seconds == y.duration_seconds && str_less(
        x.issue_key.as_str(),
        y.issue_key.as_str(),
    ))
}

/// The task `x` is among `orig[from..]`.
pub open spec fn task_placed(orig: Seq<TaskHours>, from: int, x: TaskHours) -> bool {
    exists|m: int| from <= m < orig.len() && orig[m] == x
}

/// Sorts tasks with distinct issues: more seconds first, then by issue key.
fn sort_tasks(tasks: Vec<TaskHours>) -> (sorted: Vec<TaskHours>)
    requires
        forall|a: int, b: int|
            0 <= a < tasks.len() && 0 <= b < tasks.len() && a != b ==> (#[trigger] tasks@[a]).issue_key@
                != (#[trigger] tasks@[b]).issue_key@,
    ensures
        sorted.len() == tasks.len(),
        forall|a: int, b: int| 0 <= a < b < sorted.len() ==> task_before(#[trigger] sorted@[a], #[trigger] sorted@[b]),
        forall|k: int| 0 <= k < sorted.len() ==> #[trigger] task_placed(tasks@, 0, sorted@[k]),
        forall|m: int| 0 <= m < tasks.len() ==> sorted@.contains(#[trigger] tasks@[m]),
{
    let ghost orig = tasks@;
    let mut rest = tasks;
    let mut sorted: Vec<TaskHours> = Vec::new();
    while rest.len() > 0
        invariant
            forall|a: int, b: int|
                0 <= a < orig.len() && 0 <= b < orig.len() && a != b ==> (#[trigger] orig[a]).issue_key@
                    != (#[trigger] orig[b]).issue_key@,
            rest@ == orig.take(rest.len() as int),
            rest.len() <= orig.len(),
            sorted.len() + rest.len() == orig.len(),
            forall|a: int, b: int| 0 <= a < b < sorted.len() ==> task_before(#[trigger] sorted@[a], #[trigger] sorted@[b]),
            forall|k: int| 0 <= k < sorted.len() ==> #[trigger] task_placed(orig, rest.len() as int, sorted@[k]),
            forall|m: int| rest.len() <= m < orig.len() ==> sorted@.contains(#[trigger] orig[m]),
        decreases rest.len(),
    {
        let ghost n = (rest.len() - 1) as int;
        let ghost old_sorted = sorted@;
        let x = rest.pop().unwrap();
        assert(x == orig[n]);
        assert(rest@ =~= orig.take(n));
        assert forall|k: int| 0 <= k < old_sorted.len() implies (#[trigger] old_sorted[k]).issue_key@ != x.issue_key@ by {
            assert(task_placed(orig, n + 1, old_sorted[k]));
            let m = choose|m: int| n + 1 <= m < orig.len() && orig[m] == old_sorted[k];
            assert(orig[m].issue_key@ != orig[n].issue_key@);
        }
        let mut p: usize = 0;
        while p < sorted.len()
            invariant_except_break
                p <= sorted.len(),
                forall|k: int| 0 <= k < p ==> !task_before(x, #[trigger] sorted@[k]),
            ensures
                p <= sorted.len(),
                forall|k: int| 0 <= k < p ==> !task_before(x, #[trigger] sorted@[k]),
                p < sorted.len() ==> task_before(x, sorted@[p as int]),
            decreases sorted.len() - p,
        {
            if task_precedes(&x, &sorted[p]) {
                break;
            }
            p = p + 1;
        }
        sorted.insert(p, x);
        proof {
            old_sorted.insert_ensures(p as int, x);
            assert forall|a: int, b: int| 0 <= a < b < sorted.len() implies task_before(
                #[trigger] sorted@[a],
                #[trigger] sorted@[b],
            ) by {
                if b < p {
                    assert(sorted@[a] == old_sorted[a]);
                    assert(sorted@[b] == old_sorted[b]);
                } else if b == p {
                    assert(sorted@[a] == old_sorted[a]);
                    lemma_task_before_total(x, old_sorted[a]);
                } else if a < p {
                    assert(sorted@[a] == old_sorted[a]);
                    assert(sorted@[b] == old_sorted[b - 1]);
                } else if a == p {
                    assert(sorted@[b] == old_sorted[b - 1]);
                    if b - 1 > p {
                        assert(task_before(old_sorted[p as int], old_sorted[b - 1]));
                        lemma_task_before_transitive(x, old_sorted[p as int], old_sorted[b - 1]);
                    }
                } else {
                    assert(sorted@[a] == old_sorted[a - 1]);
                    assert(sorted@[b] == old_sorted[b - 1]);
                }
            }
            assert forall|k: int| 0 <= k < sorted.len() implies #[trigger] task_placed(orig, n, sorted@[k]) by {
                if k < p {
                    assert(sorted@[k] == old_sorted[k]);
                    assert(task_placed(orig, n + 1, old_sorted[k]));
                } else if k == p {
                    assert(orig[n] == sorted@[k]);
                } else {
                    assert(sorted@[k] == old_sorted[k - 1]);
                    assert(task_placed(orig, n + 1, old_sorted[k - 1]));
                }
            }
            assert forall|m: int| n <= m < orig.len() implies sorted@.contains(#[trigger] orig[m]) by {
                if m == n {
                    assert(sorted@[p as int] == orig[m]);
                } else {
                    assert(old_sorted.contains(orig[m]));
                    let k = choose|k: int| 0 <= k < old_sorted.len() && old_sorted[k] == orig[m];
                    if k < p {
                        assert(sorted@[k] == orig[m]);
                    } else {
                        assert(sorted@[k + 1] == orig[m]);
                    }
                }
            }
        }
    }
    sorted
}

/// The team's tasks (see `is_task_summary`); the worklogs' seconds must add up within `u32`.
pub fn summarize_team_tasks(worklogs: &Vec<Worklog>) -> (tasks: Vec<TaskHours>)
    requires
        worklogs_seconds(worklogs@) <= u32::MAX,
    ensures
        is_task_summary(worklogs@, tasks@),
{
    let (firsts, seconds, counts) = group_tasks(worklogs);
    let unsorted = tasks_from_groups(worklogs, &firsts, &seconds, &counts);
    let ghost u = unsorted@;
    let ghost ws = worklogs@;
    let sorted = sort_tasks(unsorted);
    proof {
        let t = sorted@;
        assert forall|k: int| 0 <= k < t.len() implies first_key_index(ws, (#[trigger] t[k]).issue_key@) >= 0
            && t[k] == task_of(ws, t[k].issue_key@) by {
            assert(task_placed(u, 0, t[k]));
            let m = choose|m: int| 0 <= m < u.len() && u[m] == t[k];
            assert(u[m] == t[k]);
        }
        assert forall|i: int| 0 <= i < ws.len() implies task_listed(t, (#[trigger] ws[i]).issue_key@) by {
            assert(key_grouped(ws, firsts@, i));
            let k = choose|k: int| 0 <= k < firsts@.len() && ws[firsts@[k] as int].issue_key@ == ws[i].issue_key@;
            assert(u[k].issue_key@ == ws[i].issue_key@);
            assert(t.contains(u[k]));
            let j = choose|j: int| 0 <= j < t.len() && t[j] == u[k];
            assert(t[j].issue_key@ == ws[i].issue_key@);
        }
    }
    sorted
}

/// The seconds of each task's issue, added up.
pub open spec fn key_sum(worklogs: Seq<Worklog>, tasks: Seq<TaskHours>) -> int
    decreases tasks.len(),
{
    if tasks.len() == 0 {
        0
    } else {
        key_sum(worklogs, tasks.drop_last()) + key_seconds(worklogs, tasks.last().issue_key@)
    }
}

/// The worklog's seconds counted once for each task on its issue.
pub open spec fn key_matched(tasks: Seq<TaskHours>, worklog: Worklog) -> int
    decreases tasks.len(),
{
    if tasks.len() == 0 {
        0
    } else {
        key_matched(tasks.drop_last(), worklog) + if tasks.last().issue_key@ == worklog.issue_key@ {
            worklog.duration_seconds as int
        } else {
            0
        }
    }
}

/// The seconds of the worklogs whose issue has a task.
pub open spec fn listed_seconds(worklogs: Seq<Worklog>, tasks: Seq<TaskHours>) -> int
    decreases worklogs.len(),
{
    if worklogs.len() == 0 {
        0
    } else {
        listed_seconds(worklogs.drop_last(), tasks) + if task_listed(tasks, worklogs.last().issue_key@) {
            worklogs.last().duration_seconds as int
        } else {
            0
        }
    }
}

proof fn lemma_key_sum_split(worklogs: Seq<Worklog>, tasks: Seq<TaskHours>)
    requires
        worklogs.len() > 0,
    ensures
        key_sum(worklogs, tasks) == key_sum(worklogs.drop_last(), tasks) + key_matched(tasks, worklogs.last()),
    decreases tasks.len(),
{
    if tasks.len() > 0 {
        lemma_key_sum_split(worklogs, tasks.drop_last());
    }
}

proof fn lemma_key_sum_empty(worklogs: Seq<Worklog>, tasks: Seq<TaskHours>)
    requires
        worklogs.len() == 0,
    ensures
        key_sum(worklogs, tasks) == 0,
    decreases tasks.len(),
{
    if tasks.len() > 0 {
        lemma_key_sum_empty(worklogs, tasks.drop_last());
    }
}

proof fn lemma_key_matched(tasks: Seq<TaskHours>, worklog: Worklog)
    requires
        forall|a: int, b: int|
            0 <= a < tasks.len() && 0 <= b < tasks.len() && a != b ==> (#[trigger] tasks[a]).issue_key@
                != (#[trigger] tasks[b]).issue_key@,
    ensures
        key_matched(tasks, worklog) == if task_listed(tasks, worklog.issue_key@) {
            worklog.duration_seconds as int
        } else {
            0
        },
    decreases tasks.len(),
{
    if tasks.len() > 0 {
        let rest = tasks.drop_last();
        let n = tasks.len() - 1;
        assert forall|a: int, b: int|
            0 <= a < rest.len() && 0 <= b < rest.len() && a != b implies (#[trigger] rest[a]).issue_key@
                != (#[trigger] rest[b]).issue_key@ by {
            assert(rest[a] == tasks[a]);
            assert(rest[b] == tasks[b]);
        }
        lemma_key_matched(rest, worklog);
        assert(tasks[n] == tasks.last());
        if tasks.last().issue_key@ == worklog.issue_key@ {
            if task_listed(rest, worklog.issue_key@) {
                let k = choose|k: int| 0 <= k < rest.len() && rest[k].issue_key@ == worklog.issue_key@;
                assert(rest[k] == tasks[k]);
            }
        } else {
            if task_listed(tasks, worklog.issue_key@) {
                let k = choose|k: int| 0 <= k < tasks.len() && tasks[k].issue_key@ == worklog.issue_key@;
                assert(rest[k] == tasks[k]);
            }
            if task_listed(rest, worklog.issue_key@) {
                let k = choose|k: int| 0 <= k < rest.len() && rest[k].issue_key@ == worklog.issue_key@;
                assert(rest[k] == tasks[k]);
            }
        }
    }
}

proof fn lemma_key_sum_listed(worklogs: Seq<Worklog>, tasks: Seq<TaskHours>)
    requires
        forall|a: int, b: int|
            0 <= a < tasks.len() && 0 <= b < tasks.len() && a != b ==> (#[trigger] tasks[a]).issue_key@
                != (#[trigger] tasks[b]).issue_key@,
    ensures
        key_sum(worklogs, tasks) == listed_seconds(worklogs, tasks),
    decreases worklogs.len(),
{
    if worklogs.len() == 0 {
        lemma_key_sum_empty(worklogs, tasks);
    } else {
        lemma_key_sum_split(worklogs, tasks);
        lemma_key_matched(tasks, worklogs.last());
        lemma_key_sum_listed(worklogs.drop_last(), tasks);
    }
}

proof fn lemma_listed_seconds_all(worklogs: Seq<Worklog>, tasks: Seq<TaskHours>)
    requires
        forall|i: int| 0 <= i < worklogs.len() ==> task_listed(tasks, (#[trigger] worklogs[i]).issue_key@),
    ensures
        listed_seconds(worklogs, tasks) == worklogs_seconds(worklogs),
    decreases worklogs.len(),
{
    if worklogs.len() > 0 {
        let rest = worklogs.drop_last();
        assert forall|i: int| 0 <= i < rest.len() implies task_listed(tasks, (#[trigger] rest[i]).issue_key@) by {
            assert(rest[i] == worklogs[i]);
        }
        lemma_listed_seconds_all(rest, tasks);
        assert(worklogs[worklogs.len() - 1] == worklogs.last());
    }
}

proof fn lemma_task_seconds_are_key_sum(worklogs: Seq<Worklog>, tasks: Seq<TaskHours>)
    requires
        forall|k: int|
            0 <= k < tasks.len() ==> (#[trigger] tasks[k]).duration_seconds == key_seconds(
                worklogs,
                tasks[k].issue_key@,
            ),
    ensures
        task_seconds(tasks) == key_sum(worklogs, tasks),
    decreases tasks.len(),
{
    if tasks.len() > 0 {
        let rest = tasks.drop_last();
        assert forall|k: int| 0 <= k < rest.len() implies (#[trigger] rest[k]).duration_seconds
            == key_seconds(worklogs, rest[k].issue_key@) by {
            assert(rest[k] == tasks[k]);
        }
        lemma_task_seconds_are_key_sum(worklogs, rest);
        assert(tasks[tasks.len() - 1] == tasks.last());
    }
}

/// The team's tasks hold all of its time: their seconds add up to those of all worklogs.
pub proof fn lemma_tasks_keep_all_time(worklogs: Seq<Worklog>, tasks: Seq<TaskHours>)
    requires
        is_task_summary(worklogs, tasks),
        worklogs_seconds(worklogs) <= u32::MAX,
    ensures
        task_seconds(tasks) == worklogs_seconds(worklogs),
{
    assert forall|a: int, b: int|
        0 <= a < tasks.len() && 0 <= b < tasks.len() && a != b implies (#[trigger] tasks[a]).issue_key@
            != (#[trigger] tasks[b]).issue_key@ by {
        if tasks[a].issue_key@ == tasks[b].issue_key@ {
            assert(tasks[a] == tasks[b]);
            lemma_seq_less_irreflexive(tasks[a].issue_key@);
            if a < b {
                assert(task_before(tasks[a], tasks[b]));
            } else {
                assert(task_before(tasks[b], tasks[a]));
            }
        }
    }
    assert forall|k: int| 0 <= k < tasks.len() implies (#[trigger] tasks[k]).duration_seconds
        == key_seconds(worklogs, tasks[k].issue_key@) by {
        lemma_key_seconds_bounded(worklogs, tasks[k].issue_key@);
    }
    lemma_task_seconds_are_key_sum(worklogs, tasks);
    lemma_key_sum_listed(worklogs, tasks);
    lemma_listed_seconds_all(worklogs, tasks);
}

pub(crate) proof fn lemma_task_seconds_split(tasks: Seq<TaskHours>, n: int)
    requires
        0 <= n <= tasks.len(),
    ensures
        task_seconds(tasks) == task_seconds(tasks.take(n)) + task_seconds(tasks.skip(n)),
    decreases tasks.len(),
{
    if n == tasks.len() {
        assert(tasks.take(n) =~= tasks);
        assert(tasks.skip(n) =~= Seq::<TaskHours>::empty());
    } else {
        lemma_task_seconds_split(tasks.drop_last(), n);
        assert(tasks.drop_last().take(n) =~= tasks.take(n));
        assert(tasks.skip(n).drop_last() =~= tasks.drop_last().skip(n));
        assert(tasks.skip(n).last() == tasks.last());
    }
}

/// Any run of the team's last tasks fits in `u32`.
pub proof fn lemma_task_suffix_fits(worklogs: Seq<Worklog>, tasks: Seq<TaskHours>, n: int)
    requires
        is_task_summary(worklogs, tasks),
        worklogs_seconds(worklogs) <= u32::MAX,
        0 <= n <= tasks.len(),
    ensures
        task_seconds(tasks.skip(n)) <= u32::MAX,
{
    lemma_tasks_keep_all_time(worklogs, tasks);
    lemma_task_seconds_split(tasks, n);
    lemma_task_seconds_nonnegative(tasks.take(n));
}

/// The seconds of the worklogs started on the day.
pub open spec fn date_seconds(worklogs: Seq<Worklog>, date: i32) -> int
    decreases worklogs.len(),
{
    if worklogs.len() == 0 {
        0
    } else {
        date_seconds(worklogs.drop_last(), date) + if worklogs.last().started_date == date {
            worklogs.last().duration_seconds as int
        } else {
            0
        }
    }
}

proof fn lemma_date_seconds_bounded(worklogs: Seq<Worklog>, date: i32)
    ensures
        0 <= date_seconds(worklogs, date) <= worklogs_seconds(worklogs),
    decreases worklogs.len(),
{
    if worklogs.len() > 0 {
        lemma_date_seconds_bounded(worklogs.drop_last(), date);
    }
}

/// The seconds logged on each of the period's dates, which the caller lists as
/// the period gives them; the worklogs' seconds must add up within `u32`.
pub fn summarize_team_days(dates: &Vec<i32>, worklogs: &Vec<Worklog>) -> (days: Vec<DailyHours>)
    requires
        worklogs_seconds(worklogs@) <= u32::MAX,
    ensures
        days.len() == dates.len(),
        forall|k: int|
            0 <= k < days.len() ==> (#[trigger] days@[k]).date == dates@[k] && days@[k].duration_seconds
                == date_seconds(worklogs@, dates@[k]),
{
    let mut days: Vec<DailyHours> = Vec::new();
    let mut k: usize = 0;
    while k < dates.len()
        invariant
            k <= dates.len(),
            days.len() == k,
            worklogs_seconds(worklogs@) <= u32::MAX,
            forall|j: int|
                0 <= j < k ==> (#[trigger] days@[j]).date == dates@[j] && days@[j].duration_seconds
                    == date_seconds(worklogs@, dates@[j]),
        decreases dates.len() - k,
    {
        let date = dates[k];
        let mut total: u32 = 0;
        let mut i: usize = 0;
        while i < worklogs.len()
            invariant
                i <= worklogs.len(),
                worklogs_seconds(worklogs@) <= u32::MAX,
                total == date_seconds(worklogs@.take(i as int), date),
            decreases worklogs.len() - i,
        {
            proof {
                assert(worklogs@.take(i + 1).drop_last() =~= worklogs@.take(i as int));
                lemma_date_seconds_bounded(worklogs@.take(i + 1), date);
                lemma_worklogs_seconds_prefix(worklogs@, i + 1);
            }
            if worklogs[i].started_date == date {
                total = total + worklogs[i].duration_seconds;
            }
            i = i + 1;
        }
        assert(worklogs@.take(worklogs.len() as int) =~= worklogs@);
        days.push(DailyHours { date, duration_seconds: total });
        k = k + 1;
    }
    days
}

/// Adds up the seconds of all worklogs; they must add up within `u32`.
pub fn loaded_seconds(worklogs: &Vec<Worklog>) -> (total: u32)
    requires
        worklogs_seconds(worklogs@) <= u32::MAX,
    ensures
        total == worklogs_seconds(worklogs@),
{
    let mut total: u32 = 0;
    let mut i: usize = 0;
    while i < worklogs.len()
        invariant
            i <= worklogs.len(),
            worklogs_seconds(worklogs@) <= u32::MAX,
            total == worklogs_seconds(worklogs@.take(i as int)),
        decreases worklogs.len() - i,
    {
        proof {
            assert(worklogs@.take(i + 1).drop_last() =~= worklogs@.take(i as int));
            lemma_worklogs_seconds_prefix(worklogs@, i + 1);
        }
        total = total + worklogs[i].duration_seconds;
        i = i + 1;
    }
    assert(worklogs@.take(worklogs.len() as int) =~= worklogs@);
    total
}

} // verus!

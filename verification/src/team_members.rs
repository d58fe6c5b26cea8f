//! The members of a team report: one per account of the team or of the
//! worklogs, with the time, days, tasks and worklogs of each.

use vstd::prelude::*;

use crate::analytics::{member_seconds, TeamMemberAnalytics};
use crate::team::{TeamMember, TeamWorklog};
use crate::text::{lemma_seq_less_irreflexive, lemma_seq_less_total, lemma_seq_less_transitive, seq_less, str_equal, str_less};

verus! {

/// The seconds of the worklogs by the account.
pub open spec fn author_seconds(worklogs: Seq<TeamWorklog>, account: Seq<char>) -> int
    decreases worklogs.len(),
{
    if worklogs.len() == 0 {
        0
    } else {
        author_seconds(worklogs.drop_last(), account) + if worklogs.last().worklog.author@ == account {
            worklogs.last().worklog.duration_seconds as int
        } else {
            0
        }
    }
}

/// The seconds of all team worklogs.
pub open spec fn team_seconds(worklogs: Seq<TeamWorklog>) -> int
    decreases worklogs.len(),
{
    if worklogs.len() == 0 {
        0
    } else {
        team_seconds(worklogs.drop_last()) + worklogs.last().worklog.duration_seconds
    }
}

/// The number of worklogs by the account.
pub open spec fn author_count(worklogs: Seq<TeamWorklog>, account: Seq<char>) -> int
    decreases worklogs.len(),
{
    if worklogs.len() == 0 {
        0
    } else {
        author_count(worklogs.drop_last(), account) + if worklogs.last().worklog.author@ == account {
            1int
        } else {
            0
        }
    }
}

/// Some worklog by the account was started on the day.
pub open spec fn day_seen(worklogs: Seq<TeamWorklog>, account: Seq<char>, date: i32) -> bool {
    exists|j: int|
        0 <= j < worklogs.len() && (#[trigger] worklogs[j]).worklog.author@ == account && worklogs[j].worklog.started_date
            == date
}

/// Some worklog by the account is on the issue.
pub open spec fn issue_seen(worklogs: Seq<TeamWorklog>, account: Seq<char>, key: Seq<char>) -> bool {
    exists|j: int|
        0 <= j < worklogs.len() && (#[trigger] worklogs[j]).worklog.author@ == account && worklogs[j].worklog.issue_key@
            == key
}

/// The number of different days on which the account logged time.
pub open spec fn author_days(worklogs: Seq<TeamWorklog>, account: Seq<char>) -> int
    decreases worklogs.len(),
{
    if worklogs.len() == 0 {
        0
    } else {
        let last = worklogs.last();
        author_days(worklogs.drop_last(), account) + if last.worklog.author@ == account && !day_seen(
            worklogs.drop_last(),
            account,
            last.worklog.started_date,
        ) {
            1int
        } else {
            0
        }
    }
}

/// The number of different issues on which the account logged time.
pub open spec fn author_tasks(worklogs: Seq<TeamWorklog>, account: Seq<char>) -> int
    decreases worklogs.len(),
{
    if worklogs.len() == 0 {
        0
    } else {
        let last = worklogs.last();
        author_tasks(worklogs.drop_last(), account) + if last.worklog.author@ == account && !issue_seen(
            worklogs.drop_last(),
            account,
            last.worklog.issue_key@,
        ) {
            1int
        } else {
            0
        }
    }
}

/// The display name on the account's last worklog.
pub open spec fn worklog_display(worklogs: Seq<TeamWorklog>, account: Seq<char>) -> Option<Seq<char>>
    decreases worklogs.len(),
{
    if worklogs.len() == 0 {
        None
    } else if worklogs.last().worklog.author@ == account {
        Some(worklogs.last().author_display_name@)
    } else {
        worklog_display(worklogs.drop_last(), account)
    }
}

/// The display name of the account's last entry in the team.
pub open spec fn roster_display(roster: Seq<TeamMember>, account: Seq<char>) -> Option<Seq<char>>
    decreases roster.len(),
{
    if roster.len() == 0 {
        None
    } else if roster.last().account_id@ == account {
        Some(roster.last().display_name@)
    } else {
        roster_display(roster.drop_last(), account)
    }
}

/// The name shown for a member: that of their last worklog, else that of the team.
pub open spec fn member_display(roster: Seq<TeamMember>, worklogs: Seq<TeamWorklog>, account: Seq<char>) -> Seq<
    char,
> {
    match worklog_display(worklogs, account) {
        Some(name) => name,
        None => match roster_display(roster, account) {
            Some(name) => name,
            None => Seq::empty(),
        },
    }
}

/// The account is in the team or has worklogs.
pub open spec fn account_known(roster: Seq<TeamMember>, worklogs: Seq<TeamWorklog>, account: Seq<char>) -> bool {
    roster_display(roster, account) is Some || worklog_display(worklogs, account) is Some
}

/// The member's figures are those of their account.
pub open spec fn member_summary_of(
    roster: Seq<TeamMember>,
    worklogs: Seq<TeamWorklog>,
    member: TeamMemberAnalytics,
) -> bool {
    let account = member.account_id@;
    &&& account_known(roster, worklogs, account)
    &&& member.display_name@ == member_display(roster, worklogs, account)
    &&& member.seconds == author_seconds(worklogs, account)
    &&& member.entries == author_count(worklogs, account)
    &&& member.active_days == author_days(worklogs, account)
    &&& member.task_count == author_tasks(worklogs, account)
}

/// `x` comes before `y`: more seconds first, then by name, then by account.
pub open spec fn member_before(x: TeamMemberAnalytics, y: TeamMemberAnalytics) -> bool {
    ||| x.seconds > y.seconds
    ||| x.seconds == y.seconds && seq_less(x.display_name@, y.display_name@)
    ||| x.seconds == y.seconds && x.display_name@ == y.display_name@ && seq_less(
        x.account_id@,
        y.account_id@,
    )
}

/// Some member has the account.
pub open spec fn member_listed(members: Seq<TeamMemberAnalytics>, account: Seq<char>) -> bool {
    exists|k: int| 0 <= k < members.len() && members[k].account_id@ == account
}

/// The members of a team report: one per account of the team or of the
/// worklogs, with its figures, in order.
pub open spec fn is_member_summary(
    roster: Seq<TeamMember>,
    worklogs: Seq<TeamWorklog>,
    members: Seq<TeamMemberAnalytics>,
) -> bool {
    &&& forall|k: int| 0 <= k < members.len() ==> member_summary_of(roster, worklogs, #[trigger] members[k])
    &&& forall|r: int| 0 <= r < roster.len() ==> member_listed(members, (#[trigger] roster[r]).account_id@)
    &&& forall|i: int| 0 <= i < worklogs.len() ==> member_listed(members, (#[trigger] worklogs[i]).worklog.author@)
    &&& forall|a: int, b: int| 0 <= a < b < members.len() ==> member_before(#[trigger] members[a], #[trigger] members[b])
}

/// Some group has the account.
pub open spec fn group_has(accounts: Seq<String>, account: Seq<char>) -> bool {
    exists|p: int| 0 <= p < accounts.len() && accounts[p]@ == account
}

/// The members gathered so far, one group per account, in parallel lists.
struct MemberGroups {
    accounts: Vec<String>,
    names: Vec<String>,
    seconds: Vec<u32>,
    entries: Vec<usize>,
    days: Vec<usize>,
    tasks: Vec<usize>,
}

/// The groups hold the figures of every account of `roster` and `worklogs`.
spec fn groups_ok(g: MemberGroups, roster: Seq<TeamMember>, worklogs: Seq<TeamWorklog>) -> bool {
    let n = g.accounts.len();
    &&& g.names.len() == n && g.seconds.len() == n && g.entries.len() == n
    &&& g.days.len() == n && g.tasks.len() == n
    &&& forall|a: int, b: int|
        0 <= a < n && 0 <= b < n && a != b ==> (#[trigger] g.accounts@[a])@ != (#[trigger] g.accounts@[b])@
    &&& forall|p: int|
        0 <= p < n ==> {
            let account = (#[trigger] g.accounts@[p])@;
            &&& account_known(roster, worklogs, account)
            &&& g.names@[p]@ == member_display(roster, worklogs, account)
            &&& g.seconds@[p] == author_seconds(worklogs, account)
            &&& g.entries@[p] == author_count(worklogs, account)
            &&& g.days@[p] == author_days(worklogs, account)
            &&& g.tasks@[p] == author_tasks(worklogs, account)
        }
    &&& forall|r: int| 0 <= r < roster.len() ==> group_has(g.accounts@, (#[trigger] roster[r]).account_id@)
    &&& forall|i: int| 0 <= i < worklogs.len() ==> group_has(g.accounts@, (#[trigger] worklogs[i]).worklog.author@)
}

proof fn lemma_roster_push(roster: Seq<TeamMember>, member: TeamMember, account: Seq<char>)
    ensures
        roster_display(roster.push(member), account) == if member.account_id@ == account {
            Some(member.display_name@)
        } else {
            roster_display(roster, account)
        },
{
    assert(roster.push(member).drop_last() =~= roster);
}

proof fn lemma_worklog_push(worklogs: Seq<TeamWorklog>, entry: TeamWorklog, account: Seq<char>)
    ensures
        ({
            let after = worklogs.push(entry);
            let mine = entry.worklog.author@ == account;
            &&& author_seconds(after, account) == author_seconds(worklogs, account) + if mine {
                entry.worklog.duration_seconds as int
            } else {
                0
            }
            &&& author_count(after, account) == author_count(worklogs, account) + if mine {
                1int
            } else {
                0
            }
            &&& author_days(after, account) == author_days(worklogs, account) + if mine && !day_seen(
                worklogs,
                account,
                entry.worklog.started_date,
            ) {
                1int
            } else {
                0
            }
            &&& author_tasks(after, account) == author_tasks(worklogs, account) + if mine && !issue_seen(
                worklogs,
                account,
                entry.worklog.issue_key@,
            ) {
                1int
            } else {
                0
            }
            &&& worklog_display(after, account) == if mine {
                Some(entry.author_display_name@)
            } else {
                worklog_display(worklogs, account)
            }
        }),
{
    assert(worklogs.push(entry).drop_last() =~= worklogs);
}

proof fn lemma_author_bounds(worklogs: Seq<TeamWorklog>, account: Seq<char>)
    ensures
        0 <= author_seconds(worklogs, account) <= team_seconds(worklogs),
        0 <= author_days(worklogs, account) <= author_count(worklogs, account) <= worklogs.len(),
        0 <= author_tasks(worklogs, account) <= author_count(worklogs, account),
    decreases worklogs.len(),
{
    if worklogs.len() > 0 {
        lemma_author_bounds(worklogs.drop_last(), account);
    }
}

proof fn lemma_unknown_author(worklogs: Seq<TeamWorklog>, account: Seq<char>)
    requires
        forall|j: int| 0 <= j < worklogs.len() ==> (#[trigger] worklogs[j]).worklog.author@ != account,
    ensures
        author_seconds(worklogs, account) == 0,
        author_count(worklogs, account) == 0,
        author_days(worklogs, account) == 0,
        author_tasks(worklogs, account) == 0,
        worklog_display(worklogs, account) is None,
    decreases worklogs.len(),
{
    if worklogs.len() > 0 {
        let rest = worklogs.drop_last();
        assert forall|j: int| 0 <= j < rest.len() implies (#[trigger] rest[j]).worklog.author@ != account by {
            assert(rest[j] == worklogs[j]);
        }
        lemma_unknown_author(rest, account);
        assert(worklogs[worklogs.len() - 1] == worklogs.last());
    }
}

proof fn lemma_team_seconds_prefix(worklogs: Seq<TeamWorklog>, n: int)
    requires
        0 <= n <= worklogs.len(),
    ensures
        team_seconds(worklogs.take(n)) <= team_seconds(worklogs),
    decreases worklogs.len(),
{
    if n < worklogs.len() {
        lemma_team_seconds_prefix(worklogs.drop_last(), n);
        assert(worklogs.drop_last().take(n) =~= worklogs.take(n));
    } else {
        assert(worklogs.take(n) =~= worklogs);
    }
}

fn find_account(accounts: &Vec<String>, account: &str) -> (p: usize)
    ensures
        p <= accounts.len(),
        p < accounts.len() ==> accounts@[p as int]@ == account@,
        p == accounts.len() ==> !group_has(accounts@, account@),
{
    let mut p: usize = 0;
    while p < accounts.len()
        invariant
            p <= accounts.len(),
            forall|k: int| 0 <= k < p ==> (#[trigger] accounts@[k])@ != account@,
        decreases accounts.len() - p,
    {
        if str_equal(accounts[p].as_str(), account) {
            return p;
        }
        p = p + 1;
    }
    p
}

/// The groups of the team, before any worklog.
fn roster_groups(roster: &Vec<TeamMember>) -> (g: MemberGroups)
    ensures
        groups_ok(g, roster@, Seq::empty()),
{
    let ghost none = Seq::<TeamWorklog>::empty();
    let mut g = MemberGroups {
        accounts: Vec::new(),
        names: Vec::new(),
        seconds: Vec::new(),
        entries: Vec::new(),
        days: Vec::new(),
        tasks: Vec::new(),
    };
    let mut k: usize = 0;
    assert(roster@.take(0) =~= Seq::<TeamMember>::empty());
    while k < roster.len()
        invariant
            k <= roster.len(),
            groups_ok(g, roster@.take(k as int), none),
            none == Seq::<TeamWorklog>::empty(),
        decreases roster.len() - k,
    {
        let ghost before = roster@.take(k as int);
        let member = &roster[k];
        assert(roster@.take(k + 1) =~= before.push(*member));
        let ghost after = before.push(*member);
        let p = find_account(&g.accounts, member.account_id.as_str());
        let ghost old_g = g;
        if p < g.accounts.len() {
            g.names.set(p, member.display_name.clone());
        } else {
            g.accounts.push(member.account_id.clone());
            g.names.push(member.display_name.clone());
            g.seconds.push(0);
            g.entries.push(0);
            g.days.push(0);
            g.tasks.push(0);
        }
        proof {
            let n = g.accounts.len() as int;
            assert forall|q: int| 0 <= q < n implies {
                let account = (#[trigger] g.accounts@[q])@;
                &&& account_known(after, none, account)
                &&& g.names@[q]@ == member_display(after, none, account)
                &&& g.seconds@[q] == author_seconds(none, account)
                &&& g.entries@[q] == author_count(none, account)
                &&& g.days@[q] == author_days(none, account)
                &&& g.tasks@[q] == author_tasks(none, account)
            } by {
                lemma_roster_push(before, *member, g.accounts@[q]@);
                if q < old_g.accounts.len() {
                    assert(g.accounts@[q] == old_g.accounts@[q]);
                }
            }
            assert forall|a: int, b: int|
                0 <= a < n && 0 <= b < n && a != b implies (#[trigger] g.accounts@[a])@ != (
                #[trigger] g.accounts@[b])@ by {
                if a < old_g.accounts.len() {
                    assert(g.accounts@[a] == old_g.accounts@[a]);
                }
                if b < old_g.accounts.len() {
                    assert(g.accounts@[b] == old_g.accounts@[b]);
                }
            }
            assert forall|r: int| 0 <= r < after.len() implies group_has(
                g.accounts@,
                (#[trigger] after[r]).account_id@,
            ) by {
                if r < before.len() {
                    assert(after[r] == before[r]);
                    assert(group_has(old_g.accounts@, before[r].account_id@));
                    let q = choose|q: int| 0 <= q < old_g.accounts.len() && old_g.accounts@[q]@ == before[r].account_id@;
                    assert(g.accounts@[q] == old_g.accounts@[q]);
                } else if p < old_g.accounts.len() {
                    assert(g.accounts@[p as int]@ == after[r].account_id@);
                } else {
                    assert(g.accounts@[old_g.accounts.len() as int]@ == after[r].account_id@);
                }
            }
        }
        k = k + 1;
    }
    assert(roster@.take(roster.len() as int) =~= roster@);
    g
}

fn day_seen_before(worklogs: &Vec<TeamWorklog>, i: usize) -> (seen: bool)
    requires
        i < worklogs.len(),
    ensures
        seen == day_seen(
            worklogs@.take(i as int),
            worklogs@[i as int].worklog.author@,
            worklogs@[i as int].worklog.started_date,
        ),
{
    let entry = &worklogs[i];
    let ghost prefix = worklogs@.take(i as int);
    let mut j: usize = 0;
    while j < i
        invariant
            j <= i,
            i < worklogs.len(),
            prefix == worklogs@.take(i as int),
            *entry == worklogs@[i as int],
            forall|m: int|
                0 <= m < j ==> !((#[trigger] prefix[m]).worklog.author@ == entry.worklog.author@
                    && prefix[m].worklog.started_date == entry.worklog.started_date),
        decreases i - j,
    {
        let other = &worklogs[j];
        assert(prefix[j as int] == *other);
        if str_equal(other.worklog.author.as_str(), entry.worklog.author.as_str())
            && other.worklog.started_date == entry.worklog.started_date {
            return true;
        }
        j = j + 1;
    }
    false
}

fn issue_seen_before(worklogs: &Vec<TeamWorklog>, i: usize) -> (seen: bool)
    requires
        i < worklogs.len(),
    ensures
        seen == issue_seen(
            worklogs@.take(i as int),
            worklogs@[i as int].worklog.author@,
            worklogs@[i as int].worklog.issue_key@,
        ),
{
    let entry = &worklogs[i];
    let ghost prefix = worklogs@.take(i as int);
    let mut j: usize = 0;
    while j < i
        invariant
            j <= i,
            i < worklogs.len(),
            prefix == worklogs@.take(i as int),
            *entry == worklogs@[i as int],
            forall|m: int|
                0 <= m < j ==> !((#[trigger] prefix[m]).worklog.author@ == entry.worklog.author@
                    && prefix[m].worklog.issue_key@ == entry.worklog.issue_key@),
        decreases i - j,
    {
        let other = &worklogs[j];
        assert(prefix[j as int] == *other);
        if str_equal(other.worklog.author.as_str(), entry.worklog.author.as_str()) && str_equal(
            other.worklog.issue_key.as_str(),
            entry.worklog.issue_key.as_str(),
        ) {
            return true;
        }
        j = j + 1;
    }
    false
}

/// Adds the worklogs to the team's groups.
fn worklog_groups(roster: &Vec<TeamMember>, worklogs: &Vec<TeamWorklog>, g: MemberGroups) -> (r:
    MemberGroups)
    requires
        groups_ok(g, roster@, Seq::empty()),
        team_seconds(worklogs@) <= u32::MAX,
    ensures
        groups_ok(r, roster@, worklogs@),
{
    let mut g = g;
    let mut i: usize = 0;
    assert(worklogs@.take(0) =~= Seq::<TeamWorklog>::empty());
    while i < worklogs.len()
        invariant
            i <= worklogs.len(),
            team_seconds(worklogs@) <= u32::MAX,
            groups_ok(g, roster@, worklogs@.take(i as int)),
        decreases worklogs.len() - i,
    {
        let ghost before = worklogs@.take(i as int);
        let entry = &worklogs[i];
        assert(worklogs@.take(i + 1) =~= before.push(*entry));
        let ghost after = before.push(*entry);
        let ghost account = entry.worklog.author@;
        let new_day = !day_seen_before(worklogs, i);
        let new_issue = !issue_seen_before(worklogs, i);
        proof {
            lemma_worklog_push(before, *entry, account);
            lemma_author_bounds(after, account);
            lemma_team_seconds_prefix(worklogs@, i + 1);
        }
        let p = find_account(&g.accounts, entry.worklog.author.as_str());
        let ghost old_g = g;
        if p < g.accounts.len() {
            let seconds = g.seconds[p] + entry.worklog.duration_seconds;
            g.seconds.set(p, seconds);
            let count = g.entries[p] + 1;
            g.entries.set(p, count);
            if new_day {
                let days = g.days[p] + 1;
                g.days.set(p, days);
            }
            if new_issue {
                let tasks = g.tasks[p] + 1;
                g.tasks.set(p, tasks);
            }
            g.names.set(p, entry.author_display_name.clone());
        } else {
            proof {
                assert forall|j: int| 0 <= j < before.len() implies (#[trigger] before[j]).worklog.author@
                    != account by {
                    assert(group_has(old_g.accounts@, before[j].worklog.author@));
                }
                lemma_unknown_author(before, account);
            }
            g.accounts.push(entry.worklog.author.clone());
            g.names.push(entry.author_display_name.clone());
            g.seconds.push(entry.worklog.duration_seconds);
            g.entries.push(1);
            g.days.push(1);
            g.tasks.push(1);
        }
        proof {
            let n = g.accounts.len() as int;
            assert forall|q: int| 0 <= q < n implies {
                let a = (#[trigger] g.accounts@[q])@;
                &&& account_known(roster@, after, a)
                &&& g.names@[q]@ == member_display(roster@, after, a)
                &&& g.seconds@[q] == author_seconds(after, a)
                &&& g.entries@[q] == author_count(after, a)
                &&& g.days@[q] == author_days(after, a)
                &&& g.tasks@[q] == author_tasks(after, a)
            } by {
                lemma_worklog_push(before, *entry, g.accounts@[q]@);
                if q < old_g.accounts.len() {
                    assert(g.accounts@[q] == old_g.accounts@[q]);
                }
            }
            assert forall|a: int, b: int|
                0 <= a < n && 0 <= b < n && a != b implies (#[trigger] g.accounts@[a])@ != (
                #[trigger] g.accounts@[b])@ by {
                if a < old_g.accounts.len() {
                    assert(g.accounts@[a] == old_g.accounts@[a]);
                }
                if b < old_g.accounts.len() {
                    assert(g.accounts@[b] == old_g.accounts@[b]);
                }
            }
            assert forall|r: int| 0 <= r < roster@.len() implies group_has(
                g.accounts@,
                (#[trigger] roster@[r]).account_id@,
            ) by {
                assert(group_has(old_g.accounts@, roster@[r].account_id@));
                let q = choose|q: int| 0 <= q < old_g.accounts.len() && old_g.accounts@[q]@ == roster@[r].account_id@;
                assert(g.accounts@[q] == old_g.accounts@[q]);
            }
            assert forall|j: int| 0 <= j < after.len() implies group_has(
                g.accounts@,
                (#[trigger] after[j]).worklog.author@,
            ) by {
                if j < before.len() {
                    assert(after[j] == before[j]);
                    assert(group_has(old_g.accounts@, before[j].worklog.author@));
                    let q = choose|q: int| 0 <= q < old_g.accounts.len() && old_g.accounts@[q]@ == before[j].worklog.author@;
                    assert(g.accounts@[q] == old_g.accounts@[q]);
                } else if p < old_g.accounts.len() {
                    assert(g.accounts@[p as int]@ == after[j].worklog.author@);
                } else {
                    assert(g.accounts@[old_g.accounts.len() as int]@ == after[j].worklog.author@);
                }
            }
        }
        i = i + 1;
    }
    assert(worklogs@.take(worklogs.len() as int) =~= worklogs@);
    g
}

/// Turns the groups into members (in reverse order; they are sorted next).
fn members_from_groups(g: MemberGroups) -> (members: Vec<TeamMemberAnalytics>)
    requires
        g.names.len() == g.accounts.len(),
        g.seconds.len() == g.accounts.len(),
        g.entries.len() == g.accounts.len(),
        g.days.len() == g.accounts.len(),
        g.tasks.len() == g.accounts.len(),
    ensures
        members.len() == g.accounts.len(),
        forall|k: int|
            0 <= k < members.len() ==> {
                let q = g.accounts.len() - 1 - k;
                &&& (#[trigger] members@[k]).account_id == g.accounts@[q]
                &&& members@[k].display_name == g.names@[q]
                &&& members@[k].seconds == g.seconds@[q]
                &&& members@[k].entries == g.entries@[q]
                &&& members@[k].active_days == g.days@[q]
                &&& members@[k].task_count == g.tasks@[q]
            },
{
    let ghost old_g = g;
    let ghost n = g.accounts.len() as int;
    let MemberGroups { mut accounts, mut names, mut seconds, mut entries, mut days, mut tasks } = g;
    let mut members: Vec<TeamMemberAnalytics> = Vec::new();
    while accounts.len() > 0
        invariant
            accounts.len() <= n,
            names.len() == accounts.len(),
            seconds.len() == accounts.len(),
            entries.len() == accounts.len(),
            days.len() == accounts.len(),
            tasks.len() == accounts.len(),
            accounts@ == old_g.accounts@.take(accounts.len() as int),
            names@ == old_g.names@.take(accounts.len() as int),
            seconds@ == old_g.seconds@.take(accounts.len() as int),
            entries@ == old_g.entries@.take(accounts.len() as int),
            days@ == old_g.days@.take(accounts.len() as int),
            tasks@ == old_g.tasks@.take(accounts.len() as int),
            old_g.accounts.len() == n,
            old_g.names.len() == n,
            old_g.seconds.len() == n,
            old_g.entries.len() == n,
            old_g.days.len() == n,
            old_g.tasks.len() == n,
            members.len() + accounts.len() == n,
            forall|k: int|
                0 <= k < members.len() ==> {
                    let q = n - 1 - k;
                    &&& (#[trigger] members@[k]).account_id == old_g.accounts@[q]
                    &&& members@[k].display_name == old_g.names@[q]
                    &&& members@[k].seconds == old_g.seconds@[q]
                    &&& members@[k].entries == old_g.entries@[q]
                    &&& members@[k].active_days == old_g.days@[q]
                    &&& members@[k].task_count == old_g.tasks@[q]
                },
        decreases accounts.len(),
    {
        let ghost m = accounts.len() - 1;
        let account_id = accounts.pop().unwrap();
        let display_name = names.pop().unwrap();
        let member_seconds = seconds.pop().unwrap();
        let member_entries = entries.pop().unwrap();
        let member_days = days.pop().unwrap();
        let member_tasks = tasks.pop().unwrap();
        assert(accounts@ =~= old_g.accounts@.take(m));
        assert(names@ =~= old_g.names@.take(m));
        assert(seconds@ =~= old_g.seconds@.take(m));
        assert(entries@ =~= old_g.entries@.take(m));
        assert(days@ =~= old_g.days@.take(m));
        assert(tasks@ =~= old_g.tasks@.take(m));
        members.push(
            TeamMemberAnalytics {
                account_id,
                display_name,
                seconds: member_seconds,
                active_days: member_days,
                task_count: member_tasks,
                entries: member_entries,
            },
        );
    }
    members
}

proof fn lemma_member_before_transitive(x: TeamMemberAnalytics, y: TeamMemberAnalytics, z: TeamMemberAnalytics)
    requires
        member_before(x, y),
        member_before(y, z),
    ensures
        member_before(x, z),
{
    if x.seconds == y.seconds && y.seconds == z.seconds {
        if seq_less(x.display_name@, y.display_name@) && seq_less(y.display_name@, z.display_name@) {
            lemma_seq_less_transitive(x.display_name@, y.display_name@, z.display_name@);
        } else if x.display_name@ == y.display_name@ && y.display_name@ == z.display_name@ {
            lemma_seq_less_transitive(x.account_id@, y.account_id@, z.account_id@);
        }
    }
}

proof fn lemma_member_before_total(x: TeamMemberAnalytics, y: TeamMemberAnalytics)
    requires
        x.account_id@ != y.account_id@,
    ensures
        member_before(x, y) || member_before(y, x),
{
    lemma_seq_less_total(x.display_name@, y.display_name@);
    lemma_seq_less_total(x.account_id@, y.account_id@);
}

fn member_precedes(x: &TeamMemberAnalytics, y: &TeamMemberAnalytics) -> (r: bool)
    ensures
        r == member_before(*x, *y),
{
    if x.seconds != y.seconds {
        return x.seconds > y.seconds;
    }
    if str_less(x.display_name.as_str(), y.display_name.as_str()) {
        return true;
    }
    str_equal(x.display_name.as_str(), y.display_name.as_str()) && str_less(
        x.account_id.as_str(),
        y.account_id.as_str(),
    )
}

/// The member `x` is among `orig[from..]`.
pub open spec fn member_placed(orig: Seq<TeamMemberAnalytics>, from: int, x: TeamMemberAnalytics) -> bool {
    exists|m: int| from <= m < orig.len() && orig[m] == x
}

fn sort_members(members: Vec<TeamMemberAnalytics>) -> (sorted: Vec<TeamMemberAnalytics>)
    requires
        forall|a: int, b: int|
            0 <= a < members.len() && 0 <= b < members.len() && a != b ==> (#[trigger] members@[a]).account_id@
                != (#[trigger] members@[b]).account_id@,
    ensures
        sorted.len() == members.len(),
        forall|a: int, b: int| 0 <= a < b < sorted.len() ==> member_before(#[trigger] sorted@[a], #[trigger] sorted@[b]),
        forall|k: int| 0 <= k < sorted.len() ==> #[trigger] member_placed(members@, 0, sorted@[k]),
        forall|m: int| 0 <= m < members.len() ==> sorted@.contains(#[trigger] members@[m]),
{
    let ghost orig = members@;
    let mut rest = members;
    let mut sorted: Vec<TeamMemberAnalytics> = Vec::new();
    while rest.len() > 0
        invariant
            forall|a: int, b: int|
                0 <= a < orig.len() && 0 <= b < orig.len() && a != b ==> (#[trigger] orig[a]).account_id@
                    != (#[trigger] orig[b]).account_id@,
            rest@ == orig.take(rest.len() as int),
            rest.len() <= orig.len(),
            sorted.len() + rest.len() == orig.len(),
            forall|a: int, b: int| 0 <= a < b < sorted.len() ==> member_before(#[trigger] sorted@[a], #[trigger] sorted@[b]),
            forall|k: int| 0 <= k < sorted.len() ==> #[trigger] member_placed(orig, rest.len() as int, sorted@[k]),
            forall|m: int| rest.len() <= m < orig.len() ==> sorted@.contains(#[trigger] orig[m]),
        decreases rest.len(),
    {
        let ghost n = (rest.len() - 1) as int;
        let ghost old_sorted = sorted@;
        let x = rest.pop().unwrap();
        assert(x == orig[n]);
        assert(rest@ =~= orig.take(n));
        assert forall|k: int| 0 <= k < old_sorted.len() implies (#[trigger] old_sorted[k]).account_id@ != x.account_id@ by {
            assert(member_placed(orig, n + 1, old_sorted[k]));
            let m = choose|m: int| n + 1 <= m < orig.len() && orig[m] == old_sorted[k];
            assert(orig[m].account_id@ != orig[n].account_id@);
        }
        let mut p: usize = 0;
        while p < sorted.len()
            invariant_except_break
                p <= sorted.len(),
                forall|k: int| 0 <= k < p ==> !member_before(x, #[trigger] sorted@[k]),
            ensures
                p <= sorted.len(),
                forall|k: int| 0 <= k < p ==> !member_before(x, #[trigger] sorted@[k]),
                p < sorted.len() ==> member_before(x, sorted@[p as int]),
            decreases sorted.len() - p,
        {
            if member_precedes(&x, &sorted[p]) {
                break;
            }
            p = p + 1;
        }
        sorted.insert(p, x);
        proof {
            old_sorted.insert_ensures(p as int, x);
            assert forall|a: int, b: int| 0 <= a < b < sorted.len() implies member_before(
                #[trigger] sorted@[a],
                #[trigger] sorted@[b],
            ) by {
                if b < p {
                    assert(sorted@[a] == old_sorted[a]);
                    assert(sorted@[b] == old_sorted[b]);
                } else if b == p {
                    assert(sorted@[a] == old_sorted[a]);
                    lemma_member_before_total(x, old_sorted[a]);
                } else if a < p {
                    assert(sorted@[a] == old_sorted[a]);
                    assert(sorted@[b] == old_sorted[b - 1]);
                } else if a == p {
                    assert(sorted@[b] == old_sorted[b - 1]);
                    if b - 1 > p {
                        assert(member_before(old_sorted[p as int], old_sorted[b - 1]));
                        lemma_member_before_transitive(x, old_sorted[p as int], old_sorted[b - 1]);
                    }
                } else {
                    assert(sorted@[a] == old_sorted[a - 1]);
                    assert(sorted@[b] == old_sorted[b - 1]);
                }
            }
            assert forall|k: int| 0 <= k < sorted.len() implies #[trigger] member_placed(orig, n, sorted@[k]) by {
                if k < p {
                    assert(sorted@[k] == old_sorted[k]);
                    assert(member_placed(orig, n + 1, old_sorted[k]));
                } else if k == p {
                    assert(orig[n] == sorted@[k]);
                } else {
                    assert(sorted@[k] == old_sorted[k - 1]);
                    assert(member_placed(orig, n + 1, old_sorted[k - 1]));
                }
            }
            assert forall|m: int| n <= m < orig.len() implies sorted@.contains(#[trigger] orig[m]) by {
                if m == n {
                    assert(sorted@[p as int] == orig[m]);
                } else {
                    assert(old_sorted.contains(orig[m]));
                    let k = choose|k: int| 0 <= k < old_sorted.len() && old_sorted[k] == orig[m];
                    if k < p {
                        assert(sorted@[k] == orig[m]);
                    } else {
                        assert(sorted@[k + 1] == orig[m]);
                    }
                }
            }
        }
    }
    sorted
}

/// The members of a team report (see `is_member_summary`); the worklogs'
/// seconds must add up within `u32`.
pub fn summarize_members(roster: &Vec<TeamMember>, worklogs: &Vec<TeamWorklog>) -> (members: Vec<
    TeamMemberAnalytics,
>)
    requires
        team_seconds(worklogs@) <= u32::MAX,
    ensures
        is_member_summary(roster@, worklogs@, members@),
{
    let g = roster_groups(roster);
    let g = worklog_groups(roster, worklogs, g);
    let ghost groups = g;
    let ghost n = g.accounts.len() as int;
    let unsorted = members_from_groups(g);
    let ghost u = unsorted@;
    proof {
        assert forall|a: int, b: int|
            0 <= a < u.len() && 0 <= b < u.len() && a != b implies (#[trigger] u[a]).account_id@
                != (#[trigger] u[b]).account_id@ by {
            assert(u[a].account_id == groups.accounts@[n - 1 - a]);
            assert(u[b].account_id == groups.accounts@[n - 1 - b]);
        }
    }
    let sorted = sort_members(unsorted);
    proof {
        let t = sorted@;
        assert forall|k: int| 0 <= k < t.len() implies member_summary_of(roster@, worklogs@, #[trigger] t[k]) by {
            assert(member_placed(u, 0, t[k]));
            let m = choose|m: int| 0 <= m < u.len() && u[m] == t[k];
            assert(u[m].account_id == groups.accounts@[n - 1 - m]);
        }
        assert forall|r: int| 0 <= r < roster@.len() implies member_listed(t, (#[trigger] roster@[r]).account_id@) by {
            assert(group_has(groups.accounts@, roster@[r].account_id@));
            let q = choose|q: int| 0 <= q < n && groups.accounts@[q]@ == roster@[r].account_id@;
            assert(u[n - 1 - q].account_id == groups.accounts@[q]);
            assert(t.contains(u[n - 1 - q]));
            let j = choose|j: int| 0 <= j < t.len() && t[j] == u[n - 1 - q];
            assert(t[j].account_id@ == roster@[r].account_id@);
        }
        assert forall|i: int| 0 <= i < worklogs@.len() implies member_listed(t, (#[trigger] worklogs@[i]).worklog.author@) by {
            assert(group_has(groups.accounts@, worklogs@[i].worklog.author@));
            let q = choose|q: int| 0 <= q < n && groups.accounts@[q]@ == worklogs@[i].worklog.author@;
            assert(u[n - 1 - q].account_id == groups.accounts@[q]);
            assert(t.contains(u[n - 1 - q]));
            let j = choose|j: int| 0 <= j < t.len() && t[j] == u[n - 1 - q];
            assert(t[j].account_id@ == worklogs@[i].worklog.author@);
        }
    }
    sorted
}

/// The seconds of each member's account, added up.
spec fn author_sum(worklogs: Seq<TeamWorklog>, members: Seq<TeamMemberAnalytics>) -> int
    decreases members.len(),
{
    if members.len() == 0 {
        0
    } else {
        author_sum(worklogs, members.drop_last()) + author_seconds(worklogs, members.last().account_id@)
    }
}

/// The worklog's seconds counted once for each member of its author.
spec fn author_matched(members: Seq<TeamMemberAnalytics>, entry: TeamWorklog) -> int
    decreases members.len(),
{
    if members.len() == 0 {
        0
    } else {
        author_matched(members.drop_last(), entry) + if members.last().account_id@ == entry.worklog.author@ {
            entry.worklog.duration_seconds as int
        } else {
            0
        }
    }
}

proof fn lemma_author_sum_split(worklogs: Seq<TeamWorklog>, members: Seq<TeamMemberAnalytics>)
    requires
        worklogs.len() > 0,
    ensures
        author_sum(worklogs, members) == author_sum(worklogs.drop_last(), members) + author_matched(
            members,
            worklogs.last(),
        ),
    decreases members.len(),
{
    if members.len() > 0 {
        lemma_author_sum_split(worklogs, members.drop_last());
    }
}

proof fn lemma_author_sum_empty(worklogs: Seq<TeamWorklog>, members: Seq<TeamMemberAnalytics>)
    requires
        worklogs.len() == 0,
    ensures
        author_sum(worklogs, members) == 0,
    decreases members.len(),
{
    if members.len() > 0 {
        lemma_author_sum_empty(worklogs, members.drop_last());
    }
}

proof fn lemma_author_matched(members: Seq<TeamMemberAnalytics>, entry: TeamWorklog)
    requires
        forall|a: int, b: int|
            0 <= a < members.len() && 0 <= b < members.len() && a != b ==> (#[trigger] members[a]).account_id@
                != (#[trigger] members[b]).account_id@,
    ensures
        author_matched(members, entry) == if member_listed(members, entry.worklog.author@) {
            entry.worklog.duration_seconds as int
        } else {
            0
        },
    decreases members.len(),
{
    if members.len() > 0 {
        let rest = members.drop_last();
        let n = members.len() - 1;
        assert forall|a: int, b: int|
            0 <= a < rest.len() && 0 <= b < rest.len() && a != b implies (#[trigger] rest[a]).account_id@
                != (#[trigger] rest[b]).account_id@ by {
            assert(rest[a] == members[a]);
            assert(rest[b] == members[b]);
        }
        lemma_author_matched(rest, entry);
        assert(members[n] == members.last());
        let author = entry.worklog.author@;
        if members.last().account_id@ == author {
            if member_listed(rest, author) {
                let k = choose|k: int| 0 <= k < rest.len() && rest[k].account_id@ == author;
                assert(rest[k] == members[k]);
            }
        } else {
            if member_listed(members, author) {
                let k = choose|k: int| 0 <= k < members.len() && members[k].account_id@ == author;
                assert(rest[k] == members[k]);
            }
            if member_listed(rest, author) {
                let k = choose|k: int| 0 <= k < rest.len() && rest[k].account_id@ == author;
                assert(rest[k] == members[k]);
            }
        }
    }
}

proof fn lemma_author_sum_all(worklogs: Seq<TeamWorklog>, members: Seq<TeamMemberAnalytics>)
    requires
        forall|a: int, b: int|
            0 <= a < members.len() && 0 <= b < members.len() && a != b ==> (#[trigger] members[a]).account_id@
                != (#[trigger] members[b]).account_id@,
        forall|i: int| 0 <= i < worklogs.len() ==> member_listed(members, (#[trigger] worklogs[i]).worklog.author@),
    ensures
        author_sum(worklogs, members) == team_seconds(worklogs),
    decreases worklogs.len(),
{
    if worklogs.len() == 0 {
        lemma_author_sum_empty(worklogs, members);
    } else {
        let rest = worklogs.drop_last();
        assert forall|i: int| 0 <= i < rest.len() implies member_listed(
            members,
            (#[trigger] rest[i]).worklog.author@,
        ) by {
            assert(rest[i] == worklogs[i]);
        }
        lemma_author_sum_split(worklogs, members);
        lemma_author_matched(members, worklogs.last());
        assert(worklogs[worklogs.len() - 1] == worklogs.last());
        lemma_author_sum_all(rest, members);
    }
}

proof fn lemma_member_seconds_are_author_sum(worklogs: Seq<TeamWorklog>, members: Seq<TeamMemberAnalytics>)
    requires
        forall|k: int|
            0 <= k < members.len() ==> (#[trigger] members[k]).seconds == author_seconds(
                worklogs,
                members[k].account_id@,
            ),
    ensures
        member_seconds(members) == author_sum(worklogs, members),
    decreases members.len(),
{
    if members.len() > 0 {
        let rest = members.drop_last();
        assert forall|k: int| 0 <= k < rest.len() implies (#[trigger] rest[k]).seconds == author_seconds(
            worklogs,
            rest[k].account_id@,
        ) by {
            assert(rest[k] == members[k]);
        }
        lemma_member_seconds_are_author_sum(worklogs, rest);
        assert(members[members.len() - 1] == members.last());
    }
}

/// The members of a team report hold all of its time: their seconds add up
/// to those of all the team's worklogs.
pub proof fn lemma_members_keep_all_time(
    roster: Seq<TeamMember>,
    worklogs: Seq<TeamWorklog>,
    members: Seq<TeamMemberAnalytics>,
)
    requires
        is_member_summary(roster, worklogs, members),
    ensures
        member_seconds(members) == team_seconds(worklogs),
{
    assert forall|a: int, b: int|
        0 <= a < members.len() && 0 <= b < members.len() && a != b implies (#[trigger] members[a]).account_id@
            != (#[trigger] members[b]).account_id@ by {
        if members[a].account_id@ == members[b].account_id@ {
            assert(member_summary_of(roster, worklogs, members[a]));
            assert(member_summary_of(roster, worklogs, members[b]));
            lemma_seq_less_irreflexive(members[a].account_id@);
            lemma_seq_less_irreflexive(members[a].display_name@);
            if a < b {
                assert(member_before(members[a], members[b]));
            } else {
                assert(member_before(members[b], members[a]));
            }
        }
    }
    assert forall|k: int| 0 <= k < members.len() implies (#[trigger] members[k]).seconds == author_seconds(
        worklogs,
        members[k].account_id@,
    ) by {
        assert(member_summary_of(roster, worklogs, members[k]));
    }
    lemma_member_seconds_are_author_sum(worklogs, members);
    lemma_author_sum_all(worklogs, members);
}

} // verus!

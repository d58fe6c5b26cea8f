//! A team report and the filters a person narrows it with.

use vstd::prelude::*;

use crate::analytics::Worklog;
use crate::text::{is_blank, str_equal, str_is_blank, str_trim, trim};

verus! {

/// A member of the board's team.
#[derive(Clone, Debug, PartialEq, Eq)]
pub struct TeamMember {
    pub account_id: String,
    pub display_name: String,
    pub active: bool,
}

/// A worklog of the team, with what the report shows about its issue.
#[derive(Clone, Debug, PartialEq, Eq)]
pub struct TeamWorklog {
    pub worklog: Worklog,
    pub author_display_name: String,
    pub issue_type: Option<String>,
    pub issue_status: Option<String>,
    pub assignee_display_name: Option<String>,
}

/// Which worklogs a comment filter keeps.
#[derive(Clone, Copy, Debug, PartialEq, Eq, Structural)]
pub enum CommentFilter {
    All,
    WithComment,
    WithoutComment,
}

/// The filters of a team report; an empty text keeps everything.
#[derive(Clone, Debug, PartialEq, Eq)]
pub struct TeamFilters {
    pub member_account_id: String,
    pub issue_type: String,
    pub issue_status: String,
    pub query: String,
    pub comments: CommentFilter,
}

/// Rust's `str::to_lowercase`: the Unicode lower case of the text.
pub uninterp spec fn lowercase(text: Seq<char>) -> Seq<char>;

/// `str::to_lowercase`; the contract names its result `lowercase`, which the
/// Unicode case tables define.
#[verifier::external_body]
pub(crate) fn str_to_lowercase(text: &str) -> (r: String)
    ensures
        r@ == lowercase(text@),
{
    text.to_lowercase()
}

/// The text holds `needle` as a contiguous part.
pub open spec fn text_contains(text: Seq<char>, needle: Seq<char>) -> bool {
    exists|i: int| 0 <= i <= text.len() - needle.len() && #[trigger] text.subrange(i, i + needle.len()) == needle
}

/// Decides `text_contains`.
pub fn str_contains(text: &str, needle: &str) -> (r: bool)
    ensures
        r == text_contains(text@, needle@),
{
    let t = crate::text::chars_of(text);
    let n = crate::text::chars_of(needle);
    if n.len() > t.len() {
        return false;
    }
    let mut i: usize = 0;
    while i <= t.len() - n.len()
        invariant
            t@ == text@,
            n@ == needle@,
            n.len() <= t.len(),
            i <= t.len() - n.len() + 1,
            forall|k: int| 0 <= k < i ==> #[trigger] text@.subrange(k, k + needle@.len()) != needle@,
        decreases t.len() - n.len() + 1 - i,
    {
        let mut j: usize = 0;
        while j < n.len()
            invariant_except_break
                t@ == text@,
                n@ == needle@,
                i + n.len() <= t.len(),
                j <= n.len(),
                forall|m: int| 0 <= m < j ==> t@[i + m] == n@[m],
            ensures
                j <= n.len(),
                forall|m: int| 0 <= m < j ==> t@[i + m] == n@[m],
                j < n.len() ==> t@[i + j] != n@[j as int],
            decreases n.len() - j,
        {
            if t[i + j] != n[j] {
                break;
            }
            j = j + 1;
        }
        if j == n.len() {
            assert(text@.subrange(i as int, i + needle@.len()) =~= needle@);
            return true;
        }
        assert(text@.subrange(i as int, i + needle@.len())[j as int] != needle@[j as int]);
        i = i + 1;
    }
    false
}

/// The entry is by the selected member, or no member is selected.
pub fn member_matches(entry: &TeamWorklog, account_id: &str) -> (r: bool)
    ensures
        r == (account_id@.len() == 0 || entry.worklog.author@ == account_id@),
{
    account_id.is_empty() || str_equal(entry.worklog.author.as_str(), account_id)
}

/// The value is the selected one, or nothing is selected.
pub fn optional_value_matches(value: Option<&str>, selected: &str) -> (r: bool)
    ensures
        r == (selected@.len() == 0 || (value matches Some(v) && v@ == selected@)),
{
    if selected.is_empty() {
        return true;
    }
    match value {
        Some(v) => str_equal(v, selected),
        None => false,
    }
}

/// The entry has a comment that is not blank.
pub open spec fn has_comment(entry: TeamWorklog) -> bool {
    !is_blank(entry.worklog.comment@)
}

/// The entry passes the comment filter.
pub fn comment_matches(entry: &TeamWorklog, filter: CommentFilter) -> (r: bool)
    ensures
        r == (match filter {
            CommentFilter::All => true,
            CommentFilter::WithComment => has_comment(*entry),
            CommentFilter::WithoutComment => !has_comment(*entry),
        }),
{
    let commented = !str_is_blank(entry.worklog.comment.as_str());
    match filter {
        CommentFilter::All => true,
        CommentFilter::WithComment => commented,
        CommentFilter::WithoutComment => !commented,
    }
}

/// The search text, trimmed and in lower case, is empty or found in the
/// entry's issue key, issue summary or comment (each in lower case).
pub open spec fn spec_query_matches(entry: TeamWorklog, query: Seq<char>) -> bool {
    let needle = lowercase(trim(query));
    needle.len() == 0 || text_contains(lowercase(entry.worklog.issue_key@), needle) || text_contains(
        lowercase(entry.worklog.issue_summary@),
        needle,
    ) || text_contains(lowercase(entry.worklog.comment@), needle)
}

/// Decides `spec_query_matches`.
pub fn query_matches(entry: &TeamWorklog, query: &str) -> (r: bool)
    ensures
        r == spec_query_matches(*entry, query@),
{
    let needle = str_to_lowercase(str_trim(query));
    if needle.as_str().is_empty() {
        return true;
    }
    str_contains(str_to_lowercase(entry.worklog.issue_key.as_str()).as_str(), needle.as_str())
        || str_contains(
        str_to_lowercase(entry.worklog.issue_summary.as_str()).as_str(),
        needle.as_str(),
    ) || str_contains(str_to_lowercase(entry.worklog.comment.as_str()).as_str(), needle.as_str())
}

/// The text of an optional value.
pub open spec fn optional_text(value: Option<String>) -> Option<Seq<char>> {
    match value {
        Some(text) => Some(text@),
        None => None,
    }
}

/// The value is the selected one, or nothing is selected.
pub open spec fn value_selected(value: Option<String>, selected: Seq<char>) -> bool {
    selected.len() == 0 || optional_text(value) == Some(selected)
}

/// The entry passes every filter.
pub open spec fn spec_entry_matches(entry: TeamWorklog, filters: TeamFilters) -> bool {
    &&& (filters.member_account_id@.len() == 0 || entry.worklog.author@ == filters.member_account_id@)
    &&& value_selected(entry.issue_type, filters.issue_type@)
    &&& value_selected(entry.issue_status, filters.issue_status@)
    &&& spec_query_matches(entry, filters.query@)
    &&& match filters.comments {
        CommentFilter::All => true,
        CommentFilter::WithComment => has_comment(entry),
        CommentFilter::WithoutComment => !has_comment(entry),
    }
}

fn option_str(value: &Option<String>) -> (r: Option<&str>)
    ensures
        match *value {
            Some(text) => r matches Some(s) && s@ == text@,
            None => r is None,
        },
{
    match value {
        Some(text) => Some(text.as_str()),
        None => None,
    }
}

/// Decides `spec_entry_matches`.
pub fn team_entry_matches(entry: &TeamWorklog, filters: &TeamFilters) -> (r: bool)
    ensures
        r == spec_entry_matches(*entry, *filters),
{
    member_matches(entry, filters.member_account_id.as_str()) && optional_value_matches(
        option_str(&entry.issue_type),
        filters.issue_type.as_str(),
    ) && optional_value_matches(option_str(&entry.issue_status), filters.issue_status.as_str())
        && query_matches(entry, filters.query.as_str()) && comment_matches(entry, filters.comments)
}

/// Some filter narrows the report.
pub fn team_filters_active(filters: &TeamFilters) -> (r: bool)
    ensures
        r == (filters.member_account_id@.len() > 0 || filters.issue_type@.len() > 0
            || filters.issue_status@.len() > 0 || !is_blank(filters.query@) || filters.comments
            != CommentFilter::All),
{
    !filters.member_account_id.as_str().is_empty() || !filters.issue_type.as_str().is_empty()
        || !filters.issue_status.as_str().is_empty() || !str_is_blank(filters.query.as_str()) || match filters.comments {
        CommentFilter::All => false,
        _ => true,
    }
}

/// The comment filter of a form value: `with`, `without`, or all.
pub fn parse_comment_filter(value: &str) -> (r: CommentFilter)
    ensures
        r == (if value@ == "with"@ {
            CommentFilter::WithComment
        } else if value@ == "without"@ {
            CommentFilter::WithoutComment
        } else {
            CommentFilter::All
        }),
{
    if str_equal(value, "with") {
        CommentFilter::WithComment
    } else if str_equal(value, "without") {
        CommentFilter::WithoutComment
    } else {
        CommentFilter::All
    }
}

/// The form value of a comment filter.
pub fn active_comment_filter_value(filter: CommentFilter) -> (r: &'static str)
    ensures
        r@ == (match filter {
            CommentFilter::All => ""@,
            CommentFilter::WithComment => "with"@,
            CommentFilter::WithoutComment => "without"@,
        }),
{
    match filter {
        CommentFilter::All => "",
        CommentFilter::WithComment => "with",
        CommentFilter::WithoutComment => "without",
    }
}


/// A team report: the period (Julian days), the team, its worklogs and the
/// warnings raised while loading them.
#[derive(Clone, Debug, PartialEq, Eq)]
pub struct TeamReport {
    pub period_start: i32,
    pub period_end: i32,
    pub members: Vec<TeamMember>,
    pub worklogs: Vec<TeamWorklog>,
    pub warnings: Vec<String>,
}

/// The member passes the member filter.
pub open spec fn member_selected(member: TeamMember, filters: TeamFilters) -> bool {
    filters.member_account_id@.len() == 0 || member.account_id@ == filters.member_account_id@
}

/// The worklogs that pass every filter, in their order.
pub fn filtered_team_worklogs(worklogs: Vec<TeamWorklog>, filters: &TeamFilters) -> (kept: Vec<
    TeamWorklog,
>)
    ensures
        kept@ == worklogs@.filter(|entry: TeamWorklog| spec_entry_matches(entry, *filters)),
{
    let ghost orig = worklogs@;
    let ghost pred = |entry: TeamWorklog| spec_entry_matches(entry, *filters);
    let mut rest = worklogs;
    let mut kept: Vec<TeamWorklog> = Vec::new();
    let ghost mut done: int = 0;
    proof {
        reveal(Seq::filter);
        assert(orig.take(0) =~= Seq::<TeamWorklog>::empty());
    }
    while rest.len() > 0
        invariant
            0 <= done <= orig.len(),
            rest@ == orig.skip(done),
            kept@ == orig.take(done).filter(pred),
            pred == (|entry: TeamWorklog| spec_entry_matches(entry, *filters)),
        decreases rest.len(),
    {
        let entry = rest.remove(0);
        proof {
            reveal(Seq::filter);
            assert(entry == orig[done]);
            assert(orig.take(done + 1).drop_last() =~= orig.take(done));
            assert(orig.take(done + 1).last() == entry);
            assert(rest@ =~= orig.skip(done + 1));
        }
        if team_entry_matches(&entry, filters) {
            kept.push(entry);
        }
        proof {
            done = done + 1;
        }
    }
    proof {
        assert(orig.take(done) =~= orig);
    }
    kept
}

/// The members that pass the member filter, in their order.
pub fn filtered_team_members(members: Vec<TeamMember>, filters: &TeamFilters) -> (kept: Vec<TeamMember>)
    ensures
        kept@ == members@.filter(|member: TeamMember| member_selected(member, *filters)),
{
    let ghost orig = members@;
    let ghost pred = |member: TeamMember| member_selected(member, *filters);
    let mut rest = members;
    let mut kept: Vec<TeamMember> = Vec::new();
    let ghost mut done: int = 0;
    proof {
        reveal(Seq::filter);
        assert(orig.take(0) =~= Seq::<TeamMember>::empty());
    }
    while rest.len() > 0
        invariant
            0 <= done <= orig.len(),
            rest@ == orig.skip(done),
            kept@ == orig.take(done).filter(pred),
            pred == (|member: TeamMember| member_selected(member, *filters)),
        decreases rest.len(),
    {
        let member = rest.remove(0);
        proof {
            reveal(Seq::filter);
            assert(member == orig[done]);
            assert(orig.take(done + 1).drop_last() =~= orig.take(done));
            assert(orig.take(done + 1).last() == member);
            assert(rest@ =~= orig.skip(done + 1));
        }
        if filters.member_account_id.as_str().is_empty() || str_equal(
            member.account_id.as_str(),
            filters.member_account_id.as_str(),
        ) {
            kept.push(member);
        }
        proof {
            done = done + 1;
        }
    }
    proof {
        assert(orig.take(done) =~= orig);
    }
    kept
}

/// The report narrowed by the filters: the same period and warnings, the
/// selected members and the worklogs that pass every filter.
pub fn filtered_team_report(report: TeamReport, filters: &TeamFilters) -> (r: TeamReport)
    ensures
        r.period_start == report.period_start,
        r.period_end == report.period_end,
        r.warnings == report.warnings,
        r.members@ == report.members@.filter(|member: TeamMember| member_selected(member, *filters)),
        r.worklogs@ == report.worklogs@.filter(
            |entry: TeamWorklog| spec_entry_matches(entry, *filters),
        ),
{
    let TeamReport { period_start, period_end, members, worklogs, warnings } = report;
    TeamReport {
        period_start,
        period_end,
        members: filtered_team_members(members, filters),
        worklogs: filtered_team_worklogs(worklogs, filters),
        warnings,
    }
}

} // verus!

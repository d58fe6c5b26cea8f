//! What the team report's filter controls offer and the line that sums up
//! the active filters.

use vstd::prelude::*;

use crate::team::{CommentFilter, TeamFilters, TeamMember, TeamWorklog};
use crate::text::{
    is_blank, lemma_seq_less_total, lemma_seq_less_transitive,
    seq_less, str_equal, str_is_blank, str_less, str_trim, trim,
};

verus! {

/// A field of a worklog's issue that the report can be filtered by.
#[derive(Clone, Copy, Debug, PartialEq, Eq, Structural)]
pub enum FilterField {
    IssueType,
    IssueStatus,
}

/// The entry's value of the field.
pub open spec fn field_value(entry: TeamWorklog, field: FilterField) -> Option<String> {
    match field {
        FilterField::IssueType => entry.issue_type,
        FilterField::IssueStatus => entry.issue_status,
    }
}

/// The value that the entry offers as a filter option: its value of the
/// field, unless that is missing or blank.
pub open spec fn offered_value(entry: TeamWorklog, field: FilterField) -> Option<Seq<char>> {
    match field_value(entry, field) {
        Some(value) => if is_blank(value@) {
            None
        } else {
            Some(value@)
        },
        None => None,
    }
}

/// The texts are in strictly increasing order.
pub open spec fn strictly_sorted(values: Seq<String>) -> bool {
    forall|i: int, j: int| 0 <= i < j < values.len() ==> seq_less(#[trigger] values[i]@, #[trigger] values[j]@)
}

/// Every value is offered by one of the first `n` entries.
pub open spec fn all_offered(values: Seq<String>, worklogs: Seq<TeamWorklog>, field: FilterField, n: int) -> bool {
    forall|i: int|
        0 <= i < values.len() ==> exists|j: int|
            0 <= j < n && #[trigger] offered_value(worklogs[j], field) == Some(#[trigger] values[i]@)
}

/// Every value offered by the first `n` entries is among the values.
pub open spec fn all_listed(values: Seq<String>, worklogs: Seq<TeamWorklog>, field: FilterField, n: int) -> bool {
    forall|j: int|
        0 <= j < n && #[trigger] offered_value(worklogs[j], field) is Some ==> exists|i: int|
            0 <= i < values.len() && Some(#[trigger] values[i]@) == offered_value(worklogs[j], field)
}

fn optional_field<'a>(entry: &'a TeamWorklog, field: FilterField) -> (r: &'a Option<String>)
    ensures
        *r == field_value(*entry, field),
{
    match field {
        FilterField::IssueType => &entry.issue_type,
        FilterField::IssueStatus => &entry.issue_status,
    }
}

/// Adds `value` to strictly sorted values, unless it is there already.
fn insert_sorted(values: &mut Vec<String>, value: &String)
    requires
        strictly_sorted(old(values)@),
    ensures
        strictly_sorted(final(values)@),
        grown_by(old(values)@, final(values)@, value@),
{
    let mut position: usize = 0;
    while position < values.len() && str_less(values[position].as_str(), value.as_str())
        invariant
            position <= values.len(),
            forall|q: int| 0 <= q < position ==> seq_less((#[trigger] values@[q])@, value@),
        decreases values.len() - position,
    {
        position = position + 1;
    }
    if position < values.len() && str_equal(values[position].as_str(), value.as_str()) {
        assert(values@[position as int]@ == value@);
        return;
    }
    let ghost before = values@;
    proof {
        assert forall|q: int| position <= q < before.len() implies seq_less(value@, (#[trigger] before[q])@) by {
            lemma_seq_less_total(before[position as int]@, value@);
            if q > position {
                lemma_seq_less_transitive(value@, before[position as int]@, before[q]@);
            }
        }
    }
    values.insert(position, value.clone());
    proof {
        let after = values@;
        assert(after =~= before.insert(position as int, after[position as int]));
        assert forall|i: int, j: int| 0 <= i < j < after.len() implies seq_less(
            #[trigger] after[i]@,
            #[trigger] after[j]@,
        ) by {
            if j < position {
                assert(after[i] == before[i] && after[j] == before[j]);
            } else if j == position {
                assert(after[i] == before[i]);
            } else if i == position {
                assert(after[j] == before[j - 1]);
            } else if i < position {
                assert(after[i] == before[i] && after[j] == before[j - 1]);
                lemma_seq_less_transitive(before[i]@, value@, before[j - 1]@);
            } else {
                assert(after[i] == before[i - 1] && after[j] == before[j - 1]);
            }
        }
        assert forall|i: int| 0 <= i < after.len() implies (#[trigger] after[i])@ == value@ || exists|k: int|
            0 <= k < before.len() && (#[trigger] before[k])@ == after[i]@ by {
            if i < position {
                assert(before[i] == after[i]);
            } else if i > position {
                assert(before[i - 1] == after[i]);
            }
        }
        assert forall|k: int| 0 <= k < before.len() implies exists|i: int|
            0 <= i < after.len() && (#[trigger] after[i])@ == (#[trigger] before[k])@ by {
            if k < position {
                assert(after[k] == before[k]);
            } else {
                assert(after[k + 1] == before[k]);
            }
        }
        assert(after[position as int]@ == value@);
    }
}

/// The values after an insertion are the values before and the inserted one.
pub open spec fn grown_by(before: Seq<String>, after: Seq<String>, value: Seq<char>) -> bool {
    &&& forall|i: int|
        0 <= i < after.len() ==> (#[trigger] after[i])@ == value || exists|k: int|
            0 <= k < before.len() && (#[trigger] before[k])@ == after[i]@
    &&& forall|k: int|
        0 <= k < before.len() ==> exists|i: int| 0 <= i < after.len() && (#[trigger] after[i])@ == (#[trigger] before[k])@
    &&& exists|i: int| 0 <= i < after.len() && (#[trigger] after[i])@ == value
}

proof fn lemma_offered_skip(values: Seq<String>, worklogs: Seq<TeamWorklog>, field: FilterField, k: int)
    requires
        0 <= k < worklogs.len(),
        all_offered(values, worklogs, field, k),
        all_listed(values, worklogs, field, k),
        offered_value(worklogs[k], field) is None,
    ensures
        all_offered(values, worklogs, field, k + 1),
        all_listed(values, worklogs, field, k + 1),
{
    assert forall|i: int| 0 <= i < values.len() implies exists|j: int|
        0 <= j < k + 1 && #[trigger] offered_value(worklogs[j], field) == Some(#[trigger] values[i]@) by {
        let j = choose|j: int| 0 <= j < k && #[trigger] offered_value(worklogs[j], field) == Some(values[i]@);
        assert(0 <= j < k + 1);
    }
}

proof fn lemma_offered_add(
    before: Seq<String>,
    after: Seq<String>,
    worklogs: Seq<TeamWorklog>,
    field: FilterField,
    k: int,
)
    requires
        0 <= k < worklogs.len(),
        all_offered(before, worklogs, field, k),
        offered_value(worklogs[k], field) matches Some(value) && grown_by(before, after, value),
    ensures
        all_offered(after, worklogs, field, k + 1),
{
    let value = offered_value(worklogs[k], field)->0;
    assert forall|i: int| 0 <= i < after.len() implies exists|j: int|
        0 <= j < k + 1 && #[trigger] offered_value(worklogs[j], field) == Some(#[trigger] after[i]@) by {
        if after[i]@ != value {
            let q = choose|q: int| 0 <= q < before.len() && (#[trigger] before[q])@ == after[i]@;
            let j = choose|j: int| 0 <= j < k && #[trigger] offered_value(worklogs[j], field) == Some(before[q]@);
            assert(0 <= j < k + 1);
        } else {
            assert(offered_value(worklogs[k], field) == Some(after[i]@));
        }
    }
}

proof fn lemma_listed_add(
    before: Seq<String>,
    after: Seq<String>,
    worklogs: Seq<TeamWorklog>,
    field: FilterField,
    k: int,
)
    requires
        0 <= k < worklogs.len(),
        all_listed(before, worklogs, field, k),
        offered_value(worklogs[k], field) matches Some(value) && grown_by(before, after, value),
    ensures
        all_listed(after, worklogs, field, k + 1),
{
    let value = offered_value(worklogs[k], field)->0;
    assert forall|j: int| 0 <= j < k + 1 && #[trigger] offered_value(worklogs[j], field) is Some implies exists|i: int|
        0 <= i < after.len() && Some(#[trigger] after[i]@) == offered_value(worklogs[j], field) by {
        if j < k {
            let q = choose|q: int| 0 <= q < before.len() && Some(#[trigger] before[q]@) == offered_value(worklogs[j], field);
            let i = choose|i: int| 0 <= i < after.len() && (#[trigger] after[i])@ == before[q]@;
            assert(Some(after[i]@) == offered_value(worklogs[j], field));
        } else {
            let i = choose|i: int| 0 <= i < after.len() && (#[trigger] after[i])@ == value;
            assert(Some(after[i]@) == offered_value(worklogs[j], field));
        }
    }
}

/// The options of a filter: the distinct values of the field that are not
/// blank, in increasing order.
pub fn team_filter_options(worklogs: &Vec<TeamWorklog>, field: FilterField) -> (options: Vec<String>)
    ensures
        strictly_sorted(options@),
        all_offered(options@, worklogs@, field, worklogs@.len() as int),
        all_listed(options@, worklogs@, field, worklogs@.len() as int),
{
    let mut options: Vec<String> = Vec::new();
    let mut k: usize = 0;
    while k < worklogs.len()
        invariant
            k <= worklogs.len(),
            strictly_sorted(options@),
            all_offered(options@, worklogs@, field, k as int),
            all_listed(options@, worklogs@, field, k as int),
        decreases worklogs.len() - k,
    {
        let entry = &worklogs[k];
        let ghost before = options@;
        let mut added = false;
        match optional_field(entry, field) {
            Some(value) => {
                if !str_is_blank(value.as_str()) {
                    insert_sorted(&mut options, value);
                    added = true;
                    proof {
                        assert(offered_value(worklogs@[k as int], field) == Some(value@));
                        assert(grown_by(before, options@, value@));
                    }
                }
            },
            None => {},
        }
        proof {
            if added {
                lemma_offered_add(before, options@, worklogs@, field, k as int);
                lemma_listed_add(before, options@, worklogs@, field, k as int);
            } else {
                lemma_offered_skip(options@, worklogs@, field, k as int);
            }
        }
        k = k + 1;
    }
    options
}

/// Each option's form value and its label: the value itself.
pub fn filter_option_pairs(values: Vec<String>) -> (pairs: Vec<(String, String)>)
    ensures
        pairs@.len() == values@.len(),
        forall|i: int|
            0 <= i < values@.len() ==> (#[trigger] pairs@[i]).0@ == values@[i]@ && pairs@[i].1@
                == values@[i]@,
{
    let mut pairs: Vec<(String, String)> = Vec::new();
    let mut i: usize = 0;
    while i < values.len()
        invariant
            i <= values.len(),
            pairs@.len() == i,
            forall|q: int|
                0 <= q < i ==> (#[trigger] pairs@[q]).0@ == values@[q]@ && pairs@[q].1@ == values@[q]@,
        decreases values.len() - i,
    {
        let value = values[i].clone();
        pairs.push((value.clone(), value));
        i = i + 1;
    }
    pairs
}

/// The member filter's options: each member's account and name.
pub fn team_filter_members(members: &Vec<TeamMember>) -> (pairs: Vec<(String, String)>)
    ensures
        pairs@.len() == members@.len(),
        forall|i: int|
            0 <= i < members@.len() ==> (#[trigger] pairs@[i]).0@ == members@[i].account_id@
                && pairs@[i].1@ == members@[i].display_name@,
{
    let mut pairs: Vec<(String, String)> = Vec::new();
    let mut i: usize = 0;
    while i < members.len()
        invariant
            i <= members.len(),
            pairs@.len() == i,
            forall|q: int|
                0 <= q < i ==> (#[trigger] pairs@[q]).0@ == members@[q].account_id@ && pairs@[q].1@
                    == members@[q].display_name@,
        decreases members.len() - i,
    {
        pairs.push((members[i].account_id.clone(), members[i].display_name.clone()));
        i = i + 1;
    }
    pairs
}

/// The copy key of a comment filter's label.
pub open spec fn spec_comment_filter_key(filter: CommentFilter) -> Seq<char> {
    match filter {
        CommentFilter::WithComment => "reports.commentsWith"@,
        CommentFilter::WithoutComment => "reports.commentsWithout"@,
        CommentFilter::All => "reports.commentsFilterDefault"@,
    }
}

/// Names the copy key of a comment filter's label.
pub fn comment_filter_key(filter: CommentFilter) -> (key: &'static str)
    ensures
        key@ == spec_comment_filter_key(filter),
{
    match filter {
        CommentFilter::WithComment => "reports.commentsWith",
        CommentFilter::WithoutComment => "reports.commentsWithout",
        CommentFilter::All => "reports.commentsFilterDefault",
    }
}

/// The comment filter's options: the form value and the copy key of each label.
pub fn comment_filter_options() -> (options: Vec<(&'static str, &'static str)>)
    ensures
        options@.len() == 2,
        options@[0].0@ == "with"@ && options@[0].1@ == "reports.commentsWith"@,
        options@[1].0@ == "without"@ && options@[1].1@ == "reports.commentsWithout"@,
{
    let mut options: Vec<(&'static str, &'static str)> = Vec::new();
    options.push(("with", "reports.commentsWith"));
    options.push(("without", "reports.commentsWithout"));
    options
}

/// The name of the first member with the account, if any.
pub open spec fn member_name_of(members: Seq<TeamMember>, account_id: Seq<char>) -> Option<Seq<char>>
    decreases members.len(),
{
    if members.len() == 0 {
        None
    } else if members[0].account_id@ == account_id {
        Some(members[0].display_name@)
    } else {
        member_name_of(members.skip(1), account_id)
    }
}

/// Finds the name of the selected member.
pub fn selected_member_name(members: &Vec<TeamMember>, account_id: &str) -> (name: Option<String>)
    ensures
        match member_name_of(members@, account_id@) {
            Some(n) => name matches Some(found) && found@ == n,
            None => name is None,
        },
{
    let mut i: usize = 0;
    assert(members@.skip(0) =~= members@);
    while i < members.len()
        invariant
            i <= members.len(),
            member_name_of(members@, account_id@) == member_name_of(members@.skip(i as int), account_id@),
        decreases members.len() - i,
    {
        if str_equal(members[i].account_id.as_str(), account_id) {
            return Some(members[i].display_name.clone());
        }
        assert(members@.skip(i as int).skip(1) =~= members@.skip(i + 1));
        i = i + 1;
    }
    None
}

/// The words of the filter summary, in the interface language.
#[derive(Clone, Debug, PartialEq, Eq)]
pub struct FilterSummaryWords {
    pub member: String,
    pub issue_type: String,
    pub issue_status: String,
    pub search: String,
    pub comments_with: String,
    pub comments_without: String,
    pub none: String,
}

/// A label and its value, as `label: value`.
pub open spec fn labelled(label: Seq<char>, value: Seq<char>) -> Seq<char> {
    label + seq![':', ' '] + value
}

/// The parts of the filter summary: the member, the issue type and status,
/// the search text and the comment filter, each when it narrows the report.
pub open spec fn summary_parts(members: Seq<TeamMember>, filters: TeamFilters, words: FilterSummaryWords) -> Seq<Seq<char>> {
    let member = match member_name_of(members, filters.member_account_id@) {
        Some(name) => seq![labelled(words.member@, name)],
        None => Seq::empty(),
    };
    let issue_type = if filters.issue_type@.len() > 0 {
        seq![labelled(words.issue_type@, filters.issue_type@)]
    } else {
        Seq::empty()
    };
    let issue_status = if filters.issue_status@.len() > 0 {
        seq![labelled(words.issue_status@, filters.issue_status@)]
    } else {
        Seq::empty()
    };
    let search = if trim(filters.query@).len() > 0 {
        seq![labelled(words.search@, trim(filters.query@))]
    } else {
        Seq::empty()
    };
    let comments = match filters.comments {
        CommentFilter::All => Seq::empty(),
        CommentFilter::WithComment => seq![words.comments_with@],
        CommentFilter::WithoutComment => seq![words.comments_without@],
    };
    member + issue_type + issue_status + search + comments
}

/// The parts joined by `separator`.
pub open spec fn joined(parts: Seq<Seq<char>>, separator: Seq<char>) -> Seq<char>
    decreases parts.len(),
{
    if parts.len() == 0 {
        Seq::empty()
    } else if parts.len() == 1 {
        parts[0]
    } else {
        joined(parts.drop_last(), separator) + separator + parts.last()
    }
}

/// The summary of the active filters, or the words for none.
pub open spec fn spec_team_filter_summary(members: Seq<TeamMember>, filters: TeamFilters, words: FilterSummaryWords) -> Seq<char> {
    let parts = summary_parts(members, filters, words);
    if parts.len() == 0 {
        words.none@
    } else {
        joined(parts, seq![' ', '·', ' '])
    }
}

/// The texts of the strings.
pub open spec fn texts(values: Seq<String>) -> Seq<Seq<char>> {
    values.map_values(|value: String| value@)
}

fn labelled_text(label: &str, value: &str) -> (r: String)
    ensures
        r@ == labelled(label@, value@),
{
    proof {
        reveal_strlit(": ");
    }
    let mut text = label.to_owned();
    text.append(": ");
    text.append(value);
    text
}

fn push_part(parts: &mut Vec<String>, part: String)
    ensures
        texts(final(parts)@) == texts(old(parts)@) + seq![part@],
{
    parts.push(part);
    proof {
        assert(texts(final(parts)@) =~= texts(old(parts)@) + seq![part@]);
    }
}

fn join_parts(parts: &Vec<String>) -> (r: String)
    requires
        parts@.len() > 0,
    ensures
        r@ == joined(texts(parts@), seq![' ', '·', ' ']),
{
    proof {
        reveal_strlit(" · ");
    }
    let mut text = parts[0].clone();
    let mut i: usize = 1;
    assert(texts(parts@).take(1) =~= seq![parts@[0]@]);
    while i < parts.len()
        invariant
            1 <= i <= parts.len(),
            text@ == joined(texts(parts@).take(i as int), seq![' ', '·', ' ']),
        decreases parts.len() - i,
    {
        text.append(" · ");
        text.append(parts[i].as_str());
        proof {
            reveal_strlit(" · ");
            let next = texts(parts@).take(i + 1);
            assert(next.len() >= 2);
            assert(next.drop_last() =~= texts(parts@).take(i as int));
            assert(next.last() == parts@[i as int]@);
        }
        i = i + 1;
    }
    assert(texts(parts@).take(parts@.len() as int) =~= texts(parts@));
    text
}

/// Sums up the active filters of a team report.
pub fn team_filter_summary(members: &Vec<TeamMember>, filters: &TeamFilters, words: &FilterSummaryWords) -> (r:
    String)
    ensures
        r@ == spec_team_filter_summary(members@, *filters, *words),
{
    let mut parts: Vec<String> = Vec::new();
    assert(texts(parts@) =~= Seq::<Seq<char>>::empty());
    match selected_member_name(members, filters.member_account_id.as_str()) {
        Some(name) => push_part(&mut parts, labelled_text(words.member.as_str(), name.as_str())),
        None => {},
    }
    if !filters.issue_type.as_str().is_empty() {
        push_part(&mut parts, labelled_text(words.issue_type.as_str(), filters.issue_type.as_str()));
    }
    if !filters.issue_status.as_str().is_empty() {
        push_part(&mut parts, labelled_text(words.issue_status.as_str(), filters.issue_status.as_str()));
    }
    let query = str_trim(filters.query.as_str());
    if !query.is_empty() {
        push_part(&mut parts, labelled_text(words.search.as_str(), query));
    }
    match filters.comments {
        CommentFilter::All => {},
        CommentFilter::WithComment => push_part(&mut parts, words.comments_with.clone()),
        CommentFilter::WithoutComment => push_part(&mut parts, words.comments_without.clone()),
    }
    assert(texts(parts@) =~= summary_parts(members@, *filters, *words));
    if parts.len() == 0 {
        return words.none.clone();
    }
    join_parts(&parts)
}

} // verus!

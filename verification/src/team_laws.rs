//! What the team report's text filter keeps, stated over where the search text occurs.

use vstd::prelude::*;

use crate::team::{
    lowercase, spec_entry_matches, spec_query_matches, CommentFilter, TeamFilters, TeamWorklog,
};
use crate::text::trim;

verus! {

/// The search text as the filter compares it: trimmed and in lower case.
pub open spec fn search_needle(query: Seq<char>) -> Seq<char> {
    lowercase(trim(query))
}

/// `needle` occurs in `text` starting at position `at`.
pub open spec fn occurs_at(text: Seq<char>, needle: Seq<char>, at: int) -> bool {
    0 <= at && at + needle.len() <= text.len() && text.subrange(at, at + needle.len()) == needle
}

/// An entry whose lower-cased comment, issue key or issue summary holds the
/// trimmed, lower-cased search text passes the text filter.
pub proof fn lemma_search_text_found_in_entry_is_kept(entry: TeamWorklog, query: Seq<char>, at: int)
    requires
        occurs_at(lowercase(entry.worklog.comment@), search_needle(query), at)
            || occurs_at(lowercase(entry.worklog.issue_key@), search_needle(query), at)
            || occurs_at(lowercase(entry.worklog.issue_summary@), search_needle(query), at),
    ensures
        spec_query_matches(entry, query),
{
    let needle = search_needle(query);
    let comment = lowercase(entry.worklog.comment@);
    let key = lowercase(entry.worklog.issue_key@);
    let summary = lowercase(entry.worklog.issue_summary@);
    if occurs_at(comment, needle, at) {
        assert(comment.subrange(at, at + needle.len()) == needle);
    } else if occurs_at(key, needle, at) {
        assert(key.subrange(at, at + needle.len()) == needle);
    } else {
        assert(summary.subrange(at, at + needle.len()) == needle);
    }
}

/// A non-empty search text that occurs in none of the entry's lower-cased comment,
/// issue key and issue summary drops the entry.
pub proof fn lemma_search_text_found_nowhere_drops_entry(entry: TeamWorklog, query: Seq<char>)
    requires
        search_needle(query).len() > 0,
        forall|at: int| !occurs_at(lowercase(entry.worklog.comment@), search_needle(query), at),
        forall|at: int| !occurs_at(lowercase(entry.worklog.issue_key@), search_needle(query), at),
        forall|at: int|
            !occurs_at(lowercase(entry.worklog.issue_summary@), search_needle(query), at),
    ensures
        !spec_query_matches(entry, query),
{
    let needle = search_needle(query);
    let comment = lowercase(entry.worklog.comment@);
    let key = lowercase(entry.worklog.issue_key@);
    let summary = lowercase(entry.worklog.issue_summary@);
    assert forall|i: int| 0 <= i <= comment.len() - needle.len() implies #[trigger] comment.subrange(
        i,
        i + needle.len(),
    ) != needle by {
        assert(!occurs_at(comment, needle, i));
    }
    assert forall|i: int| 0 <= i <= key.len() - needle.len() implies #[trigger] key.subrange(
        i,
        i + needle.len(),
    ) != needle by {
        assert(!occurs_at(key, needle, i));
    }
    assert forall|i: int| 0 <= i <= summary.len() - needle.len() implies #[trigger] summary.subrange(
        i,
        i + needle.len(),
    ) != needle by {
        assert(!occurs_at(summary, needle, i));
    }
}

/// With no member, issue type or status selected and every comment state
/// allowed, an entry whose lower-cased comment holds the trimmed, lower-cased
/// search text is kept by the team filters.
pub proof fn lemma_comment_search_keeps_entry(entry: TeamWorklog, filters: TeamFilters, at: int)
    requires
        filters.member_account_id@.len() == 0,
        filters.issue_type@.len() == 0,
        filters.issue_status@.len() == 0,
        filters.comments == CommentFilter::All,
        occurs_at(lowercase(entry.worklog.comment@), search_needle(filters.query@), at),
    ensures
        spec_entry_matches(entry, filters),
{
    lemma_search_text_found_in_entry_is_kept(entry, filters.query@, at);
}

} // verus!

//! The first connection: what the setup form must hold before Jira is
//! contacted, the request built from it, and the board picker's search.

use vstd::prelude::*;
use vstd::string::StringExecFns;

use crate::connection::ConnectionRequest;
use crate::forms::parse_unsigned_text;
use crate::forms::parse_unsigned;
use crate::messages::Message;
use crate::profile::JiraModuleProfile;
use crate::report::{decimal, decimal_text};
use crate::team::{lowercase, str_contains, str_to_lowercase, text_contains};
use crate::text::{chars_of, starts_with, str_contains_char, str_equal, str_trim, trim, trim_trailing_slashes};

verus! {

/// The setup form.
#[derive(Clone, Debug, PartialEq, Eq)]
pub struct ConnectionDraft {
    pub site: String,
    pub email: String,
    pub token: String,
    pub board_id: String,
}

/// What board discovery needs.
#[derive(Clone, Debug, PartialEq, Eq)]
pub struct BoardDiscoveryRequest {
    pub site: String,
    pub email: String,
    pub token: String,
    pub request_timeout_seconds: u64,
    pub page_size: u16,
    pub maximum_items: usize,
}

/// A board the account can see.
#[derive(Clone, Debug, PartialEq, Eq)]
pub struct AccessibleBoard {
    pub id: u64,
    pub name: String,
    pub board_type: String,
    pub project_key: Option<String>,
}

/// `str::trim_end_matches('/')`, which removes every trailing `/`.
#[verifier::external_body]
fn str_trim_end_slashes(text: &str) -> (r: &str)
    ensures
        r@ == trim_trailing_slashes(text@),
{
    text.trim_end_matches('/')
}

fn str_starts_with(text: &str, prefix: &str) -> (r: bool)
    ensures
        r == starts_with(text@, prefix@),
{
    let t = chars_of(text);
    let p = chars_of(prefix);
    if p.len() > t.len() {
        return false;
    }
    let mut i: usize = 0;
    while i < p.len()
        invariant
            i <= p.len(),
            p.len() <= t.len(),
            t@ == text@,
            p@ == prefix@,
            forall|k: int| 0 <= k < i ==> t@[k] == p@[k],
        decreases p.len() - i,
    {
        if t[i] != p[i] {
            assert(text@.take(prefix@.len() as int)[i as int] != prefix@[i as int]);
            return false;
        }
        i = i + 1;
    }
    assert(text@.take(prefix@.len() as int) =~= prefix@);
    true
}

/// The first rule the identity fields break: an HTTPS site, an e-mail with
/// an `@`, and a token that is not blank.
pub open spec fn identity_outcome(draft: ConnectionDraft) -> Result<(), Message> {
    if !starts_with(trim(draft.site@), "https://"@) {
        Err(Message::SetupSecureUrl)
    } else if !draft.email@.contains('@') {
        Err(Message::SetupEmail)
    } else if trim(draft.token@).len() == 0 {
        Err(Message::SetupToken)
    } else {
        Ok(())
    }
}

/// Checks the identity fields of the setup form.
pub fn validate_identity(draft: &ConnectionDraft) -> (r: Result<(), Message>)
    ensures
        r == identity_outcome(*draft),
{
    if !str_starts_with(str_trim(draft.site.as_str()), "https://") {
        return Err(Message::SetupSecureUrl);
    }
    if !str_contains_char(draft.email.as_str(), '@') {
        return Err(Message::SetupEmail);
    }
    if str_trim(draft.token.as_str()).is_empty() {
        return Err(Message::SetupToken);
    }
    Ok(())
}

/// Reads the board field: a number, and more than zero.
pub fn parse_board_id(value: &str) -> (r: Result<u64, Message>)
    ensures
        match parse_unsigned(value@, u64::MAX as int) {
            Some(n) => 0 <= n && if n == 0 {
                r == Err::<u64, Message>(Message::SetupBoardPositive)
            } else {
                r == Ok::<u64, Message>(n as u64)
            },
            None => r == Err::<u64, Message>(Message::SetupBoard),
        },
{
    match parse_unsigned_text(value, u64::MAX) {
        Some(n) => {
            if n == 0 {
                Err(Message::SetupBoardPositive)
            } else {
                Ok(n)
            }
        },
        None => Err(Message::SetupBoard),
    }
}

/// The site as the request holds it: trimmed, without trailing `/`.
pub open spec fn normalized_site(site: Seq<char>) -> Seq<char> {
    trim_trailing_slashes(trim(site))
}

/// Builds the first connection's request from the setup form: the form's
/// site, account, token and board, and everything else from the
/// organization's defaults; team reports start off.
pub fn build_request(draft: &ConnectionDraft, jira: &JiraModuleProfile) -> (r: Result<ConnectionRequest, Message>)
    ensures
        match identity_outcome(*draft) {
            Err(error) => r == Err::<ConnectionRequest, Message>(error),
            Ok(()) => match parse_unsigned(draft.board_id@, u64::MAX as int) {
                None => r == Err::<ConnectionRequest, Message>(Message::SetupBoard),
                Some(n) => if n == 0 {
                    r == Err::<ConnectionRequest, Message>(Message::SetupBoardPositive)
                } else {
                    r matches Ok(request) && {
                        &&& request.site@ == normalized_site(draft.site@)
                        &&& request.email@ == trim(draft.email@)
                        &&& request.token == draft.token
                        &&& request.board_id == n
                        &&& request.weekly_target_hours == jira.hours.suggested_weekly_target_hours
                        &&& request.utc_offset_minutes == jira.hours.suggested_utc_offset_minutes
                        &&& request.request_timeout_seconds == jira.request_timeout_seconds
                        &&& request.page_size == jira.page_size
                        &&& request.maximum_collection_items == jira.maximum_collection_items
                        &&& request.maximum_issue_search_results == jira.maximum_issue_search_results
                        &&& request.maximum_concurrent_worklog_requests
                            == jira.maximum_concurrent_worklog_requests
                        &&& request.maximum_daily_hours == jira.hours.maximum_daily_hours
                        &&& request.default_worklog_start_hour == jira.hours.default_worklog_start_hour
                        &&& request.default_worklog_start_minute == jira.hours.default_worklog_start_minute
                        &&& !request.enable_team_reports
                    }
                },
            },
        },
{
    validate_identity(draft)?;
    let board_id = parse_board_id(draft.board_id.as_str())?;
    Ok(
        ConnectionRequest {
            site: str_trim_end_slashes(str_trim(draft.site.as_str())).to_owned(),
            email: str_trim(draft.email.as_str()).to_owned(),
            token: draft.token.clone(),
            board_id,
            weekly_target_hours: jira.hours.suggested_weekly_target_hours,
            utc_offset_minutes: jira.hours.suggested_utc_offset_minutes,
            request_timeout_seconds: jira.request_timeout_seconds,
            page_size: jira.page_size,
            maximum_collection_items: jira.maximum_collection_items,
            maximum_issue_search_results: jira.maximum_issue_search_results,
            maximum_concurrent_worklog_requests: jira.maximum_concurrent_worklog_requests,
            maximum_daily_hours: jira.hours.maximum_daily_hours,
            default_worklog_start_hour: jira.hours.default_worklog_start_hour,
            default_worklog_start_minute: jira.hours.default_worklog_start_minute,
            enable_team_reports: false,
        },
    )
}

/// Builds the board discovery request from the setup form.
pub fn build_discovery_request(draft: &ConnectionDraft, jira: &JiraModuleProfile) -> (r: Result<
    BoardDiscoveryRequest,
    Message,
>)
    ensures
        match identity_outcome(*draft) {
            Err(error) => r == Err::<BoardDiscoveryRequest, Message>(error),
            Ok(()) => r matches Ok(request) && {
                &&& request.site@ == normalized_site(draft.site@)
                &&& request.email@ == trim(draft.email@)
                &&& request.token == draft.token
                &&& request.request_timeout_seconds == jira.request_timeout_seconds
                &&& request.page_size == jira.page_size
                &&& request.maximum_items == jira.maximum_collection_items
            },
        },
{
    validate_identity(draft)?;
    Ok(
        BoardDiscoveryRequest {
            site: str_trim_end_slashes(str_trim(draft.site.as_str())).to_owned(),
            email: str_trim(draft.email.as_str()).to_owned(),
            token: draft.token.clone(),
            request_timeout_seconds: jira.request_timeout_seconds,
            page_size: jira.page_size,
            maximum_items: jira.maximum_collection_items,
        },
    )
}

/// The board to preselect: the only one, or none when there are several.
pub fn single_board_id(boards: &Vec<AccessibleBoard>) -> (r: String)
    ensures
        r@ == (if boards.len() == 1 {
            decimal(boards@[0].id as nat)
        } else {
            Seq::<char>::empty()
        }),
{
    if boards.len() != 1 {
        return String::new();
    }
    decimal_text(boards[0].id)
}

/// The board matches the search text, which is already trimmed and in lower
/// case: by name, type, number or project key.
pub open spec fn board_matches(board: AccessibleBoard, query: Seq<char>) -> bool {
    ||| query.len() == 0
    ||| text_contains(lowercase(board.name@), query)
    ||| text_contains(lowercase(board.board_type@), query)
    ||| text_contains(decimal(board.id as nat), query)
    ||| (board.project_key matches Some(key) && text_contains(lowercase(key@), query))
}

/// Decides `board_matches`.
pub fn board_matches_query(board: &AccessibleBoard, query: &str) -> (r: bool)
    ensures
        r == board_matches(*board, query@),
{
    if query.is_empty() {
        return true;
    }
    if str_contains(str_to_lowercase(board.name.as_str()).as_str(), query) {
        return true;
    }
    if str_contains(str_to_lowercase(board.board_type.as_str()).as_str(), query) {
        return true;
    }
    if str_contains(decimal_text(board.id).as_str(), query) {
        return true;
    }
    match &board.project_key {
        Some(key) => str_contains(str_to_lowercase(key.as_str()).as_str(), query),
        None => false,
    }
}

fn copy_board(board: &AccessibleBoard) -> (r: AccessibleBoard)
    ensures
        r == *board,
{
    AccessibleBoard {
        id: board.id,
        name: board.name.clone(),
        board_type: board.board_type.clone(),
        project_key: match &board.project_key {
            Some(key) => Some(key.clone()),
            None => None,
        },
    }
}

/// The boards that match the search text (trimmed and put in lower case), in order.
pub fn filter_boards(boards: &Vec<AccessibleBoard>, query: &str) -> (r: Vec<AccessibleBoard>)
    ensures
        r@ == boards@.filter(|board: AccessibleBoard| board_matches(board, lowercase(trim(query@)))),
{
    let normalized = str_to_lowercase(str_trim(query));
    let ghost pred = |board: AccessibleBoard| board_matches(board, lowercase(trim(query@)));
    let mut r: Vec<AccessibleBoard> = Vec::new();
    let mut i: usize = 0;
    proof {
        reveal(Seq::filter);
        assert(boards@.take(0) =~= Seq::<AccessibleBoard>::empty());
    }
    while i < boards.len()
        invariant
            i <= boards.len(),
            normalized@ == lowercase(trim(query@)),
            pred == (|board: AccessibleBoard| board_matches(board, lowercase(trim(query@)))),
            r@ == boards@.take(i as int).filter(pred),
        decreases boards.len() - i,
    {
        proof {
            reveal(Seq::filter);
            assert(boards@.take(i + 1).drop_last() =~= boards@.take(i as int));
            assert(boards@.take(i + 1).last() == boards@[i as int]);
        }
        if board_matches_query(&boards[i], normalized.as_str()) {
            r.push(copy_board(&boards[i]));
        }
        i = i + 1;
    }
    assert(boards@.take(boards.len() as int) =~= boards@);
    r
}

/// The label of a board: its project key (when it has one), name and type.
pub fn board_label(board: &AccessibleBoard) -> (label: String)
    ensures
        label@ == match board.project_key {
            Some(key) => key@ + " · "@ + board.name@ + " · "@ + board.board_type@,
            None => board.name@ + " · "@ + board.board_type@,
        },
{
    let tail = board.name.clone().concat(" · ").concat(board.board_type.as_str());
    match &board.project_key {
        Some(key) => key.clone().concat(" · ").concat(tail.as_str()),
        None => tail,
    }
}

/// The selected board when the search hides it: it stays on offer.
pub fn selected_board_outside_results(
    boards: &Vec<AccessibleBoard>,
    filtered: &Vec<AccessibleBoard>,
    selected: &str,
) -> (r: Option<AccessibleBoard>)
    ensures
        (exists|k: int| 0 <= k < filtered.len() && decimal(filtered@[k].id as nat) == selected@) ==> r is None,
        !(exists|k: int| 0 <= k < filtered.len() && decimal(filtered@[k].id as nat) == selected@) ==> match r {
            Some(board) => exists|k: int|
                0 <= k < boards.len() && board == boards@[k] && decimal(boards@[k].id as nat) == selected@
                    && forall|j: int| 0 <= j < k ==> decimal(boards@[j].id as nat) != selected@,
            None => forall|k: int| 0 <= k < boards.len() ==> decimal(boards@[k].id as nat) != selected@,
        },
{
    let mut i: usize = 0;
    while i < filtered.len()
        invariant
            i <= filtered.len(),
            forall|k: int| 0 <= k < i ==> decimal(filtered@[k].id as nat) != selected@,
        decreases filtered.len() - i,
    {
        if str_equal(decimal_text(filtered[i].id).as_str(), selected) {
            return None;
        }
        i = i + 1;
    }
    let mut j: usize = 0;
    while j < boards.len()
        invariant
            j <= boards.len(),
            forall|k: int| 0 <= k < filtered.len() ==> decimal(filtered@[k].id as nat) != selected@,
            forall|k: int| 0 <= k < j ==> decimal(boards@[k].id as nat) != selected@,
        decreases boards.len() - j,
    {
        if str_equal(decimal_text(boards[j].id).as_str(), selected) {
            return Some(copy_board(&boards[j]));
        }
        j = j + 1;
    }
    None
}

/// The board picker's count, such as `Boards: 3/10`, after its `label`.
pub fn result_summary(label: &str, visible: usize, total: usize) -> (text: String)
    ensures
        text@ == label@ + ": "@ + decimal(visible as nat) + "/"@ + decimal(total as nat),
{
    String::from_str(label).concat(": ").concat(decimal_text(visible as u64).as_str()).concat("/").concat(
        decimal_text(total as u64).as_str(),
    )
}

} // verus!

//! The decisions around the local MCP server: which Jira credential it gets,
//! which capabilities a person may switch on, and when the server may start.

use vstd::prelude::*;

use crate::connection::ConnectionConfiguration;
use crate::messages::Message;
use crate::profile::{Capability, OrganizationProfile};

verus! {

/// What happens to the MCP copy of the Jira credential after a configuration change.
#[derive(Clone, Copy, Debug, PartialEq, Eq, Structural)]
pub enum JiraCredentialAction {
    Delete,
    Preserve,
    Reject,
    Transfer,
}

/// The Jira account and limits the MCP server works with.
#[derive(Clone, Debug, PartialEq, Eq)]
pub struct McpJiraConfiguration {
    pub base_url: String,
    pub email: String,
    pub board_id: u64,
    pub request_timeout_seconds: u64,
    pub page_size: u16,
    pub maximum_collection_items: usize,
    pub maximum_issue_search_results: usize,
    pub hours: Option<McpJiraHours>,
}

/// The hours the MCP server needs to read and log time.
#[derive(Clone, Copy, Debug, PartialEq, Eq, Structural)]
pub struct McpJiraHours {
    pub weekly_target_hours: u16,
    pub utc_offset_minutes: i16,
    pub maximum_concurrent_worklog_requests: usize,
}

/// The credential action: a disabled Jira module loses its credential, an
/// existing one is kept, and a missing one is copied from the desktop only when
/// the desktop account is the one the server is scoped to.
pub open spec fn spec_jira_credential_action(
    enabled: bool,
    token_exists: bool,
    coordinates_match: bool,
) -> JiraCredentialAction {
    if !enabled {
        JiraCredentialAction::Delete
    } else if token_exists {
        JiraCredentialAction::Preserve
    } else if coordinates_match {
        JiraCredentialAction::Transfer
    } else {
        JiraCredentialAction::Reject
    }
}

/// Decides what happens to the MCP Jira credential.
pub fn jira_credential_action(enabled: bool, token_exists: bool, coordinates_match: bool) -> (r:
    JiraCredentialAction)
    ensures
        r == spec_jira_credential_action(enabled, token_exists, coordinates_match),
        !enabled ==> r == JiraCredentialAction::Delete,
        r == JiraCredentialAction::Transfer ==> enabled && !token_exists && coordinates_match,
{
    if !enabled {
        return JiraCredentialAction::Delete;
    }
    if token_exists {
        return JiraCredentialAction::Preserve;
    }
    if coordinates_match {
        return JiraCredentialAction::Transfer;
    }
    JiraCredentialAction::Reject
}

/// The hours the MCP server takes from the application's configuration.
pub open spec fn spec_jira_hours_configuration(application: ConnectionConfiguration) -> McpJiraHours {
    McpJiraHours {
        weekly_target_hours: application.hours.weekly_target_hours,
        utc_offset_minutes: application.hours.utc_offset_minutes,
        maximum_concurrent_worklog_requests: application.jira.maximum_concurrent_worklog_requests,
    }
}

/// The MCP Jira configuration that mirrors the application's connection.
pub open spec fn spec_jira_configuration(application: ConnectionConfiguration) -> McpJiraConfiguration {
    McpJiraConfiguration {
        base_url: application.jira.site,
        email: application.jira.email,
        board_id: application.jira.board_id,
        request_timeout_seconds: application.jira.request_timeout_seconds,
        page_size: application.jira.page_size,
        maximum_collection_items: application.jira.maximum_collection_items,
        maximum_issue_search_results: application.jira.maximum_issue_search_results,
        hours: Some(spec_jira_hours_configuration(application)),
    }
}

/// Builds the MCP hours from the application's configuration.
pub fn jira_hours_configuration(application: &ConnectionConfiguration) -> (r: McpJiraHours)
    ensures
        r == spec_jira_hours_configuration(*application),
{
    McpJiraHours {
        weekly_target_hours: application.hours.weekly_target_hours,
        utc_offset_minutes: application.hours.utc_offset_minutes,
        maximum_concurrent_worklog_requests: application.jira.maximum_concurrent_worklog_requests,
    }
}

/// Builds the MCP Jira configuration from the application's connection.
pub fn jira_configuration(application: &ConnectionConfiguration) -> (r: McpJiraConfiguration)
    ensures
        r == spec_jira_configuration(*application),
{
    McpJiraConfiguration {
        base_url: application.jira.site.clone(),
        email: application.jira.email.clone(),
        board_id: application.jira.board_id,
        request_timeout_seconds: application.jira.request_timeout_seconds,
        page_size: application.jira.page_size,
        maximum_collection_items: application.jira.maximum_collection_items,
        maximum_issue_search_results: application.jira.maximum_issue_search_results,
        hours: Some(jira_hours_configuration(application)),
    }
}

/// The Jira configuration after a capability toggle: the current one is kept
/// (its scope is not replaced by the application's), the application's is used
/// when there is none, and turning on reading one's own hours fills in hours
/// only where they are missing.
pub open spec fn spec_mcp_jira_configuration(
    application: ConnectionConfiguration,
    capability: Capability,
    enabled: bool,
    current: Option<McpJiraConfiguration>,
) -> McpJiraConfiguration {
    let base = match current {
        Some(jira) => jira,
        None => spec_jira_configuration(application),
    };
    if enabled && capability == Capability::ReadOwnTimeEntries && base.hours is None {
        McpJiraConfiguration { hours: Some(spec_jira_hours_configuration(application)), ..base }
    } else {
        base
    }
}

/// Computes the Jira configuration after a capability toggle.
pub fn mcp_jira_configuration(
    application: &ConnectionConfiguration,
    capability: Capability,
    enabled: bool,
    current: Option<McpJiraConfiguration>,
) -> (r: McpJiraConfiguration)
    ensures
        r == spec_mcp_jira_configuration(*application, capability, enabled, current),
{
    let mut jira = match current {
        Some(jira) => jira,
        None => jira_configuration(application),
    };
    let hours_capability = match capability {
        Capability::ReadOwnTimeEntries => true,
        _ => false,
    };
    if enabled && hours_capability && jira.hours.is_none() {
        jira.hours = Some(jira_hours_configuration(application));
    }
    jira
}

/// A capability may be switched on only where the organization allows it;
/// switching one off is always possible.
pub fn check_capability_toggle(
    profile: &OrganizationProfile,
    capability: Capability,
    enabled: bool,
) -> (r: Result<(), Message>)
    ensures
        r == (if enabled && !profile.spec_allows(capability) {
            Err(Message::McpCapabilityBlocked)
        } else {
            Ok(())
        }),
{
    if enabled && !profile.allows(capability) {
        return Err(Message::McpCapabilityBlocked);
    }
    Ok(())
}

/// The server may start only with at least one tool enabled and its credentials present.
pub fn ensure_server_ready(enabled_tool_count: usize, credential_available: bool) -> (r: Result<
    (),
    Message,
>)
    ensures
        r == (if enabled_tool_count == 0 {
            Err(Message::McpNoToolsEnabled)
        } else if !credential_available {
            Err(Message::McpCredentialMissing)
        } else {
            Ok(())
        }),
{
    if enabled_tool_count == 0 {
        return Err(Message::McpNoToolsEnabled);
    }
    if !credential_available {
        return Err(Message::McpCredentialMissing);
    }
    Ok(())
}

/// The outcome of a credential action that makes no call: a rejected transfer
/// asks for a desktop credential of the server's scope.
pub fn rejected_credential_error(action: JiraCredentialAction) -> (r: Option<Message>)
    ensures
        r == (if action == JiraCredentialAction::Reject {
            Some(Message::McpScopeCredentialMissing)
        } else {
            None::<Message>
        }),
{
    match action {
        JiraCredentialAction::Reject => Some(Message::McpScopeCredentialMissing),
        _ => None,
    }
}

/// Credentials are available when a configuration exists and every enabled
/// module has its token.
pub fn credentials_available(
    configured: bool,
    jira_enabled: bool,
    jira_token_present: bool,
    bitbucket_enabled: bool,
    bitbucket_token_present: bool,
) -> (r: bool)
    ensures
        r == (configured && (!jira_enabled || jira_token_present) && (!bitbucket_enabled
            || bitbucket_token_present)),
{
    configured && (!jira_enabled || jira_token_present) && (!bitbucket_enabled
        || bitbucket_token_present)
}

} // verus!

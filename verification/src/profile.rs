//! The organization profile: which integration modules an organization offers,
//! within which scopes and limits, and which assistant capabilities it allows.

use std::collections::BTreeSet;
use vstd::prelude::*;

use crate::text::{
    seq_less, https_url_invalid, is_blank, is_hex_color, same_site, slug_invalid, utf8_len,
    byte_len, str_https_url_invalid, str_is_blank, str_is_hex_color,
    str_equal, str_same_site, str_slug_invalid,
};

verus! {

/// The schema version of the modular profile.
pub const PROFILE_SCHEMA_VERSION: u16 = 2;

/// The schema version of the earlier, flat profile that is migrated on read.
pub const LEGACY_PROFILE_SCHEMA_VERSION: u16 = 1;

/// An assistant capability, owned by exactly one integration module.
#[derive(Clone, Copy, Debug, PartialEq, Eq, Structural)]
pub enum Capability {
    ReadJiraIssues,
    EditJiraIssues,
    CommentJiraIssues,
    TransitionJiraIssues,
    ReadOwnTimeEntries,
    WriteOwnTimeEntries,
    ReadBitbucketPullRequests,
    CreateBitbucketPullRequests,
    EditBitbucketPullRequests,
    CommentBitbucketPullRequests,
    ReviewBitbucketPullRequests,
    MergeBitbucketPullRequests,
    DeclineBitbucketPullRequests,
}

/// An integration module of the organization profile.
#[derive(Clone, Copy, Debug, PartialEq, Eq, Structural)]
pub enum IntegrationModuleId {
    Jira,
    Bitbucket,
}

/// Whether a provider module is limited to listed sites or workspaces.
#[derive(Clone, Copy, Debug, PartialEq, Eq, Structural)]
pub enum ProviderScopeMode {
    Unrestricted,
    Restricted,
}

impl Capability {
    /// The module that owns the capability.
    pub open spec fn spec_module(self) -> IntegrationModuleId {
        match self {
            Capability::ReadJiraIssues | Capability::EditJiraIssues
            | Capability::CommentJiraIssues | Capability::TransitionJiraIssues
            | Capability::ReadOwnTimeEntries | Capability::WriteOwnTimeEntries => {
                IntegrationModuleId::Jira
            },
            _ => IntegrationModuleId::Bitbucket,
        }
    }

    /// The read capability that a write capability depends on, if any.
    pub open spec fn spec_required_read(self) -> Option<Capability> {
        match self {
            Capability::EditJiraIssues | Capability::CommentJiraIssues
            | Capability::TransitionJiraIssues => Some(Capability::ReadJiraIssues),
            Capability::WriteOwnTimeEntries => Some(Capability::ReadOwnTimeEntries),
            Capability::CreateBitbucketPullRequests | Capability::EditBitbucketPullRequests
            | Capability::CommentBitbucketPullRequests | Capability::ReviewBitbucketPullRequests
            | Capability::MergeBitbucketPullRequests | Capability::DeclineBitbucketPullRequests => {
                Some(Capability::ReadBitbucketPullRequests)
            },
            Capability::ReadJiraIssues | Capability::ReadOwnTimeEntries
            | Capability::ReadBitbucketPullRequests => None,
        }
    }

    /// The module that owns the capability.
    #[verifier::when_used_as_spec(spec_module)]
    pub fn module(self) -> (m: IntegrationModuleId)
        ensures
            m == self.spec_module(),
    {
        match self {
            Capability::ReadJiraIssues | Capability::EditJiraIssues
            | Capability::CommentJiraIssues | Capability::TransitionJiraIssues
            | Capability::ReadOwnTimeEntries | Capability::WriteOwnTimeEntries => {
                IntegrationModuleId::Jira
            },
            Capability::ReadBitbucketPullRequests | Capability::CreateBitbucketPullRequests
            | Capability::EditBitbucketPullRequests | Capability::CommentBitbucketPullRequests
            | Capability::ReviewBitbucketPullRequests | Capability::MergeBitbucketPullRequests
            | Capability::DeclineBitbucketPullRequests => IntegrationModuleId::Bitbucket,
        }
    }

    /// The read capability that a write capability depends on, if any.
    #[verifier::when_used_as_spec(spec_required_read)]
    pub fn required_read(self) -> (r: Option<Capability>)
        ensures
            r == self.spec_required_read(),
    {
        match self {
            Capability::EditJiraIssues | Capability::CommentJiraIssues
            | Capability::TransitionJiraIssues => Some(Capability::ReadJiraIssues),
            Capability::WriteOwnTimeEntries => Some(Capability::ReadOwnTimeEntries),
            Capability::CreateBitbucketPullRequests | Capability::EditBitbucketPullRequests
            | Capability::CommentBitbucketPullRequests | Capability::ReviewBitbucketPullRequests
            | Capability::MergeBitbucketPullRequests | Capability::DeclineBitbucketPullRequests => {
                Some(Capability::ReadBitbucketPullRequests)
            },
            Capability::ReadJiraIssues | Capability::ReadOwnTimeEntries
            | Capability::ReadBitbucketPullRequests => None,
        }
    }
}

/// The capabilities of the Jira module, in their declared order.
pub open spec fn spec_jira_capabilities() -> Seq<Capability> {
    seq![
        Capability::ReadJiraIssues,
        Capability::EditJiraIssues,
        Capability::CommentJiraIssues,
        Capability::TransitionJiraIssues,
        Capability::ReadOwnTimeEntries,
        Capability::WriteOwnTimeEntries,
    ]
}

/// The capabilities of the Bitbucket module, in their declared order.
pub open spec fn spec_bitbucket_capabilities() -> Seq<Capability> {
    seq![
        Capability::ReadBitbucketPullRequests,
        Capability::CreateBitbucketPullRequests,
        Capability::EditBitbucketPullRequests,
        Capability::CommentBitbucketPullRequests,
        Capability::ReviewBitbucketPullRequests,
        Capability::MergeBitbucketPullRequests,
        Capability::DeclineBitbucketPullRequests,
    ]
}

/// Every capability of the Jira module.
pub fn jira_capabilities() -> (v: Vec<Capability>)
    ensures
        v@ == spec_jira_capabilities(),
{
    let v = vec![
        Capability::ReadJiraIssues,
        Capability::EditJiraIssues,
        Capability::CommentJiraIssues,
        Capability::TransitionJiraIssues,
        Capability::ReadOwnTimeEntries,
        Capability::WriteOwnTimeEntries,
    ];
    assert(v@ =~= spec_jira_capabilities());
    v
}

/// Every capability of the Bitbucket module.
pub fn bitbucket_capabilities() -> (v: Vec<Capability>)
    ensures
        v@ == spec_bitbucket_capabilities(),
{
    let v = vec![
        Capability::ReadBitbucketPullRequests,
        Capability::CreateBitbucketPullRequests,
        Capability::EditBitbucketPullRequests,
        Capability::CommentBitbucketPullRequests,
        Capability::ReviewBitbucketPullRequests,
        Capability::MergeBitbucketPullRequests,
        Capability::DeclineBitbucketPullRequests,
    ];
    assert(v@ =~= spec_bitbucket_capabilities());
    v
}

/// Who may open team reports.
#[derive(Clone, Copy, Debug, PartialEq, Eq, Structural)]
pub enum TeamReportAccessPolicy {
    ProjectAdmin,
    BrowseProject,
}

impl TeamReportAccessPolicy {
    /// Whether a Jira account with these project permissions may open team reports.
    pub fn allows(self, browse_projects: bool, administer_projects: bool) -> (r: bool)
        ensures
            r == match self {
                TeamReportAccessPolicy::ProjectAdmin => administer_projects,
                TeamReportAccessPolicy::BrowseProject => browse_projects,
            },
    {
        match self {
            TeamReportAccessPolicy::ProjectAdmin => administer_projects,
            TeamReportAccessPolicy::BrowseProject => browse_projects,
        }
    }
}

/// The policy that applies when a profile does not name one.
pub fn default_team_report_access_policy() -> (p: TeamReportAccessPolicy)
    ensures
        p == TeamReportAccessPolicy::ProjectAdmin,
{
    TeamReportAccessPolicy::ProjectAdmin
}

/// An organization profile.
#[derive(Clone, Debug, PartialEq)]
pub struct OrganizationProfile {
    pub schema_version: u16,
    pub branding: BrandingProfile,
    pub modules: ModuleProfiles,
}

/// The optional module sections; an absent section means the module is not offered.
#[derive(Clone, Debug, PartialEq)]
pub struct ModuleProfiles {
    pub jira: Option<JiraModuleProfile>,
    pub bitbucket: Option<BitbucketModuleProfile>,
    pub reports: Option<ReportsModuleProfile>,
}

/// The organization's name, logo and colours.
#[derive(Clone, Debug, PartialEq)]
pub struct BrandingProfile {
    pub company_name: String,
    pub logo_url: Option<String>,
    pub primary_color: String,
    pub text_color: String,
    pub muted_color: String,
    pub surface_color: String,
    pub border_color: String,
    pub chart_palette: Vec<String>,
}

/// The Jira module: its scope, request limits, capabilities and hours policy.
///
/// `mcp_capabilities` holds a set, in the capabilities' declared order.
#[derive(Clone, Debug, PartialEq)]
pub struct JiraModuleProfile {
    pub scope_mode: ProviderScopeMode,
    pub sites: Vec<JiraSiteProfile>,
    pub request_timeout_seconds: u64,
    pub page_size: u16,
    pub maximum_collection_items: usize,
    pub maximum_issue_search_results: usize,
    pub maximum_concurrent_worklog_requests: usize,
    pub maximum_allowed_request_timeout_seconds: u64,
    pub maximum_allowed_page_size: u16,
    pub maximum_allowed_collection_items: usize,
    pub maximum_allowed_issue_search_results: usize,
    pub maximum_allowed_concurrent_worklog_requests: usize,
    pub mcp_capabilities: Vec<Capability>,
    pub hours: HoursProfile,
}

/// A Jira site the organization allows, optionally limited to some boards.
#[derive(Clone, Debug, PartialEq)]
pub struct JiraSiteProfile {
    pub name: String,
    pub url: String,
    pub allowed_board_ids: Option<BTreeSet<u64>>,
}

/// The organization's policy for time tracking.
#[derive(Clone, Debug, PartialEq)]
pub struct HoursProfile {
    pub minimum_weekly_target_hours: u32,
    pub maximum_weekly_target_hours: u32,
    pub suggested_weekly_target_hours: u32,
    pub maximum_daily_hours: u8,
    pub default_worklog_start_hour: u8,
    pub default_worklog_start_minute: u8,
    pub default_duration_minutes: u32,
    pub maximum_custom_range_days: u16,
    pub suggested_utc_offset_minutes: i16,
    pub utc_offset_options: Vec<UtcOffsetOption>,
}

/// A time zone offset a person may choose, with its label.
#[derive(Clone, Debug, PartialEq)]
pub struct UtcOffsetOption {
    pub minutes: i16,
    pub label: String,
}

/// A Bitbucket workspace and the repositories allowed in it (a set).
#[derive(Clone, Debug, PartialEq, Eq)]
pub struct WorkspaceRepositories {
    pub workspace: String,
    pub repositories: Vec<String>,
}

/// The Bitbucket module: its scope, request limits and capabilities.
///
/// `workspaces` holds a map from workspace to repositories: no workspace occurs twice.
#[derive(Clone, Debug, PartialEq)]
pub struct BitbucketModuleProfile {
    pub scope_mode: ProviderScopeMode,
    pub workspaces: Option<Vec<WorkspaceRepositories>>,
    pub request_timeout_seconds: u64,
    pub page_size: u16,
    pub maximum_collection_items: usize,
    pub maximum_allowed_request_timeout_seconds: u64,
    pub maximum_allowed_page_size: u16,
    pub maximum_allowed_collection_items: usize,
    pub mcp_capabilities: Vec<Capability>,
}

/// The Reports module.
#[derive(Clone, Debug, PartialEq)]
pub struct ReportsModuleProfile {
    pub pdf_export_enabled: bool,
    pub team_report_access_policy: TeamReportAccessPolicy,
    pub maximum_task_slices: usize,
    pub maximum_trend_labels: usize,
    pub maximum_team_chart_members: usize,
    pub table_page_size: usize,
}

/// The part of a profile that failed validation.
#[derive(Clone, Copy, Debug, PartialEq, Eq, Structural)]
pub enum ProfileSection {
    Sites,
    Limits,
    Hours,
    Workspaces,
}

/// The name of a profile section, as error messages show it.
pub open spec fn section_name(value: ProfileSection) -> Seq<char> {
    match value {
        ProfileSection::Sites => "sites"@,
        ProfileSection::Limits => "limits"@,
        ProfileSection::Hours => "hours"@,
        ProfileSection::Workspaces => "workspaces"@,
    }
}

impl ProfileSection {
    /// The section's name as it appears in error messages.
    pub fn name(self) -> (r: &'static str)
        ensures
            r@ == section_name(self),
    {
        match self {
            ProfileSection::Sites => "sites",
            ProfileSection::Limits => "limits",
            ProfileSection::Hours => "hours",
            ProfileSection::Workspaces => "workspaces",
        }
    }
}

/// Why a profile cannot be applied.
#[derive(Clone, Copy, Debug, PartialEq, Eq, Structural)]
pub enum ProfileError {
    UnsupportedSchema,
    InvalidBranding,
    InvalidJira(ProfileSection),
    InvalidBitbucket(ProfileSection),
    InvalidReports,
    EmptyModules,
    CapabilityModuleMismatch { expected: IntegrationModuleId, actual: IntegrationModuleId },
    MissingRequiredCapability { capability: Capability, required: Capability },
}

} // verus!

verus! {

/// The capability sequence holds `c`.
pub open spec fn holds_capability(capabilities: Seq<Capability>, c: Capability) -> bool {
    capabilities.contains(c)
}

/// Decides whether the capability list holds `c`.
pub fn contains_capability(capabilities: &Vec<Capability>, c: Capability) -> (r: bool)
    ensures
        r == capabilities@.contains(c),
{
    let mut i: usize = 0;
    while i < capabilities.len()
        invariant
            i <= capabilities.len(),
            forall|k: int| 0 <= k < i ==> capabilities@[k] != c,
        decreases capabilities.len() - i,
    {
        if capabilities[i] == c {
            return true;
        }
        i = i + 1;
    }
    false
}

impl OrganizationProfile {
    /// The profile allows the assistant capability: its module is present and lists it.
    pub open spec fn spec_allows(&self, capability: Capability) -> bool {
        match capability.spec_module() {
            IntegrationModuleId::Jira => match self.modules.jira {
                Some(jira) => jira.mcp_capabilities@.contains(capability),
                None => false,
            },
            IntegrationModuleId::Bitbucket => match self.modules.bitbucket {
                Some(bitbucket) => bitbucket.mcp_capabilities@.contains(capability),
                None => false,
            },
        }
    }

    /// The profile allows the Jira board on the site: the Jira module is present
    /// and its scope allows the board.
    pub open spec fn spec_allows_jira_board(&self, site_url: Seq<char>, board_id: u64) -> bool {
        match self.modules.jira {
            Some(jira) => jira.spec_allows_board(site_url, board_id),
            None => false,
        }
    }

    /// The profile allows the Bitbucket repository: the Bitbucket module is
    /// present and its scope allows the repository.
    pub open spec fn spec_allows_bitbucket_repository(
        &self,
        workspace: Seq<char>,
        repository: Seq<char>,
    ) -> bool {
        match self.modules.bitbucket {
            Some(bitbucket) => bitbucket.spec_allows_repository(workspace, repository),
            None => false,
        }
    }

    /// Whether the profile allows the assistant capability.
    pub fn allows(&self, capability: Capability) -> (r: bool)
        ensures
            r == self.spec_allows(capability),
    {
        match capability.module() {
            IntegrationModuleId::Jira => match &self.modules.jira {
                Some(jira) => contains_capability(&jira.mcp_capabilities, capability),
                None => false,
            },
            IntegrationModuleId::Bitbucket => match &self.modules.bitbucket {
                Some(bitbucket) => contains_capability(&bitbucket.mcp_capabilities, capability),
                None => false,
            },
        }
    }

    /// Whether the profile allows the Jira board on the site.
    pub fn allows_jira_board(&self, site_url: &str, board_id: u64) -> (r: bool)
        ensures
            r == self.spec_allows_jira_board(site_url@, board_id),
    {
        match &self.modules.jira {
            Some(jira) => jira.allows_board(site_url, board_id),
            None => false,
        }
    }

    /// Whether the profile allows the Bitbucket repository in the workspace.
    pub fn allows_bitbucket_repository(&self, workspace: &str, repository: &str) -> (r: bool)
        requires
            self.sets_well_formed(),
        ensures
            r == self.spec_allows_bitbucket_repository(workspace@, repository@),
    {
        match &self.modules.bitbucket {
            Some(bitbucket) => bitbucket.allows_repository(workspace, repository),
            None => false,
        }
    }
}

/// The site lists the board, or lists no boards and so allows all of them.
pub open spec fn site_allows_board(site: JiraSiteProfile, board_id: u64) -> bool {
    match site.allowed_board_ids {
        Some(ids) => ids@.contains(board_id),
        None => true,
    }
}

/// `i` is the first site whose URL names the same site as `site_url`.
pub open spec fn first_matching_site(sites: Seq<JiraSiteProfile>, site_url: Seq<char>, i: int) -> bool {
    &&& 0 <= i < sites.len()
    &&& same_site(sites[i].url@, site_url)
    &&& forall|j: int| 0 <= j < i ==> !same_site(#[trigger] sites[j].url@, site_url)
}

impl JiraModuleProfile {
    /// The module's scope allows the site: it is unrestricted, or one of its sites
    /// is the same site.
    pub open spec fn spec_allows_site(&self, site_url: Seq<char>) -> bool {
        self.scope_mode == ProviderScopeMode::Unrestricted || exists|i: int|
            0 <= i < self.sites.len() && same_site(#[trigger] self.sites@[i].url@, site_url)
    }

    /// The module's scope allows the board: it is unrestricted, or the first
    /// site that is the same site allows the board.
    pub open spec fn spec_allows_board(&self, site_url: Seq<char>, board_id: u64) -> bool {
        self.scope_mode == ProviderScopeMode::Unrestricted || exists|i: int|
            #[trigger] first_matching_site(self.sites@, site_url, i) && site_allows_board(
                self.sites@[i],
                board_id,
            )
    }

    /// Whether the module's scope allows the site.
    pub fn allows_site(&self, site_url: &str) -> (r: bool)
        ensures
            r == self.spec_allows_site(site_url@),
    {
        if self.scope_mode == ProviderScopeMode::Unrestricted {
            return true;
        }
        let mut i: usize = 0;
        while i < self.sites.len()
            invariant
                i <= self.sites.len(),
                forall|k: int| 0 <= k < i ==> !same_site(#[trigger] self.sites@[k].url@, site_url@),
            decreases self.sites.len() - i,
        {
            if str_same_site(self.sites[i].url.as_str(), site_url) {
                return true;
            }
            i = i + 1;
        }
        false
    }

    /// Whether the module's scope allows the board on the site.
    pub fn allows_board(&self, site_url: &str, board_id: u64) -> (r: bool)
        ensures
            r == self.spec_allows_board(site_url@, board_id),
    {
        if self.scope_mode == ProviderScopeMode::Unrestricted {
            return true;
        }
        let mut i: usize = 0;
        while i < self.sites.len()
            invariant
                i <= self.sites.len(),
                self.scope_mode != ProviderScopeMode::Unrestricted,
                forall|k: int| 0 <= k < i ==> !same_site(#[trigger] self.sites@[k].url@, site_url@),
            decreases self.sites.len() - i,
        {
            let site = &self.sites[i];
            if str_same_site(site.url.as_str(), site_url) {
                assert(first_matching_site(self.sites@, site_url@, i as int));
                let allowed = match &site.allowed_board_ids {
                    Some(ids) => ids.contains(&board_id),
                    None => true,
                };
                proof {
                    if !allowed {
                        assert forall|j: int| #[trigger]
                            first_matching_site(self.sites@, site_url@, j) implies !site_allows_board(
                            self.sites@[j],
                            board_id,
                        ) by {
                            if j < i {
                                assert(!same_site(self.sites@[j].url@, site_url@));
                            } else if j > i {
                                assert(!same_site(self.sites@[i as int].url@, site_url@));
                            }
                        }
                    }
                }
                return allowed;
            }
            i = i + 1;
        }
        proof {
            assert forall|j: int| #[trigger]
                first_matching_site(self.sites@, site_url@, j) implies !site_allows_board(
                self.sites@[j],
                board_id,
            ) by {
                assert(!same_site(self.sites@[j].url@, site_url@));
            }
        }
        false
    }
}

impl HoursProfile {
    /// The weekly target lies within the organization's bounds.
    pub open spec fn spec_allows_weekly_target(&self, weekly_target_hours: u32) -> bool {
        self.minimum_weekly_target_hours <= weekly_target_hours
            <= self.maximum_weekly_target_hours
    }

    /// The offset is one of the organization's options.
    pub open spec fn spec_allows_utc_offset(&self, utc_offset_minutes: i16) -> bool {
        exists|i: int|
            0 <= i < self.utc_offset_options.len() && (#[trigger] self.utc_offset_options@[i]).minutes
                == utc_offset_minutes
    }

    /// Whether the weekly target lies within the organization's bounds.
    pub fn allows_weekly_target(&self, weekly_target_hours: u32) -> (r: bool)
        ensures
            r == self.spec_allows_weekly_target(weekly_target_hours),
    {
        self.minimum_weekly_target_hours <= weekly_target_hours && weekly_target_hours
            <= self.maximum_weekly_target_hours
    }

    /// Whether the offset is one of the organization's options.
    pub fn allows_utc_offset(&self, utc_offset_minutes: i16) -> (r: bool)
        ensures
            r == self.spec_allows_utc_offset(utc_offset_minutes),
    {
        let mut i: usize = 0;
        while i < self.utc_offset_options.len()
            invariant
                i <= self.utc_offset_options.len(),
                forall|k: int|
                    0 <= k < i ==> (#[trigger] self.utc_offset_options@[k]).minutes
                        != utc_offset_minutes,
            decreases self.utc_offset_options.len() - i,
        {
            if self.utc_offset_options[i].minutes == utc_offset_minutes {
                return true;
            }
            i = i + 1;
        }
        false
    }
}

/// The list of repository names holds `repository`.
pub open spec fn lists_repository(repositories: Seq<String>, repository: Seq<char>) -> bool {
    exists|i: int| 0 <= i < repositories.len() && (#[trigger] repositories[i])@ == repository
}

/// `i` is the first entry for `workspace`.
pub open spec fn first_workspace_entry(
    workspaces: Seq<WorkspaceRepositories>,
    workspace: Seq<char>,
    i: int,
) -> bool {
    &&& 0 <= i < workspaces.len()
    &&& workspaces[i].workspace@ == workspace
    &&& forall|j: int| 0 <= j < i ==> (#[trigger] workspaces[j]).workspace@ != workspace
}

impl BitbucketModuleProfile {
    /// The module's scope allows the repository: it is unrestricted, or the
    /// workspace's entry lists the repository.
    pub open spec fn spec_allows_repository(&self, workspace: Seq<char>, repository: Seq<char>) -> bool {
        ||| self.scope_mode == ProviderScopeMode::Unrestricted
        ||| match self.workspaces {
            Some(entries) => exists|i: int| #[trigger]
                first_workspace_entry(entries@, workspace, i) && lists_repository(
                    entries@[i].repositories@,
                    repository,
                ),
            None => false,
        }
    }

    /// Whether the module's scope allows the repository in the workspace.
    pub fn allows_repository(&self, workspace: &str, repository: &str) -> (r: bool)
        requires
            self.sets_well_formed(),
        ensures
            r == self.spec_allows_repository(workspace@, repository@),
    {
        if self.scope_mode == ProviderScopeMode::Unrestricted {
            return true;
        }
        let entries = match &self.workspaces {
            Some(entries) => entries,
            None => return false,
        };
        let mut i: usize = 0;
        while i < entries.len()
            invariant
                i <= entries.len(),
                self.workspaces == Some(*entries),
                self.scope_mode != ProviderScopeMode::Unrestricted,
                forall|k: int| 0 <= k < i ==> (#[trigger] entries@[k]).workspace@ != workspace@,
            decreases entries.len() - i,
        {
            if str_equal(entries[i].workspace.as_str(), workspace) {
                assert(first_workspace_entry(entries@, workspace@, i as int));
                let repositories = &entries[i].repositories;
                let mut k: usize = 0;
                while k < repositories.len()
                    invariant
                        k <= repositories.len(),
                        i < entries.len(),
                        self.workspaces == Some(*entries),
                        self.scope_mode != ProviderScopeMode::Unrestricted,
                        first_workspace_entry(entries@, workspace@, i as int),
                        repositories@ == entries@[i as int].repositories@,
                        forall|m: int| 0 <= m < k ==> (#[trigger] repositories@[m])@ != repository@,
                    decreases repositories.len() - k,
                {
                    if str_equal(repositories[k].as_str(), repository) {
                        assert(lists_repository(entries@[i as int].repositories@, repository@));
                        assert(first_workspace_entry(entries@, workspace@, i as int)
                            && lists_repository(entries@[i as int].repositories@, repository@));
                        assert(self.workspaces->0@ == entries@);
                        assert(self.spec_allows_repository(workspace@, repository@));
                        return true;
                    }
                    k = k + 1;
                }
                proof {
                    assert forall|j: int| #[trigger]
                        first_workspace_entry(entries@, workspace@, j) implies !lists_repository(
                        entries@[j].repositories@,
                        repository@,
                    ) by {
                        if j < i {
                            assert(entries@[j].workspace@ != workspace@);
                        } else if j > i {
                            assert(entries@[i as int].workspace@ != workspace@);
                        }
                    }
                }
                return false;
            }
            i = i + 1;
        }
        false
    }
}

} // verus!

verus! {

/// The limit on names, labels and URLs, in bytes.
pub const MAXIMUM_TEXT_LENGTH: usize = 200;

/// The limit on the number of Jira sites.
pub const MAXIMUM_SITES: usize = 50;

/// The number of chart colours a palette must hold at least.
pub const REQUIRED_CHART_COLORS: usize = 6;

/// The number of chart colours a palette may hold at most.
pub const MAXIMUM_PALETTE_COLORS: usize = 32;

/// The limit on the number of scoped Bitbucket workspaces.
pub const MAXIMUM_SCOPED_WORKSPACES: usize = 100;

/// The limit on the number of scoped Bitbucket repositories, over all workspaces.
pub const MAXIMUM_SCOPED_REPOSITORIES: usize = 1000;

/// The absolute limit on a request timeout.
pub const ABSOLUTE_REQUEST_TIMEOUT_SECONDS: u64 = 300;

/// The absolute limit on a page size.
pub const ABSOLUTE_PAGE_SIZE: u16 = 100;

/// The absolute limit on the items of a collection.
pub const ABSOLUTE_COLLECTION_ITEMS: usize = 250000;

/// The absolute limit on issue search results.
pub const ABSOLUTE_SEARCH_RESULTS: usize = 5000;

/// The absolute limit on concurrent requests.
pub const ABSOLUTE_CONCURRENT_REQUESTS: usize = 64;

/// The absolute limit on a custom report range.
pub const ABSOLUTE_CUSTOM_RANGE_DAYS: u16 = 366;

/// The absolute limit on a UTC offset, in minutes either way.
pub const ABSOLUTE_UTC_OFFSET_MINUTES: i16 = 840;

/// The branding's name or logo is unusable: a blank or over-long company name, or
/// a logo URL that is not a plain HTTPS address.
pub open spec fn branding_text_invalid(branding: BrandingProfile) -> bool {
    ||| is_blank(branding.company_name@)
    ||| utf8_len(branding.company_name@) > 200
    ||| match branding.logo_url {
        Some(url) => https_url_invalid(url@),
        None => false,
    }
}

/// The five interface colours are `#RRGGBB` colours.
pub open spec fn interface_colors_valid(branding: BrandingProfile) -> bool {
    &&& is_hex_color(branding.primary_color@)
    &&& is_hex_color(branding.text_color@)
    &&& is_hex_color(branding.muted_color@)
    &&& is_hex_color(branding.surface_color@)
    &&& is_hex_color(branding.border_color@)
}

/// The chart palette holds 6 to 32 `#RRGGBB` colours.
pub open spec fn palette_valid(branding: BrandingProfile) -> bool {
    &&& 6 <= branding.chart_palette.len() <= 32
    &&& forall|i: int|
        0 <= i < branding.chart_palette.len() ==> is_hex_color(
            (#[trigger] branding.chart_palette@[i])@,
        )
}

/// The branding can be applied, given whether its text colours contrast enough
/// with their backgrounds.
pub open spec fn branding_valid(branding: BrandingProfile, text_contrast_sufficient: bool) -> bool {
    &&& !branding_text_invalid(branding)
    &&& interface_colors_valid(branding)
    &&& palette_valid(branding)
    &&& text_contrast_sufficient
}

/// The site lists an empty set of boards, or board 0.
pub open spec fn board_scope_invalid(site: JiraSiteProfile) -> bool {
    match site.allowed_board_ids {
        Some(ids) => ids@.is_empty() || ids@.contains(0),
        None => false,
    }
}

/// The Jira site entry is unusable.
pub open spec fn site_invalid(site: JiraSiteProfile) -> bool {
    ||| is_blank(site.name@)
    ||| utf8_len(site.name@) > 200
    ||| utf8_len(site.url@) > 200
    ||| https_url_invalid(site.url@)
    ||| board_scope_invalid(site)
}

/// The Jira scope is consistent: at most 50 valid sites, none when unrestricted
/// and at least one when restricted.
pub open spec fn jira_scope_valid(jira: JiraModuleProfile) -> bool {
    &&& jira.sites.len() <= 50
    &&& forall|i: int| 0 <= i < jira.sites.len() ==> !site_invalid(#[trigger] jira.sites@[i])
    &&& match jira.scope_mode {
        ProviderScopeMode::Unrestricted => jira.sites.len() == 0,
        ProviderScopeMode::Restricted => jira.sites.len() > 0,
    }
}

/// The Jira limits are positive, within their organization maxima, and the
/// maxima within the absolute limits.
pub open spec fn jira_limits_valid(jira: JiraModuleProfile) -> bool {
    &&& jira.request_timeout_seconds > 0
    &&& jira.page_size > 0
    &&& jira.maximum_collection_items > 0
    &&& jira.maximum_issue_search_results > 0
    &&& jira.maximum_concurrent_worklog_requests > 0
    &&& jira.request_timeout_seconds <= jira.maximum_allowed_request_timeout_seconds
    &&& jira.page_size <= jira.maximum_allowed_page_size
    &&& jira.maximum_collection_items <= jira.maximum_allowed_collection_items
    &&& jira.maximum_issue_search_results <= jira.maximum_allowed_issue_search_results
    &&& jira.maximum_concurrent_worklog_requests <= jira.maximum_allowed_concurrent_worklog_requests
    &&& jira.maximum_allowed_request_timeout_seconds <= 300
    &&& jira.maximum_allowed_page_size <= 100
    &&& jira.maximum_allowed_collection_items <= 250000
    &&& jira.maximum_allowed_issue_search_results <= 5000
    &&& jira.maximum_allowed_concurrent_worklog_requests <= 64
}

/// The hours bounds are consistent.
pub open spec fn hours_limits_valid(hours: HoursProfile) -> bool {
    &&& hours.minimum_weekly_target_hours > 0
    &&& hours.maximum_weekly_target_hours >= hours.minimum_weekly_target_hours
    &&& hours.minimum_weekly_target_hours <= hours.suggested_weekly_target_hours
        <= hours.maximum_weekly_target_hours
    &&& hours.maximum_weekly_target_hours <= 168
    &&& 1 <= hours.maximum_daily_hours <= 24
    &&& hours.default_worklog_start_hour <= 23
    &&& hours.default_worklog_start_minute <= 59
    &&& 1 <= hours.default_duration_minutes <= 1440
    &&& 1 <= hours.maximum_custom_range_days <= 366
}

/// The offset option is within ±14:00 and has a label of 1 to 200 bytes that is not blank.
pub open spec fn offset_option_valid(option: UtcOffsetOption) -> bool {
    &&& -840 <= option.minutes <= 840
    &&& !is_blank(option.label@)
    &&& utf8_len(option.label@) <= 200
}

/// The offset options are non-empty, each valid, and include the suggested offset.
pub open spec fn utc_offsets_valid(hours: HoursProfile) -> bool {
    &&& hours.utc_offset_options.len() > 0
    &&& forall|i: int|
        0 <= i < hours.utc_offset_options.len() ==> offset_option_valid(
            #[trigger] hours.utc_offset_options@[i],
        )
    &&& exists|i: int|
        0 <= i < hours.utc_offset_options.len()
            && (#[trigger] hours.utc_offset_options@[i]).minutes
            == hours.suggested_utc_offset_minutes
}

/// The module that is not `module`.
pub open spec fn other_module(module: IntegrationModuleId) -> IntegrationModuleId {
    match module {
        IntegrationModuleId::Jira => IntegrationModuleId::Bitbucket,
        IntegrationModuleId::Bitbucket => IntegrationModuleId::Jira,
    }
}

/// The first capability, from `start` on, whose required read capability is
/// missing from the sequence, reported as an error; `Ok` when there is none.
pub open spec fn dependency_outcome(capabilities: Seq<Capability>, start: int) -> Result<(), ProfileError>
    decreases capabilities.len() - start,
{
    if start < 0 || start >= capabilities.len() {
        Ok(())
    } else if capabilities[start].spec_required_read() is Some && !capabilities.contains(
        capabilities[start].spec_required_read()->0,
    ) {
        Err(
            ProfileError::MissingRequiredCapability {
                capability: capabilities[start],
                required: capabilities[start].spec_required_read()->0,
            },
        )
    } else {
        dependency_outcome(capabilities, start + 1)
    }
}

/// The outcome of checking a module's capabilities: a capability of another
/// module is a mismatch; otherwise every write capability needs its read capability.
pub open spec fn capability_outcome(capabilities: Seq<Capability>, expected: IntegrationModuleId) -> Result<
    (),
    ProfileError,
> {
    if exists|i: int|
        0 <= i < capabilities.len() && (#[trigger] capabilities[i]).spec_module() != expected {
        Err(ProfileError::CapabilityModuleMismatch { expected, actual: other_module(expected) })
    } else {
        dependency_outcome(capabilities, 0)
    }
}

/// The outcome of checking the Jira module: scope, limits, hours, capabilities, in that order.
pub open spec fn jira_outcome(jira: JiraModuleProfile) -> Result<(), ProfileError> {
    if !jira_scope_valid(jira) {
        Err(ProfileError::InvalidJira(ProfileSection::Sites))
    } else if !jira_limits_valid(jira) {
        Err(ProfileError::InvalidJira(ProfileSection::Limits))
    } else if !hours_limits_valid(jira.hours) || !utc_offsets_valid(jira.hours) {
        Err(ProfileError::InvalidJira(ProfileSection::Hours))
    } else {
        capability_outcome(jira.mcp_capabilities@, IntegrationModuleId::Jira)
    }
}

/// The Bitbucket limits lie within the absolute limits, and the defaults within
/// the organization maxima.
pub open spec fn bitbucket_limits_valid(bitbucket: BitbucketModuleProfile) -> bool {
    &&& 1 <= bitbucket.maximum_allowed_request_timeout_seconds <= 300
    &&& 1 <= bitbucket.maximum_allowed_page_size <= 100
    &&& 1 <= bitbucket.maximum_allowed_collection_items <= 250000
    &&& bitbucket.request_timeout_seconds <= bitbucket.maximum_allowed_request_timeout_seconds
    &&& bitbucket.page_size <= bitbucket.maximum_allowed_page_size
    &&& bitbucket.maximum_collection_items <= bitbucket.maximum_allowed_collection_items
}

/// The number of repositories over all workspace entries.
pub open spec fn repository_total(entries: Seq<WorkspaceRepositories>) -> int
    decreases entries.len(),
{
    if entries.len() == 0 {
        0
    } else {
        repository_total(entries.drop_last()) + entries.last().repositories.len()
    }
}

/// The workspace entry is unusable: an invalid workspace name, no repositories,
/// or an invalid repository name.
pub open spec fn workspace_entry_invalid(entry: WorkspaceRepositories) -> bool {
    ||| slug_invalid(entry.workspace@)
    ||| entry.repositories.len() == 0
    ||| exists|k: int|
        0 <= k < entry.repositories.len() && slug_invalid((#[trigger] entry.repositories@[k])@)
}

/// The workspace entries are between 1 and 100, hold at most 1000 repositories,
/// and are each valid.
pub open spec fn workspaces_valid(entries: Seq<WorkspaceRepositories>) -> bool {
    &&& entries.len() > 0
    &&& entries.len() <= 100
    &&& repository_total(entries) <= 1000
    &&& forall|i: int| 0 <= i < entries.len() ==> !workspace_entry_invalid(#[trigger] entries[i])
}

/// The workspace scope is consistent with the mode: no list or an empty one when unrestricted, a
/// valid list when restricted.
pub open spec fn workspace_scope_valid(
    scope_mode: ProviderScopeMode,
    workspaces: Option<Vec<WorkspaceRepositories>>,
) -> bool {
    match (scope_mode, workspaces) {
        (ProviderScopeMode::Unrestricted, None) => true,
        (ProviderScopeMode::Unrestricted, Some(entries)) => entries@.len() == 0,
        (ProviderScopeMode::Restricted, Some(entries)) => workspaces_valid(entries@),
        _ => false,
    }
}

/// The outcome of checking the Bitbucket module: limits, workspaces, capabilities.
pub open spec fn bitbucket_outcome(bitbucket: BitbucketModuleProfile) -> Result<(), ProfileError> {
    if !bitbucket_limits_valid(bitbucket) {
        Err(ProfileError::InvalidBitbucket(ProfileSection::Limits))
    } else if !workspace_scope_valid(bitbucket.scope_mode, bitbucket.workspaces) {
        Err(ProfileError::InvalidBitbucket(ProfileSection::Workspaces))
    } else {
        capability_outcome(bitbucket.mcp_capabilities@, IntegrationModuleId::Bitbucket)
    }
}

/// The Reports limits allow at least two slices, labels and members and a non-empty page.
pub open spec fn reports_valid(reports: ReportsModuleProfile) -> bool {
    &&& reports.maximum_task_slices > 1
    &&& reports.maximum_trend_labels > 1
    &&& reports.maximum_team_chart_members > 1
    &&& reports.table_page_size != 0
}

/// The outcome of checking the present modules: Jira, Bitbucket, Reports, in that order.
pub open spec fn modules_outcome(modules: ModuleProfiles) -> Result<(), ProfileError> {
    if modules.jira is Some && jira_outcome(modules.jira->0) is Err {
        jira_outcome(modules.jira->0)
    } else if modules.bitbucket is Some && bitbucket_outcome(modules.bitbucket->0) is Err {
        bitbucket_outcome(modules.bitbucket->0)
    } else if modules.reports is Some && !reports_valid(modules.reports->0) {
        Err(ProfileError::InvalidReports)
    } else {
        Ok(())
    }
}

/// The outcome of validating a profile: schema, branding, at least one module,
/// then each module.
pub open spec fn profile_outcome(profile: OrganizationProfile, text_contrast_sufficient: bool) -> Result<
    (),
    ProfileError,
> {
    if profile.schema_version != 2 {
        Err(ProfileError::UnsupportedSchema)
    } else if !branding_valid(profile.branding, text_contrast_sufficient) {
        Err(ProfileError::InvalidBranding)
    } else if profile.modules.jira is None && profile.modules.bitbucket is None
        && profile.modules.reports is None {
        Err(ProfileError::EmptyModules)
    } else {
        modules_outcome(profile.modules)
    }
}

} // verus!

verus! {

fn validate_branding(branding: &BrandingProfile, text_contrast_sufficient: bool) -> (r: Result<
    (),
    ProfileError,
>)
    ensures
        r == (if branding_valid(*branding, text_contrast_sufficient) {
            Ok(())
        } else {
            Err(ProfileError::InvalidBranding)
        }),
{
    if invalid_branding_text(branding) || !valid_branding_colors(branding, text_contrast_sufficient) {
        return Err(ProfileError::InvalidBranding);
    }
    Ok(())
}

fn invalid_branding_text(branding: &BrandingProfile) -> (r: bool)
    ensures
        r == branding_text_invalid(*branding),
{
    let invalid_logo = match &branding.logo_url {
        Some(url) => str_https_url_invalid(url.as_str()),
        None => false,
    };
    str_is_blank(branding.company_name.as_str()) || byte_len(branding.company_name.as_str())
        > MAXIMUM_TEXT_LENGTH || invalid_logo
}

fn valid_branding_colors(branding: &BrandingProfile, text_contrast_sufficient: bool) -> (r: bool)
    ensures
        r == (interface_colors_valid(*branding) && palette_valid(*branding)
            && text_contrast_sufficient),
{
    str_is_hex_color(branding.primary_color.as_str()) && str_is_hex_color(
        branding.text_color.as_str(),
    ) && str_is_hex_color(branding.muted_color.as_str()) && str_is_hex_color(
        branding.surface_color.as_str(),
    ) && str_is_hex_color(branding.border_color.as_str()) && valid_palette(branding)
        && text_contrast_sufficient
}

fn valid_palette(branding: &BrandingProfile) -> (r: bool)
    ensures
        r == palette_valid(*branding),
{
    let palette = &branding.chart_palette;
    if palette.len() < REQUIRED_CHART_COLORS || palette.len() > MAXIMUM_PALETTE_COLORS {
        return false;
    }
    let mut i: usize = 0;
    while i < palette.len()
        invariant
            i <= palette.len(),
            palette@ == branding.chart_palette@,
            6 <= palette.len() <= 32,
            forall|k: int| 0 <= k < i ==> is_hex_color((#[trigger] palette@[k])@),
        decreases palette.len() - i,
    {
        if !str_is_hex_color(palette[i].as_str()) {
            assert(!is_hex_color(branding.chart_palette@[i as int]@));
            return false;
        }
        i = i + 1;
    }
    true
}

fn invalid_site(site: &JiraSiteProfile) -> (r: bool)
    ensures
        r == site_invalid(*site),
{
    let invalid_board_scope = match &site.allowed_board_ids {
        Some(ids) => ids.is_empty() || ids.contains(&0),
        None => false,
    };
    str_is_blank(site.name.as_str()) || byte_len(site.name.as_str()) > MAXIMUM_TEXT_LENGTH
        || byte_len(site.url.as_str()) > MAXIMUM_TEXT_LENGTH || str_https_url_invalid(
        site.url.as_str(),
    ) || invalid_board_scope
}

fn valid_jira_scope(jira: &JiraModuleProfile) -> (r: bool)
    ensures
        r == jira_scope_valid(*jira),
{
    let valid_count = jira.sites.len() <= MAXIMUM_SITES;
    let mut entries_valid = true;
    let mut i: usize = 0;
    while i < jira.sites.len()
        invariant
            i <= jira.sites.len(),
            entries_valid == forall|k: int| 0 <= k < i ==> !site_invalid(#[trigger] jira.sites@[k]),
        decreases jira.sites.len() - i,
    {
        let invalid = invalid_site(&jira.sites[i]);
        proof {
            if invalid {
                assert(site_invalid(jira.sites@[i as int]));
            }
        }
        entries_valid = entries_valid && !invalid;
        i = i + 1;
    }
    let mode_valid = match jira.scope_mode {
        ProviderScopeMode::Unrestricted => jira.sites.len() == 0,
        ProviderScopeMode::Restricted => jira.sites.len() > 0,
    };
    valid_count && entries_valid && mode_valid
}

fn valid_jira_limits(jira: &JiraModuleProfile) -> (r: bool)
    ensures
        r == jira_limits_valid(*jira),
{
    jira.request_timeout_seconds > 0 && jira.page_size > 0 && jira.maximum_collection_items > 0
        && jira.maximum_issue_search_results > 0 && jira.maximum_concurrent_worklog_requests > 0
        && jira.request_timeout_seconds <= jira.maximum_allowed_request_timeout_seconds
        && jira.page_size <= jira.maximum_allowed_page_size && jira.maximum_collection_items
        <= jira.maximum_allowed_collection_items && jira.maximum_issue_search_results
        <= jira.maximum_allowed_issue_search_results && jira.maximum_concurrent_worklog_requests
        <= jira.maximum_allowed_concurrent_worklog_requests && valid_absolute_jira_limits(jira)
}

fn valid_absolute_jira_limits(jira: &JiraModuleProfile) -> (r: bool)
    ensures
        r == (jira.maximum_allowed_request_timeout_seconds <= 300 && jira.maximum_allowed_page_size
            <= 100 && jira.maximum_allowed_collection_items <= 250000
            && jira.maximum_allowed_issue_search_results <= 5000
            && jira.maximum_allowed_concurrent_worklog_requests <= 64),
{
    jira.maximum_allowed_request_timeout_seconds <= ABSOLUTE_REQUEST_TIMEOUT_SECONDS
        && jira.maximum_allowed_page_size <= ABSOLUTE_PAGE_SIZE
        && jira.maximum_allowed_collection_items <= ABSOLUTE_COLLECTION_ITEMS
        && jira.maximum_allowed_issue_search_results <= ABSOLUTE_SEARCH_RESULTS
        && jira.maximum_allowed_concurrent_worklog_requests <= ABSOLUTE_CONCURRENT_REQUESTS
}

fn valid_hours_limits(hours: &HoursProfile) -> (r: bool)
    ensures
        r == hours_limits_valid(*hours),
{
    hours.minimum_weekly_target_hours > 0 && hours.maximum_weekly_target_hours
        >= hours.minimum_weekly_target_hours && hours.minimum_weekly_target_hours
        <= hours.suggested_weekly_target_hours && hours.suggested_weekly_target_hours
        <= hours.maximum_weekly_target_hours && hours.maximum_weekly_target_hours <= 168 && 1
        <= hours.maximum_daily_hours && hours.maximum_daily_hours <= 24
        && hours.default_worklog_start_hour <= 23 && hours.default_worklog_start_minute <= 59 && 1
        <= hours.default_duration_minutes && hours.default_duration_minutes <= 1440 && 1
        <= hours.maximum_custom_range_days && hours.maximum_custom_range_days
        <= ABSOLUTE_CUSTOM_RANGE_DAYS
}

fn valid_utc_offset(option: &UtcOffsetOption) -> (r: bool)
    ensures
        r == offset_option_valid(*option),
{
    let minutes = option.minutes as i32;
    let absolute: i32 = if minutes < 0 {
        -minutes
    } else {
        minutes
    };
    absolute <= ABSOLUTE_UTC_OFFSET_MINUTES as i32 && !str_is_blank(option.label.as_str()) && byte_len(
        option.label.as_str(),
    ) <= MAXIMUM_TEXT_LENGTH
}

fn valid_utc_offsets(hours: &HoursProfile) -> (r: bool)
    requires
        hours_limits_valid(*hours),
    ensures
        r == utc_offsets_valid(*hours),
{
    let options = &hours.utc_offset_options;
    if options.len() == 0 {
        return false;
    }
    let mut i: usize = 0;
    while i < options.len()
        invariant
            i <= options.len(),
            hours.utc_offset_options@ == options@,
            hours_limits_valid(*hours),
            forall|k: int| 0 <= k < i ==> offset_option_valid(#[trigger] options@[k]),
        decreases options.len() - i,
    {
        if !valid_utc_offset(&options[i]) {
            return false;
        }
        i = i + 1;
    }
    hours.allows_utc_offset(hours.suggested_utc_offset_minutes)
}

fn validate_hours(hours: &HoursProfile) -> (r: Result<(), ProfileError>)
    ensures
        r == (if !hours_limits_valid(*hours) || !utc_offsets_valid(*hours) {
            Err(ProfileError::InvalidJira(ProfileSection::Hours))
        } else {
            Ok(())
        }),
{
    if !valid_hours_limits(hours) || !valid_utc_offsets(hours) {
        return Err(ProfileError::InvalidJira(ProfileSection::Hours));
    }
    Ok(())
}

fn validate_capability_dependencies(capabilities: &Vec<Capability>) -> (r: Result<(), ProfileError>)
    ensures
        r == dependency_outcome(capabilities@, 0),
{
    let mut i: usize = 0;
    while i < capabilities.len()
        invariant
            i <= capabilities.len(),
            dependency_outcome(capabilities@, 0) == dependency_outcome(capabilities@, i as int),
        decreases capabilities.len() - i,
    {
        let capability = capabilities[i];
        match capability.required_read() {
            Some(required) => {
                if !contains_capability(capabilities, required) {
                    return Err(ProfileError::MissingRequiredCapability { capability, required });
                }
            },
            None => {},
        }
        i = i + 1;
    }
    Ok(())
}

fn validate_capabilities(capabilities: &Vec<Capability>, expected: IntegrationModuleId) -> (r:
    Result<(), ProfileError>)
    ensures
        r == capability_outcome(capabilities@, expected),
{
    let mut i: usize = 0;
    while i < capabilities.len()
        invariant
            i <= capabilities.len(),
            forall|k: int| 0 <= k < i ==> (#[trigger] capabilities@[k]).spec_module() == expected,
        decreases capabilities.len() - i,
    {
        let actual = capabilities[i].module();
        if actual != expected {
            assert(capabilities@[i as int].spec_module() != expected);
            return Err(ProfileError::CapabilityModuleMismatch { expected, actual });
        }
        i = i + 1;
    }
    validate_capability_dependencies(capabilities)
}

fn validate_jira(jira: &JiraModuleProfile) -> (r: Result<(), ProfileError>)
    ensures
        r == jira_outcome(*jira),
{
    if !valid_jira_scope(jira) {
        return Err(ProfileError::InvalidJira(ProfileSection::Sites));
    }
    if !valid_jira_limits(jira) {
        return Err(ProfileError::InvalidJira(ProfileSection::Limits));
    }
    match validate_hours(&jira.hours) {
        Err(error) => return Err(error),
        Ok(()) => {},
    }
    validate_capabilities(&jira.mcp_capabilities, IntegrationModuleId::Jira)
}

fn valid_bitbucket_limits(bitbucket: &BitbucketModuleProfile) -> (r: bool)
    ensures
        r == bitbucket_limits_valid(*bitbucket),
{
    valid_provider_limits(
        bitbucket.maximum_allowed_request_timeout_seconds,
        bitbucket.maximum_allowed_page_size,
        bitbucket.maximum_allowed_collection_items,
    ) && bitbucket.request_timeout_seconds <= bitbucket.maximum_allowed_request_timeout_seconds
        && bitbucket.page_size <= bitbucket.maximum_allowed_page_size
        && bitbucket.maximum_collection_items <= bitbucket.maximum_allowed_collection_items
}

fn valid_provider_limits(timeout_seconds: u64, page_size: u16, maximum_items: usize) -> (r: bool)
    ensures
        r == (1 <= timeout_seconds <= 300 && 1 <= page_size <= 100 && 1 <= maximum_items
            <= 250000),
{
    1 <= timeout_seconds && timeout_seconds <= ABSOLUTE_REQUEST_TIMEOUT_SECONDS && 1 <= page_size
        && page_size <= ABSOLUTE_PAGE_SIZE && 1 <= maximum_items && maximum_items
        <= ABSOLUTE_COLLECTION_ITEMS
}

fn invalid_workspace(entry: &WorkspaceRepositories) -> (r: bool)
    ensures
        r == workspace_entry_invalid(*entry),
{
    if str_slug_invalid(entry.workspace.as_str()) || entry.repositories.len() == 0 {
        return true;
    }
    let repositories = &entry.repositories;
    let mut k: usize = 0;
    while k < repositories.len()
        invariant
            k <= repositories.len(),
            repositories@ == entry.repositories@,
            forall|m: int| 0 <= m < k ==> !slug_invalid((#[trigger] repositories@[m])@),
        decreases repositories.len() - k,
    {
        if str_slug_invalid(repositories[k].as_str()) {
            assert(slug_invalid(entry.repositories@[k as int]@));
            return true;
        }
        k = k + 1;
    }
    false
}

fn valid_workspace_count(entries: &Vec<WorkspaceRepositories>) -> (r: bool)
    ensures
        r == (entries.len() > 0 && entries.len() <= 100 && repository_total(entries@) <= 1000),
{
    if entries.len() == 0 || entries.len() > MAXIMUM_SCOPED_WORKSPACES {
        return false;
    }
    let mut total: usize = 0;
    let mut i: usize = 0;
    while i < entries.len()
        invariant
            i <= entries.len(),
            total <= 1000,
            total == repository_total(entries@.take(i as int)),
        decreases entries.len() - i,
    {
        assert(entries@.take(i + 1).drop_last() =~= entries@.take(i as int));
        let count = entries[i].repositories.len();
        if count > MAXIMUM_SCOPED_REPOSITORIES - total {
            proof {
                lemma_repository_total_prefix_monotonic(entries@, i + 1);
            }
            return false;
        }
        total = total + count;
        i = i + 1;
    }
    assert(entries@.take(entries.len() as int) =~= entries@);
    true
}

/// The repository total of a sequence is at least that of any prefix.
proof fn lemma_repository_total_prefix_monotonic(entries: Seq<WorkspaceRepositories>, n: int)
    requires
        0 <= n <= entries.len(),
    ensures
        repository_total(entries.take(n)) <= repository_total(entries),
    decreases entries.len() - n,
{
    if n < entries.len() {
        lemma_repository_total_prefix_monotonic(entries, n + 1);
        assert(entries.take(n + 1).drop_last() =~= entries.take(n));
    } else {
        assert(entries.take(n) =~= entries);
    }
}

fn valid_workspaces(entries: &Vec<WorkspaceRepositories>) -> (r: bool)
    ensures
        r == workspaces_valid(entries@),
{
    if !valid_workspace_count(entries) {
        return false;
    }
    let mut i: usize = 0;
    while i < entries.len()
        invariant
            i <= entries.len(),
            forall|k: int| 0 <= k < i ==> !workspace_entry_invalid(#[trigger] entries@[k]),
        decreases entries.len() - i,
    {
        if invalid_workspace(&entries[i]) {
            return false;
        }
        i = i + 1;
    }
    true
}

fn validate_workspace_scope(
    scope_mode: ProviderScopeMode,
    workspaces: &Option<Vec<WorkspaceRepositories>>,
) -> (r: Result<(), ProfileError>)
    ensures
        r == (if workspace_scope_valid(scope_mode, *workspaces) {
            Ok(())
        } else {
            Err(ProfileError::InvalidBitbucket(ProfileSection::Workspaces))
        }),
{
    match (scope_mode, workspaces) {
        (ProviderScopeMode::Unrestricted, None) => Ok(()),
        (ProviderScopeMode::Unrestricted, Some(entries)) => {
            if entries.len() == 0 {
                Ok(())
            } else {
                Err(ProfileError::InvalidBitbucket(ProfileSection::Workspaces))
            }
        },
        (ProviderScopeMode::Restricted, Some(entries)) => {
            if valid_workspaces(entries) {
                Ok(())
            } else {
                Err(ProfileError::InvalidBitbucket(ProfileSection::Workspaces))
            }
        },
        _ => Err(ProfileError::InvalidBitbucket(ProfileSection::Workspaces)),
    }
}

fn validate_bitbucket(bitbucket: &BitbucketModuleProfile) -> (r: Result<(), ProfileError>)
    ensures
        r == bitbucket_outcome(*bitbucket),
{
    if !valid_bitbucket_limits(bitbucket) {
        return Err(ProfileError::InvalidBitbucket(ProfileSection::Limits));
    }
    match validate_workspace_scope(bitbucket.scope_mode, &bitbucket.workspaces) {
        Err(error) => return Err(error),
        Ok(()) => {},
    }
    validate_capabilities(&bitbucket.mcp_capabilities, IntegrationModuleId::Bitbucket)
}

fn validate_reports(reports: &ReportsModuleProfile) -> (r: Result<(), ProfileError>)
    ensures
        r == (if reports_valid(*reports) {
            Ok(())
        } else {
            Err(ProfileError::InvalidReports)
        }),
{
    if reports.maximum_task_slices <= 1 || reports.maximum_trend_labels <= 1
        || reports.maximum_team_chart_members <= 1 || reports.table_page_size == 0 {
        return Err(ProfileError::InvalidReports);
    }
    Ok(())
}

fn validate_optional_modules(modules: &ModuleProfiles) -> (r: Result<(), ProfileError>)
    ensures
        r == modules_outcome(*modules),
{
    match &modules.jira {
        Some(jira) => match validate_jira(jira) {
            Err(error) => return Err(error),
            Ok(()) => {},
        },
        None => {},
    }
    match &modules.bitbucket {
        Some(bitbucket) => match validate_bitbucket(bitbucket) {
            Err(error) => return Err(error),
            Ok(()) => {},
        },
        None => {},
    }
    match &modules.reports {
        Some(reports) => validate_reports(reports),
        None => Ok(()),
    }
}

fn validate_non_empty_modules(modules: &ModuleProfiles) -> (r: Result<(), ProfileError>)
    ensures
        r == (if modules.jira is None && modules.bitbucket is None && modules.reports is None {
            Err(ProfileError::EmptyModules)
        } else {
            Ok(())
        }),
{
    if modules.jira.is_none() && modules.bitbucket.is_none() && modules.reports.is_none() {
        return Err(ProfileError::EmptyModules);
    }
    Ok(())
}

impl OrganizationProfile {
    /// Validates the schema, branding, module scopes, limits and capability
    /// ownership. `text_contrast_sufficient` is whether the branding's text,
    /// muted and primary colours contrast enough with the surface (and the
    /// primary colour with white), which the caller measures.
    pub fn validate(&self, text_contrast_sufficient: bool) -> (r: Result<(), ProfileError>)
        requires
            self.sets_well_formed(),
        ensures
            r == profile_outcome(*self, text_contrast_sufficient),
    {
        if self.schema_version != PROFILE_SCHEMA_VERSION {
            return Err(ProfileError::UnsupportedSchema);
        }
        match validate_branding(&self.branding, text_contrast_sufficient) {
            Err(error) => return Err(error),
            Ok(()) => {},
        }
        match validate_non_empty_modules(&self.modules) {
            Err(error) => return Err(error),
            Ok(()) => {},
        }
        validate_optional_modules(&self.modules)
    }
}

} // verus!

verus! {

/// The two profile layouts that can be read.
#[derive(Clone, Copy, Debug, PartialEq, Eq, Structural)]
pub enum ProfileFormat {
    Modular,
    Legacy,
}

/// The layout a profile of this schema version is read with.
pub fn profile_format(schema_version: u16) -> (r: Result<ProfileFormat, ProfileError>)
    ensures
        r == (if schema_version == 2 {
            Ok(ProfileFormat::Modular)
        } else if schema_version == 1 {
            Ok(ProfileFormat::Legacy)
        } else {
            Err(ProfileError::UnsupportedSchema)
        }),
{
    if schema_version == PROFILE_SCHEMA_VERSION {
        Ok(ProfileFormat::Modular)
    } else if schema_version == LEGACY_PROFILE_SCHEMA_VERSION {
        Ok(ProfileFormat::Legacy)
    } else {
        Err(ProfileError::UnsupportedSchema)
    }
}

/// The earlier, flat profile: Jira, hours and reports at the top level.
#[derive(Clone, Debug, PartialEq)]
pub struct LegacyProfile {
    pub schema_version: u16,
    pub branding: BrandingProfile,
    pub jira: LegacyJiraProfile,
    pub hours: HoursProfile,
    pub reports: ReportsModuleProfile,
}

/// The Jira section of the earlier profile.
#[derive(Clone, Debug, PartialEq)]
pub struct LegacyJiraProfile {
    pub sites: Vec<LegacyJiraSiteProfile>,
    pub request_timeout_seconds: u64,
    pub page_size: u16,
    pub maximum_collection_items: usize,
    pub maximum_issue_search_results: usize,
    pub maximum_concurrent_worklog_requests: usize,
    pub maximum_allowed_request_timeout_seconds: u64,
    pub maximum_allowed_page_size: u16,
    pub maximum_allowed_collection_items: usize,
    pub maximum_allowed_issue_search_results: usize,
    pub maximum_allowed_concurrent_worklog_requests: usize,
}

/// A Jira site of the earlier profile, which could not restrict boards.
#[derive(Clone, Debug, PartialEq)]
pub struct LegacyJiraSiteProfile {
    pub name: String,
    pub url: String,
}

/// A legacy site becomes a site that allows all of its boards.
pub open spec fn migrated_site(legacy: LegacyJiraSiteProfile, site: JiraSiteProfile) -> bool {
    &&& site.name@ == legacy.name@
    &&& site.url@ == legacy.url@
    &&& site.allowed_board_ids is None
}

impl LegacyProfile {
    /// The modular profile: the Jira and Reports modules, and no Bitbucket module.
    pub fn into_current(self) -> (p: OrganizationProfile)
        ensures
            p.schema_version == 2,
            p.branding == self.branding,
            p.modules.jira is Some,
            self.jira.migrated(self.hours, p.modules.jira->0),
            p.modules.bitbucket is None,
            p.sets_well_formed(),
            p.modules.reports == Some(self.reports),
    {
        let jira = self.jira.into_current(self.hours);
        OrganizationProfile {
            schema_version: PROFILE_SCHEMA_VERSION,
            branding: self.branding,
            modules: ModuleProfiles { jira: Some(jira), bitbucket: None, reports: Some(self.reports) },
        }
    }
}

impl LegacyJiraProfile {
    /// `jira` is this section migrated with `hours`: the same sites and limits,
    /// restricted exactly when it lists sites, and every Jira capability.
    pub open spec fn migrated(self, hours: HoursProfile, jira: JiraModuleProfile) -> bool {
        &&& jira.scope_mode == (if self.sites.len() == 0 {
            ProviderScopeMode::Unrestricted
        } else {
            ProviderScopeMode::Restricted
        })
        &&& jira.sites.len() == self.sites.len()
        &&& forall|i: int|
            0 <= i < self.sites.len() ==> migrated_site(
                #[trigger] self.sites@[i],
                jira.sites@[i],
            )
        &&& jira.request_timeout_seconds == self.request_timeout_seconds
        &&& jira.page_size == self.page_size
        &&& jira.maximum_collection_items == self.maximum_collection_items
        &&& jira.maximum_issue_search_results == self.maximum_issue_search_results
        &&& jira.maximum_concurrent_worklog_requests == self.maximum_concurrent_worklog_requests
        &&& jira.maximum_allowed_request_timeout_seconds == self.maximum_allowed_request_timeout_seconds
        &&& jira.maximum_allowed_page_size == self.maximum_allowed_page_size
        &&& jira.maximum_allowed_collection_items == self.maximum_allowed_collection_items
        &&& jira.maximum_allowed_issue_search_results == self.maximum_allowed_issue_search_results
        &&& jira.maximum_allowed_concurrent_worklog_requests
            == self.maximum_allowed_concurrent_worklog_requests
        &&& jira.mcp_capabilities@ == spec_jira_capabilities()
        &&& jira.hours == hours
    }

    /// The Jira module of the modular profile.
    pub fn into_current(self, hours: HoursProfile) -> (jira: JiraModuleProfile)
        ensures
            self.migrated(hours, jira),
    {
        let scope_mode = legacy_jira_scope_mode(&self.sites);
        let mut sites: Vec<JiraSiteProfile> = Vec::new();
        let mut i: usize = 0;
        while i < self.sites.len()
            invariant
                i <= self.sites.len(),
                sites.len() == i,
                forall|k: int| 0 <= k < i ==> migrated_site(#[trigger] self.sites@[k], sites@[k]),
            decreases self.sites.len() - i,
        {
            sites.push(legacy_site(&self.sites[i]));
            i = i + 1;
        }
        JiraModuleProfile {
            scope_mode,
            sites,
            request_timeout_seconds: self.request_timeout_seconds,
            page_size: self.page_size,
            maximum_collection_items: self.maximum_collection_items,
            maximum_issue_search_results: self.maximum_issue_search_results,
            maximum_concurrent_worklog_requests: self.maximum_concurrent_worklog_requests,
            maximum_allowed_request_timeout_seconds: self.maximum_allowed_request_timeout_seconds,
            maximum_allowed_page_size: self.maximum_allowed_page_size,
            maximum_allowed_collection_items: self.maximum_allowed_collection_items,
            maximum_allowed_issue_search_results: self.maximum_allowed_issue_search_results,
            maximum_allowed_concurrent_worklog_requests:
                self.maximum_allowed_concurrent_worklog_requests,
            mcp_capabilities: jira_capabilities(),
            hours,
        }
    }
}

fn legacy_jira_scope_mode(sites: &Vec<LegacyJiraSiteProfile>) -> (mode: ProviderScopeMode)
    ensures
        mode == (if sites.len() == 0 {
            ProviderScopeMode::Unrestricted
        } else {
            ProviderScopeMode::Restricted
        }),
{
    if sites.len() == 0 {
        ProviderScopeMode::Unrestricted
    } else {
        ProviderScopeMode::Restricted
    }
}

fn legacy_site(site: &LegacyJiraSiteProfile) -> (migrated: JiraSiteProfile)
    ensures
        migrated_site(*site, migrated),
{
    JiraSiteProfile { name: site.name.clone(), url: site.url.clone(), allowed_board_ids: None }
}

} // verus!

verus! {

/// The place of a capability in the declared order, which is the order of
/// the capability sets the profile and the settings hold.
pub open spec fn capability_rank(capability: Capability) -> int {
    match capability {
        Capability::ReadJiraIssues => 0,
        Capability::EditJiraIssues => 1,
        Capability::CommentJiraIssues => 2,
        Capability::TransitionJiraIssues => 3,
        Capability::ReadOwnTimeEntries => 4,
        Capability::WriteOwnTimeEntries => 5,
        Capability::ReadBitbucketPullRequests => 6,
        Capability::CreateBitbucketPullRequests => 7,
        Capability::EditBitbucketPullRequests => 8,
        Capability::CommentBitbucketPullRequests => 9,
        Capability::ReviewBitbucketPullRequests => 10,
        Capability::MergeBitbucketPullRequests => 11,
        Capability::DeclineBitbucketPullRequests => 12,
    }
}

/// A set of capabilities, held as a list: in declared order, none twice.
pub open spec fn capability_set(capabilities: Seq<Capability>) -> bool {
    forall|i: int, j: int|
        0 <= i < j < capabilities.len() ==> capability_rank(#[trigger] capabilities[i]) < capability_rank(
            #[trigger] capabilities[j],
        )
}

/// A set of texts, held as a list: in increasing order, none twice.
pub open spec fn text_set(values: Seq<String>) -> bool {
    forall|i: int, j: int| 0 <= i < j < values.len() ==> seq_less(#[trigger] values[i]@, #[trigger] values[j]@)
}

/// A map from workspace to a set of repositories, held as a list: the
/// workspaces in increasing order, none twice, and each set of repositories
/// a text set.
pub open spec fn workspace_map(entries: Seq<WorkspaceRepositories>) -> bool {
    &&& forall|i: int, j: int|
        0 <= i < j < entries.len() ==> seq_less(#[trigger] entries[i].workspace@, #[trigger] entries[j].workspace@)
    &&& forall|i: int| 0 <= i < entries.len() ==> text_set(#[trigger] entries[i].repositories@)
}

/// An optional workspace map.
pub open spec fn optional_workspace_map(workspaces: Option<Vec<WorkspaceRepositories>>) -> bool {
    match workspaces {
        Some(entries) => workspace_map(entries@),
        None => true,
    }
}

impl BitbucketModuleProfile {
    /// The module's sets and map are held as the lists those describe.
    pub open spec fn sets_well_formed(self) -> bool {
        &&& capability_set(self.mcp_capabilities@)
        &&& optional_workspace_map(self.workspaces)
    }
}

impl OrganizationProfile {
    /// The profile's sets and maps are held as the lists those describe:
    /// capabilities in declared order and workspaces and repositories in
    /// increasing order, none twice.
    pub open spec fn sets_well_formed(self) -> bool {
        &&& match self.modules.jira {
            Some(jira) => capability_set(jira.mcp_capabilities@),
            None => true,
        }
        &&& match self.modules.bitbucket {
            Some(bitbucket) => bitbucket.sets_well_formed(),
            None => true,
        }
    }
}

} // verus!

//! Shared, secret-free user preferences for the Desktop and assistant frontends.
//! Provider authorization and organization policy remain the consumers' concern.

use vstd::prelude::*;

use crate::profile::{
    capability_set, contains_capability, optional_workspace_map, text_set, Capability, IntegrationModuleId,
    WorkspaceRepositories,
};
use crate::text::{has_whitespace, is_blank, str_contains_char, str_has_whitespace, str_is_blank};

verus! {

/// The schema version of the shared settings document.
pub const SCHEMA_VERSION: u16 = 1;

/// The report period a person gets when the document names none.
pub const DEFAULT_MAXIMUM_REPORT_PERIOD_DAYS: u16 = 7;

/// The longest report period a person may choose.
pub const MAXIMUM_REPORT_PERIOD_DAYS: u16 = 31;

/// The largest settings document, in bytes.
pub const MAXIMUM_BYTES: u64 = 1048576;

/// The shared settings document.
#[derive(Clone, Debug, PartialEq, Eq)]
pub struct SettingsDocument {
    pub schema_version: u16,
    pub revision: u64,
    pub language: Option<Language>,
    pub jira: Option<JiraSettings>,
    pub hours: Option<HoursSettings>,
    pub reports: Option<ReportsSettings>,
    pub bitbucket: Option<BitbucketSettings>,
    pub mcp: Option<McpSettings>,
}

/// The interface language.
#[derive(Clone, Copy, Debug, PartialEq, Eq, Structural)]
pub enum Language {
    English,
    Spanish,
}

/// Jira preferences; any of them may still be missing in a draft.
#[derive(Clone, Debug, PartialEq, Eq)]
pub struct JiraSettings {
    pub base_url: Option<String>,
    pub email: Option<String>,
    pub board_id: Option<u64>,
    pub request_timeout_seconds: Option<u64>,
    pub page_size: Option<u16>,
    pub maximum_collection_items: Option<usize>,
    pub maximum_issue_search_results: Option<usize>,
    pub maximum_concurrent_worklog_requests: Option<usize>,
}

/// Time-tracking preferences.
#[derive(Clone, Debug, PartialEq, Eq)]
pub struct HoursSettings {
    pub weekly_target_hours: Option<u16>,
    pub utc_offset_minutes: Option<i16>,
    pub maximum_daily_hours: Option<u8>,
    pub maximum_report_period_days: Option<u16>,
    pub default_worklog_start_hour: Option<u8>,
    pub default_worklog_start_minute: Option<u8>,
}

/// Report preferences.
#[derive(Clone, Debug, PartialEq, Eq)]
pub struct ReportsSettings {
    pub enable_team_reports: Option<bool>,
}

/// Bitbucket preferences. `workspaces` holds a map: no workspace occurs twice.
#[derive(Clone, Debug, PartialEq, Eq)]
pub struct BitbucketSettings {
    pub email: Option<String>,
    pub workspaces: Option<Vec<WorkspaceRepositories>>,
    pub request_timeout_seconds: Option<u64>,
    pub page_size: Option<u16>,
    pub maximum_collection_items: Option<usize>,
    pub pull_request_defaults: Option<PullRequestDefaults>,
}

/// Defaults for new pull requests. `reviewer_account_ids` holds a set.
#[derive(Clone, Debug, PartialEq, Eq)]
pub struct PullRequestDefaults {
    pub reviewer_account_ids: Vec<String>,
    pub close_source_branch: bool,
}

/// Explicit consent for the assistant server, per module; no module occurs twice,
/// and the entries come in the modules' declared order.
/// Shared Desktop preferences never enable these grants.
#[derive(Clone, Debug, PartialEq, Eq)]
pub struct McpSettings {
    pub modules: Vec<ModuleConsent>,
}

/// The consent given for one module.
#[derive(Clone, Debug, PartialEq, Eq)]
pub struct ModuleConsent {
    pub module: IntegrationModuleId,
    pub settings: ModuleSettings,
}

/// Whether the module is enabled and which capabilities (a set, in declared order) it grants.
#[derive(Clone, Debug, PartialEq, Eq)]
pub struct ModuleSettings {
    pub enabled: bool,
    pub capabilities: Vec<Capability>,
}

/// The field of the settings document that was found invalid.
#[derive(Clone, Copy, Debug, PartialEq, Eq, Structural)]
pub enum SettingsField {
    SchemaVersion,
    Revision,
    JiraBoardId,
    JiraRequestTimeoutSeconds,
    JiraPageSize,
    JiraMaximumCollectionItems,
    JiraMaximumIssueSearchResults,
    JiraMaximumConcurrentWorklogRequests,
    JiraEmail,
    JiraBaseUrl,
    HoursWeeklyTargetHours,
    HoursUtcOffsetMinutes,
    HoursMaximumDailyHours,
    HoursMaximumReportPeriodDays,
    HoursDefaultWorklogStartHour,
    HoursDefaultWorklogStartMinute,
    BitbucketEmail,
    BitbucketRequestTimeoutSeconds,
    BitbucketPageSize,
    BitbucketMaximumCollectionItems,
    McpModulesCapabilities,
    McpModulesRequiredRead,
}

/// The path of a settings field in the JSON document.
pub open spec fn field_name(value: SettingsField) -> Seq<char> {
    match value {
        SettingsField::SchemaVersion => "schemaVersion"@,
        SettingsField::Revision => "revision"@,
        SettingsField::JiraBoardId => "jira.boardId"@,
        SettingsField::JiraRequestTimeoutSeconds => "jira.requestTimeoutSeconds"@,
        SettingsField::JiraPageSize => "jira.pageSize"@,
        SettingsField::JiraMaximumCollectionItems => "jira.maximumCollectionItems"@,
        SettingsField::JiraMaximumIssueSearchResults => "jira.maximumIssueSearchResults"@,
        SettingsField::JiraMaximumConcurrentWorklogRequests => "jira.maximumConcurrentWorklogRequests"@,
        SettingsField::JiraEmail => "jira.email"@,
        SettingsField::JiraBaseUrl => "jira.baseUrl"@,
        SettingsField::HoursWeeklyTargetHours => "hours.weeklyTargetHours"@,
        SettingsField::HoursUtcOffsetMinutes => "hours.utcOffsetMinutes"@,
        SettingsField::HoursMaximumDailyHours => "hours.maximumDailyHours"@,
        SettingsField::HoursMaximumReportPeriodDays => "hours.maximumReportPeriodDays"@,
        SettingsField::HoursDefaultWorklogStartHour => "hours.defaultWorklogStartHour"@,
        SettingsField::HoursDefaultWorklogStartMinute => "hours.defaultWorklogStartMinute"@,
        SettingsField::BitbucketEmail => "bitbucket.email"@,
        SettingsField::BitbucketRequestTimeoutSeconds => "bitbucket.requestTimeoutSeconds"@,
        SettingsField::BitbucketPageSize => "bitbucket.pageSize"@,
        SettingsField::BitbucketMaximumCollectionItems => "bitbucket.maximumCollectionItems"@,
        SettingsField::McpModulesCapabilities => "mcp.modules.capabilities"@,
        SettingsField::McpModulesRequiredRead => "mcp.modules.requiredRead"@,
    }
}

impl SettingsField {
    /// The field's path in the JSON document.
    pub fn name(self) -> (r: &'static str)
        ensures
            r@ == field_name(self),
    {
        match self {
            SettingsField::SchemaVersion => "schemaVersion",
            SettingsField::Revision => "revision",
            SettingsField::JiraBoardId => "jira.boardId",
            SettingsField::JiraRequestTimeoutSeconds => "jira.requestTimeoutSeconds",
            SettingsField::JiraPageSize => "jira.pageSize",
            SettingsField::JiraMaximumCollectionItems => "jira.maximumCollectionItems",
            SettingsField::JiraMaximumIssueSearchResults => "jira.maximumIssueSearchResults",
            SettingsField::JiraMaximumConcurrentWorklogRequests => {
                "jira.maximumConcurrentWorklogRequests"
            },
            SettingsField::JiraEmail => "jira.email",
            SettingsField::JiraBaseUrl => "jira.baseUrl",
            SettingsField::HoursWeeklyTargetHours => "hours.weeklyTargetHours",
            SettingsField::HoursUtcOffsetMinutes => "hours.utcOffsetMinutes",
            SettingsField::HoursMaximumDailyHours => "hours.maximumDailyHours",
            SettingsField::HoursMaximumReportPeriodDays => "hours.maximumReportPeriodDays",
            SettingsField::HoursDefaultWorklogStartHour => "hours.defaultWorklogStartHour",
            SettingsField::HoursDefaultWorklogStartMinute => "hours.defaultWorklogStartMinute",
            SettingsField::BitbucketEmail => "bitbucket.email",
            SettingsField::BitbucketRequestTimeoutSeconds => "bitbucket.requestTimeoutSeconds",
            SettingsField::BitbucketPageSize => "bitbucket.pageSize",
            SettingsField::BitbucketMaximumCollectionItems => "bitbucket.maximumCollectionItems",
            SettingsField::McpModulesCapabilities => "mcp.modules.capabilities",
            SettingsField::McpModulesRequiredRead => "mcp.modules.requiredRead",
        }
    }
}

/// Why shared settings cannot be read or saved.
#[derive(Clone, Copy, Debug, PartialEq, Eq, Structural)]
pub enum SettingsError {
    Invalid(SettingsField),
    TooLarge,
    Busy,
    Conflict { expected: u64, actual: u64 },
    MissingDirectory,
}

impl Default for SettingsDocument {
    fn default() -> (d: Self)
        ensures
            d.schema_version == 1,
            d.revision == 0,
            d.language is None,
            d.jira is None,
            d.hours is None,
            d.reports is None,
            d.bitbucket is None,
            d.mcp is None,
    {
        SettingsDocument {
            schema_version: SCHEMA_VERSION,
            revision: 0,
            language: None,
            jira: None,
            hours: None,
            reports: None,
            bitbucket: None,
            mcp: None,
        }
    }
}

impl Default for Language {
    fn default() -> (l: Self)
        ensures
            l == Language::English,
    {
        Language::English
    }
}

impl Default for JiraSettings {
    fn default() -> (s: Self)
        ensures
            s.base_url is None,
            s.email is None,
            s.board_id is None,
            s.request_timeout_seconds is None,
            s.page_size is None,
            s.maximum_collection_items is None,
            s.maximum_issue_search_results is None,
            s.maximum_concurrent_worklog_requests is None,
    {
        JiraSettings {
            base_url: None,
            email: None,
            board_id: None,
            request_timeout_seconds: None,
            page_size: None,
            maximum_collection_items: None,
            maximum_issue_search_results: None,
            maximum_concurrent_worklog_requests: None,
        }
    }
}

impl Default for HoursSettings {
    fn default() -> (s: Self)
        ensures
            s.weekly_target_hours is None,
            s.utc_offset_minutes is None,
            s.maximum_daily_hours is None,
            s.maximum_report_period_days is None,
            s.default_worklog_start_hour is None,
            s.default_worklog_start_minute is None,
    {
        HoursSettings {
            weekly_target_hours: None,
            utc_offset_minutes: None,
            maximum_daily_hours: None,
            maximum_report_period_days: None,
            default_worklog_start_hour: None,
            default_worklog_start_minute: None,
        }
    }
}

impl Default for ReportsSettings {
    fn default() -> (s: Self)
        ensures
            s.enable_team_reports is None,
    {
        ReportsSettings { enable_team_reports: None }
    }
}

impl Default for BitbucketSettings {
    fn default() -> (s: Self)
        ensures
            s.email is None,
            s.workspaces is None,
            s.request_timeout_seconds is None,
            s.page_size is None,
            s.maximum_collection_items is None,
            s.pull_request_defaults is None,
    {
        BitbucketSettings {
            email: None,
            workspaces: None,
            request_timeout_seconds: None,
            page_size: None,
            maximum_collection_items: None,
            pull_request_defaults: None,
        }
    }
}

impl Default for PullRequestDefaults {
    fn default() -> (d: Self)
        ensures
            d.reviewer_account_ids@.len() == 0,
            !d.close_source_branch,
    {
        PullRequestDefaults { reviewer_account_ids: Vec::new(), close_source_branch: false }
    }
}

impl Default for McpSettings {
    fn default() -> (s: Self)
        ensures
            s.modules@.len() == 0,
    {
        McpSettings { modules: Vec::new() }
    }
}

} // verus!

verus! {

/// A supplied e-mail address holds an `@` and no whitespace.
pub open spec fn email_valid(email: Option<String>) -> bool {
    match email {
        Some(email) => email@.contains('@') && !has_whitespace(email@),
        None => true,
    }
}

/// The first invalid Jira field, in the order the fields are checked.
pub open spec fn jira_settings_outcome(jira: JiraSettings) -> Result<(), SettingsError> {
    if jira.board_id == Some(0u64) {
        Err(SettingsError::Invalid(SettingsField::JiraBoardId))
    } else if jira.request_timeout_seconds == Some(0u64) {
        Err(SettingsError::Invalid(SettingsField::JiraRequestTimeoutSeconds))
    } else if jira.page_size == Some(0u16) {
        Err(SettingsError::Invalid(SettingsField::JiraPageSize))
    } else if jira.maximum_collection_items == Some(0usize) {
        Err(SettingsError::Invalid(SettingsField::JiraMaximumCollectionItems))
    } else if jira.maximum_issue_search_results == Some(0usize) {
        Err(SettingsError::Invalid(SettingsField::JiraMaximumIssueSearchResults))
    } else if jira.maximum_concurrent_worklog_requests == Some(0usize) {
        Err(SettingsError::Invalid(SettingsField::JiraMaximumConcurrentWorklogRequests))
    } else if !email_valid(jira.email) {
        Err(SettingsError::Invalid(SettingsField::JiraEmail))
    } else if jira.base_url matches Some(url) && is_blank(url@) {
        Err(SettingsError::Invalid(SettingsField::JiraBaseUrl))
    } else {
        Ok(())
    }
}

/// The first supplied hours value out of its bounds, in the order the fields are checked.
pub open spec fn hours_settings_outcome(hours: HoursSettings) -> Result<(), SettingsError> {
    if hours.weekly_target_hours matches Some(target) && !(1 <= target <= 168) {
        Err(SettingsError::Invalid(SettingsField::HoursWeeklyTargetHours))
    } else if hours.utc_offset_minutes matches Some(offset) && !(-840 <= offset <= 840) {
        Err(SettingsError::Invalid(SettingsField::HoursUtcOffsetMinutes))
    } else if hours.maximum_daily_hours matches Some(daily) && !(1 <= daily <= 24) {
        Err(SettingsError::Invalid(SettingsField::HoursMaximumDailyHours))
    } else if hours.maximum_report_period_days matches Some(days) && !(1 <= days <= 31) {
        Err(SettingsError::Invalid(SettingsField::HoursMaximumReportPeriodDays))
    } else if hours.default_worklog_start_hour matches Some(hour) && !(hour < 24) {
        Err(SettingsError::Invalid(SettingsField::HoursDefaultWorklogStartHour))
    } else if hours.default_worklog_start_minute matches Some(minute) && !(minute < 60) {
        Err(SettingsError::Invalid(SettingsField::HoursDefaultWorklogStartMinute))
    } else {
        Ok(())
    }
}

/// The first invalid Bitbucket field, in the order the fields are checked.
pub open spec fn bitbucket_settings_outcome(bitbucket: BitbucketSettings) -> Result<(), SettingsError> {
    if !email_valid(bitbucket.email) {
        Err(SettingsError::Invalid(SettingsField::BitbucketEmail))
    } else if bitbucket.request_timeout_seconds == Some(0u64) {
        Err(SettingsError::Invalid(SettingsField::BitbucketRequestTimeoutSeconds))
    } else if bitbucket.page_size == Some(0u16) {
        Err(SettingsError::Invalid(SettingsField::BitbucketPageSize))
    } else if bitbucket.maximum_collection_items == Some(0usize) {
        Err(SettingsError::Invalid(SettingsField::BitbucketMaximumCollectionItems))
    } else {
        Ok(())
    }
}

/// The first consent error among a module's capabilities from position `k` on:
/// a capability of another module, or a capability whose read capability is not granted.
pub open spec fn module_consent_outcome(entry: ModuleConsent, k: int) -> Result<(), SettingsError>
    decreases entry.settings.capabilities.len() - k,
{
    let capabilities = entry.settings.capabilities@;
    if k < 0 || k >= capabilities.len() {
        Ok(())
    } else if capabilities[k].spec_module() != entry.module {
        Err(SettingsError::Invalid(SettingsField::McpModulesCapabilities))
    } else if capabilities[k].spec_required_read() matches Some(read) && !capabilities.contains(
        read,
    ) {
        Err(SettingsError::Invalid(SettingsField::McpModulesRequiredRead))
    } else {
        module_consent_outcome(entry, k + 1)
    }
}

/// The first consent error among the modules from position `i` on.
pub open spec fn consent_outcome(entries: Seq<ModuleConsent>, i: int) -> Result<(), SettingsError>
    decreases entries.len() - i,
{
    if i < 0 || i >= entries.len() {
        Ok(())
    } else if module_consent_outcome(entries[i], 0) is Err {
        module_consent_outcome(entries[i], 0)
    } else {
        consent_outcome(entries, i + 1)
    }
}

/// The outcome of validating a document: schema, then each supplied section.
pub open spec fn settings_outcome(document: SettingsDocument) -> Result<(), SettingsError> {
    if document.schema_version != 1 {
        Err(SettingsError::Invalid(SettingsField::SchemaVersion))
    } else if document.jira is Some && jira_settings_outcome(document.jira->0) is Err {
        jira_settings_outcome(document.jira->0)
    } else if document.hours is Some && hours_settings_outcome(document.hours->0) is Err {
        hours_settings_outcome(document.hours->0)
    } else if document.bitbucket is Some && bitbucket_settings_outcome(document.bitbucket->0) is Err {
        bitbucket_settings_outcome(document.bitbucket->0)
    } else if document.mcp is Some {
        consent_outcome(document.mcp->0.modules@, 0)
    } else {
        Ok(())
    }
}

/// `Ok` when `valid`, else the field's error.
pub fn require(valid: bool, field: SettingsField) -> (r: Result<(), SettingsError>)
    ensures
        r == (if valid {
            Ok(())
        } else {
            Err(SettingsError::Invalid(field))
        }),
{
    if valid {
        Ok(())
    } else {
        Err(SettingsError::Invalid(field))
    }
}

fn validate_email(email: &Option<String>, field: SettingsField) -> (r: Result<(), SettingsError>)
    ensures
        r == (if email_valid(*email) {
            Ok(())
        } else {
            Err(SettingsError::Invalid(field))
        }),
{
    let valid = match email {
        Some(email) => str_contains_char(email.as_str(), '@') && !str_has_whitespace(
            email.as_str(),
        ),
        None => true,
    };
    require(valid, field)
}

fn validate_jira(jira: &JiraSettings) -> (r: Result<(), SettingsError>)
    ensures
        r == jira_settings_outcome(*jira),
{
    require(jira.board_id != Some(0u64), SettingsField::JiraBoardId)?;
    require(jira.request_timeout_seconds != Some(0u64), SettingsField::JiraRequestTimeoutSeconds)?;
    require(jira.page_size != Some(0u16), SettingsField::JiraPageSize)?;
    require(jira.maximum_collection_items != Some(0usize), SettingsField::JiraMaximumCollectionItems)?;
    require(
        jira.maximum_issue_search_results != Some(0usize),
        SettingsField::JiraMaximumIssueSearchResults,
    )?;
    require(
        jira.maximum_concurrent_worklog_requests != Some(0usize),
        SettingsField::JiraMaximumConcurrentWorklogRequests,
    )?;
    validate_email(&jira.email, SettingsField::JiraEmail)?;
    let url_valid = match &jira.base_url {
        Some(url) => !str_is_blank(url.as_str()),
        None => true,
    };
    require(url_valid, SettingsField::JiraBaseUrl)
}

/// Checks the supplied hours values, in the order of the fields: the first
/// one out of its bounds is the error.
pub fn validate_hours(hours: &HoursSettings) -> (r: Result<(), SettingsError>)
    ensures
        r == hours_settings_outcome(*hours),
{
    let target_valid = match hours.weekly_target_hours {
        Some(target) => 1 <= target && target <= 168,
        None => true,
    };
    require(target_valid, SettingsField::HoursWeeklyTargetHours)?;
    let offset_valid = match hours.utc_offset_minutes {
        Some(offset) => -840 <= offset && offset <= 840,
        None => true,
    };
    require(offset_valid, SettingsField::HoursUtcOffsetMinutes)?;
    let daily_valid = match hours.maximum_daily_hours {
        Some(daily) => 1 <= daily && daily <= 24,
        None => true,
    };
    require(daily_valid, SettingsField::HoursMaximumDailyHours)?;
    let period_valid = match hours.maximum_report_period_days {
        Some(days) => 1 <= days && days <= MAXIMUM_REPORT_PERIOD_DAYS,
        None => true,
    };
    require(period_valid, SettingsField::HoursMaximumReportPeriodDays)?;
    let hour_valid = match hours.default_worklog_start_hour {
        Some(hour) => hour < 24,
        None => true,
    };
    require(hour_valid, SettingsField::HoursDefaultWorklogStartHour)?;
    let minute_valid = match hours.default_worklog_start_minute {
        Some(minute) => minute < 60,
        None => true,
    };
    require(minute_valid, SettingsField::HoursDefaultWorklogStartMinute)
}

fn validate_bitbucket(settings: &BitbucketSettings) -> (r: Result<(), SettingsError>)
    ensures
        r == bitbucket_settings_outcome(*settings),
{
    validate_email(&settings.email, SettingsField::BitbucketEmail)?;
    require(
        settings.request_timeout_seconds != Some(0u64),
        SettingsField::BitbucketRequestTimeoutSeconds,
    )?;
    require(settings.page_size != Some(0u16), SettingsField::BitbucketPageSize)?;
    require(
        settings.maximum_collection_items != Some(0usize),
        SettingsField::BitbucketMaximumCollectionItems,
    )
}

fn validate_module_consent(entry: &ModuleConsent) -> (r: Result<(), SettingsError>)
    ensures
        r == module_consent_outcome(*entry, 0),
{
    let capabilities = &entry.settings.capabilities;
    let mut k: usize = 0;
    while k < capabilities.len()
        invariant
            k <= capabilities.len(),
            capabilities@ == entry.settings.capabilities@,
            module_consent_outcome(*entry, 0) == module_consent_outcome(*entry, k as int),
        decreases capabilities.len() - k,
    {
        let capability = capabilities[k];
        require(capability.module() == entry.module, SettingsField::McpModulesCapabilities)?;
        let read_granted = match capability.required_read() {
            Some(read) => contains_capability(capabilities, read),
            None => true,
        };
        require(read_granted, SettingsField::McpModulesRequiredRead)?;
        k = k + 1;
    }
    Ok(())
}

/// Checks the assistant consent: each granted capability belongs to its
/// module and comes with the read capability it depends on.
pub fn validate_consent(consent: &Option<McpSettings>) -> (r: Result<(), SettingsError>)
    ensures
        r == (match *consent {
            Some(settings) => consent_outcome(settings.modules@, 0),
            None => Ok(()),
        }),
{
    let settings = match consent {
        Some(settings) => settings,
        None => return Ok(()),
    };
    let entries = &settings.modules;
    let mut i: usize = 0;
    while i < entries.len()
        invariant
            i <= entries.len(),
            *consent == Some(*settings),
            entries@ == settings.modules@,
            consent_outcome(entries@, 0) == consent_outcome(entries@, i as int),
        decreases entries.len() - i,
    {
        validate_module_consent(&entries[i])?;
        i = i + 1;
    }
    Ok(())
}

/// The place of a module in the declared order.
pub open spec fn module_rank(module: IntegrationModuleId) -> int {
    match module {
        IntegrationModuleId::Jira => 0,
        IntegrationModuleId::Bitbucket => 1,
    }
}

/// A map from module to its consent, held as a list: the modules in declared
/// order, none twice, and each module's capabilities a capability set.
pub open spec fn consent_map(modules: Seq<ModuleConsent>) -> bool {
    &&& forall|i: int, j: int|
        0 <= i < j < modules.len() ==> module_rank(#[trigger] modules[i].module) < module_rank(
            #[trigger] modules[j].module,
        )
    &&& forall|i: int| 0 <= i < modules.len() ==> capability_set(#[trigger] modules[i].settings.capabilities@)
}

impl SettingsDocument {
    /// The document's sets and maps are held as the lists those describe:
    /// the consent by module in declared order, the workspaces, repositories
    /// and default pull request approvers in increasing order, none twice.
    pub open spec fn sets_well_formed(self) -> bool {
        &&& match self.mcp {
            Some(mcp) => consent_map(mcp.modules@),
            None => true,
        }
        &&& match self.bitbucket {
            Some(bitbucket) => optional_workspace_map(bitbucket.workspaces) && match bitbucket.pull_request_defaults {
                Some(defaults) => text_set(defaults.reviewer_account_ids@),
                None => true,
            },
            None => true,
        }
    }
}

impl SettingsDocument {
    /// Checks intrinsic bounds while allowing incomplete, secret-free drafts.
    pub fn validate(&self) -> (r: Result<(), SettingsError>)
        requires
            self.sets_well_formed(),
        ensures
            r == settings_outcome(*self),
    {
        require(self.schema_version == SCHEMA_VERSION, SettingsField::SchemaVersion)?;
        match &self.jira {
            Some(jira) => validate_jira(jira)?,
            None => {},
        }
        match &self.hours {
            Some(hours) => validate_hours(hours)?,
            None => {},
        }
        match &self.bitbucket {
            Some(bitbucket) => validate_bitbucket(bitbucket)?,
            None => {},
        }
        validate_consent(&self.mcp)
    }
}

/// The document that a save commits: the stored revision must be the one the
/// saver observed, and the committed revision is the next one.
pub open spec fn commit_outcome(
    document: SettingsDocument,
    expected_revision: u64,
    actual_revision: u64,
) -> Result<SettingsDocument, SettingsError> {
    if actual_revision != expected_revision {
        Err(SettingsError::Conflict { expected: expected_revision, actual: actual_revision })
    } else if actual_revision == u64::MAX {
        Err(SettingsError::Invalid(SettingsField::Revision))
    } else {
        Ok(SettingsDocument { revision: (actual_revision + 1) as u64, ..document })
    }
}

impl SettingsDocument {
    /// The document to write when the stored revision is `actual_revision` and
    /// the saver observed `expected_revision`.
    pub fn commit(self, expected_revision: u64, actual_revision: u64) -> (r: Result<
        SettingsDocument,
        SettingsError,
    >)
        ensures
            r == commit_outcome(self, expected_revision, actual_revision),
    {
        if actual_revision != expected_revision {
            return Err(
                SettingsError::Conflict { expected: expected_revision, actual: actual_revision },
            );
        }
        match actual_revision.checked_add(1) {
            Some(revision) => Ok(SettingsDocument { revision, ..self }),
            None => Err(SettingsError::Invalid(SettingsField::Revision)),
        }
    }
}

/// The revision a save compares against: that of the stored document, or 0 when there is none.
pub fn stored_revision(stored: &Option<SettingsDocument>) -> (revision: u64)
    ensures
        revision == (match *stored {
            Some(document) => document.revision,
            None => 0,
        }),
{
    match stored {
        Some(document) => document.revision,
        None => 0,
    }
}

/// A document of `length` bytes may be read or written: it is at most 1 MiB.
pub fn check_size(length: u64) -> (r: Result<(), SettingsError>)
    ensures
        r == (if length <= MAXIMUM_BYTES {
            Ok(())
        } else {
            Err(SettingsError::TooLarge)
        }),
{
    if length > MAXIMUM_BYTES {
        return Err(SettingsError::TooLarge);
    }
    Ok(())
}

} // verus!

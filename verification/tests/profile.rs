use std::collections::BTreeSet;

use worklogger::profile::{
    BitbucketModuleProfile, BrandingProfile, Capability, HoursProfile, IntegrationModuleId,
    JiraModuleProfile, JiraSiteProfile, LegacyJiraProfile, LegacyJiraSiteProfile, LegacyProfile,
    ModuleProfiles, OrganizationProfile, ProfileError, ProfileSection, ProviderScopeMode,
    ReportsModuleProfile, TeamReportAccessPolicy, UtcOffsetOption, WorkspaceRepositories,
};

fn branding() -> BrandingProfile {
    BrandingProfile {
        company_name: "Example".to_owned(),
        logo_url: None,
        primary_color: "#0052CC".to_owned(),
        text_color: "#172B4D".to_owned(),
        muted_color: "#5E6C84".to_owned(),
        surface_color: "#FFFFFF".to_owned(),
        border_color: "#DFE1E6".to_owned(),
        chart_palette: ["#0052CC", "#36B37E", "#FFAB00", "#FF5630", "#6554C0", "#00B8D9"]
            .iter()
            .map(|color| (*color).to_owned())
            .collect(),
    }
}

fn hours() -> HoursProfile {
    HoursProfile {
        minimum_weekly_target_hours: 1,
        maximum_weekly_target_hours: 60,
        suggested_weekly_target_hours: 40,
        maximum_daily_hours: 12,
        default_worklog_start_hour: 9,
        default_worklog_start_minute: 0,
        default_duration_minutes: 60,
        maximum_custom_range_days: 31,
        suggested_utc_offset_minutes: -180,
        utc_offset_options: vec![
            UtcOffsetOption { minutes: -180, label: "UTC-03:00".to_owned() },
            UtcOffsetOption { minutes: 0, label: "UTC".to_owned() },
        ],
    }
}

fn jira() -> JiraModuleProfile {
    JiraModuleProfile {
        scope_mode: ProviderScopeMode::Restricted,
        sites: vec![JiraSiteProfile {
            name: "Example".to_owned(),
            url: "https://example.atlassian.net".to_owned(),
            allowed_board_ids: Some(BTreeSet::from([42])),
        }],
        request_timeout_seconds: 30,
        page_size: 50,
        maximum_collection_items: 2_000,
        maximum_issue_search_results: 20,
        maximum_concurrent_worklog_requests: 8,
        maximum_allowed_request_timeout_seconds: 120,
        maximum_allowed_page_size: 100,
        maximum_allowed_collection_items: 10_000,
        maximum_allowed_issue_search_results: 100,
        maximum_allowed_concurrent_worklog_requests: 16,
        mcp_capabilities: vec![
            Capability::ReadJiraIssues,
            Capability::ReadOwnTimeEntries,
            Capability::WriteOwnTimeEntries,
        ],
        hours: hours(),
    }
}

fn bitbucket() -> BitbucketModuleProfile {
    BitbucketModuleProfile {
        scope_mode: ProviderScopeMode::Restricted,
        workspaces: Some(vec![WorkspaceRepositories {
            workspace: "example-workspace".to_owned(),
            repositories: vec!["example-repository".to_owned()],
        }]),
        request_timeout_seconds: 30,
        page_size: 50,
        maximum_collection_items: 1_000,
        maximum_allowed_request_timeout_seconds: 120,
        maximum_allowed_page_size: 100,
        maximum_allowed_collection_items: 10_000,
        mcp_capabilities: vec![
            Capability::ReadBitbucketPullRequests,
            Capability::CreateBitbucketPullRequests,
        ],
    }
}

fn reports() -> ReportsModuleProfile {
    ReportsModuleProfile {
        pdf_export_enabled: true,
        team_report_access_policy: TeamReportAccessPolicy::BrowseProject,
        maximum_task_slices: 6,
        maximum_trend_labels: 8,
        maximum_team_chart_members: 8,
        table_page_size: 10,
    }
}

fn modular_profile() -> OrganizationProfile {
    OrganizationProfile {
        schema_version: 2,
        branding: branding(),
        modules: ModuleProfiles {
            jira: Some(jira()),
            bitbucket: Some(bitbucket()),
            reports: Some(reports()),
        },
    }
}

#[test]
fn reads_a_modular_profile_with_optional_modules() {
    let profile = modular_profile();

    assert!(profile.validate(true).is_ok());
    assert_eq!(profile.schema_version, 2);
    assert!(profile.modules.jira.is_some());
    assert!(profile.modules.bitbucket.is_some());
    assert!(profile.modules.reports.is_some());
    assert!(profile.allows(Capability::ReadOwnTimeEntries));
}

#[test]
fn migrates_the_flat_profile_without_inventing_new_modules() {
    let legacy = LegacyProfile {
        schema_version: 1,
        branding: branding(),
        jira: LegacyJiraProfile {
            sites: vec![LegacyJiraSiteProfile {
                name: "Example".to_owned(),
                url: "https://example.atlassian.net".to_owned(),
            }],
            request_timeout_seconds: 30,
            page_size: 50,
            maximum_collection_items: 2_000,
            maximum_issue_search_results: 20,
            maximum_concurrent_worklog_requests: 8,
            maximum_allowed_request_timeout_seconds: 120,
            maximum_allowed_page_size: 100,
            maximum_allowed_collection_items: 10_000,
            maximum_allowed_issue_search_results: 100,
            maximum_allowed_concurrent_worklog_requests: 16,
        },
        hours: hours(),
        reports: reports(),
    };
    let profile = legacy.into_current();
    let jira = profile.modules.jira.clone().expect("Jira is migrated");

    assert_eq!(profile.schema_version, 2);
    assert_eq!(jira.hours.suggested_weekly_target_hours, 40);
    assert!(profile.modules.bitbucket.is_none());
    assert!(profile.modules.reports.is_some());
    assert!(profile.validate(true).is_ok());
}

#[test]
fn rejects_a_capability_under_the_wrong_module() {
    let mut invalid = modular_profile();
    invalid.modules.jira.as_mut().expect("Jira exists").mcp_capabilities = vec![
        Capability::ReadJiraIssues,
        Capability::ReadBitbucketPullRequests,
        Capability::WriteOwnTimeEntries,
    ];

    assert_eq!(
        invalid.validate(true),
        Err(ProfileError::CapabilityModuleMismatch {
            expected: IntegrationModuleId::Jira,
            actual: IntegrationModuleId::Bitbucket,
        })
    );
}

#[test]
fn rejects_write_capabilities_without_their_required_read_capability() {
    let mut invalid = modular_profile();
    invalid.modules.bitbucket.as_mut().expect("Bitbucket exists").mcp_capabilities =
        vec![Capability::CreateBitbucketPullRequests];

    assert_eq!(
        invalid.validate(true),
        Err(ProfileError::MissingRequiredCapability {
            capability: Capability::CreateBitbucketPullRequests,
            required: Capability::ReadBitbucketPullRequests,
        })
    );
}

#[test]
fn writing_own_hours_requires_reading_own_hours() {
    assert_eq!(
        Capability::WriteOwnTimeEntries.required_read(),
        Some(Capability::ReadOwnTimeEntries)
    );
}

#[test]
fn absent_module_denies_its_capabilities() {
    let mut profile = modular_profile();
    profile.modules.bitbucket = None;

    assert!(profile.validate(true).is_ok());
    assert!(!profile.allows(Capability::ReadBitbucketPullRequests));
    assert!(!profile.allows_bitbucket_repository("example-workspace", "example-repository"));
}

#[test]
fn jira_scope_normalizes_site_urls_and_rejects_other_boards() {
    let profile = modular_profile();

    assert!(profile.allows_jira_board("https://EXAMPLE.atlassian.net/", 42));
    assert!(!profile.allows_jira_board("https://example.atlassian.net", 43));
}

#[test]
fn unrestricted_scope_must_be_explicit_and_cannot_hide_restrictions() {
    let mut invalid = modular_profile();
    invalid.modules.jira.as_mut().expect("Jira exists").scope_mode =
        ProviderScopeMode::Unrestricted;

    assert_eq!(
        invalid.validate(true),
        Err(ProfileError::InvalidJira(ProfileSection::Sites))
    );
}

#[test]
fn rejects_logo_urls_with_credentials_or_dynamic_parts() {
    let mut with_credentials = modular_profile();
    with_credentials.branding.logo_url = Some("https://secret@example.com/logo.svg".to_owned());
    let mut with_query = modular_profile();
    with_query.branding.logo_url = Some("https://example.com/logo.svg?token=secret".to_owned());

    assert_eq!(with_credentials.validate(true), Err(ProfileError::InvalidBranding));
    assert_eq!(with_query.validate(true), Err(ProfileError::InvalidBranding));
}

#[test]
fn bitbucket_scope_allows_only_listed_repositories() {
    let profile = modular_profile();

    assert!(profile.allows_bitbucket_repository("example-workspace", "example-repository"));
    assert!(!profile.allows_bitbucket_repository("example-workspace", "other-repository"));
    assert!(!profile.allows_bitbucket_repository("other-workspace", "example-repository"));
}

#[test]
fn unsupported_schema_is_rejected_first() {
    let mut profile = modular_profile();
    profile.schema_version = 3;

    assert_eq!(profile.validate(true), Err(ProfileError::UnsupportedSchema));
}

#[test]
fn insufficient_text_contrast_rejects_the_branding() {
    assert_eq!(modular_profile().validate(false), Err(ProfileError::InvalidBranding));
}

#[test]
fn a_profile_without_modules_is_rejected() {
    let mut profile = modular_profile();
    profile.modules = ModuleProfiles { jira: None, bitbucket: None, reports: None };

    assert_eq!(profile.validate(true), Err(ProfileError::EmptyModules));
}

#[test]
fn hours_profile_offers_only_listed_offsets_and_targets() {
    let hours = hours();

    assert!(hours.allows_utc_offset(-180));
    assert!(!hours.allows_utc_offset(15));
    assert!(hours.allows_weekly_target(40));
    assert!(!hours.allows_weekly_target(61));
    assert!(!hours.allows_weekly_target(0));
}

#[test]
fn every_capability_belongs_to_one_module_and_requires_reading_it() {
    assert_eq!(Capability::ReadOwnTimeEntries.module(), IntegrationModuleId::Jira);
    assert_eq!(
        Capability::MergeBitbucketPullRequests.module(),
        IntegrationModuleId::Bitbucket
    );
    assert_eq!(Capability::ReadJiraIssues.required_read(), None);
    assert_eq!(
        Capability::MergeBitbucketPullRequests.required_read(),
        Some(Capability::ReadBitbucketPullRequests)
    );
}

#[test]
fn team_report_policy_follows_the_required_permission() {
    assert!(TeamReportAccessPolicy::BrowseProject.allows(true, false));
    assert!(!TeamReportAccessPolicy::ProjectAdmin.allows(true, false));
    assert!(TeamReportAccessPolicy::ProjectAdmin.allows(false, true));
}

#[test]
fn invalid_hours_limits_are_reported_as_hours() {
    let mut profile = modular_profile();
    profile.modules.jira.as_mut().expect("Jira exists").hours.maximum_daily_hours = 25;

    assert_eq!(
        profile.validate(true),
        Err(ProfileError::InvalidJira(ProfileSection::Hours))
    );
}

#[test]
fn extreme_offset_options_are_rejected_without_overflowing() {
    let mut profile = modular_profile();
    profile.modules.jira.as_mut().expect("Jira exists").hours.utc_offset_options[0].minutes =
        i16::MIN;

    assert_eq!(
        profile.validate(true),
        Err(ProfileError::InvalidJira(ProfileSection::Hours))
    );
}

#[test]
fn unrestricted_bitbucket_scope_accepts_no_list_or_an_empty_one() {
    let mut without_list = modular_profile();
    let mut empty_list = modular_profile();
    let mut listed = modular_profile();
    for (profile, workspaces) in [
        (&mut without_list, None),
        (&mut empty_list, Some(Vec::new())),
        (&mut listed, bitbucket().workspaces),
    ] {
        let module = profile.modules.bitbucket.as_mut().expect("Bitbucket exists");
        module.scope_mode = ProviderScopeMode::Unrestricted;
        module.workspaces = workspaces;
    }
    assert_eq!(without_list.validate(true), Ok(()));
    assert_eq!(empty_list.validate(true), Ok(()));
    assert_eq!(
        listed.validate(true),
        Err(ProfileError::InvalidBitbucket(ProfileSection::Workspaces))
    );
}

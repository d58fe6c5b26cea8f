use worklogger::profile::{Capability, IntegrationModuleId};
use worklogger::settings::{
    check_size, stored_revision, HoursSettings, JiraSettings, Language, McpSettings,
    ModuleConsent, ModuleSettings, SettingsDocument, SettingsError, SettingsField,
};
use worklogger::storage::{
    check_profile_size, OrganizationProfileStore, ProfileStorageError, SettingsStore,
};

#[test]
fn stale_frontend_cannot_overwrite_newer_settings() {
    let store = SettingsStore::at("settings.json".to_owned());
    let initial = store.save(SettingsDocument::default(), 0, &None).unwrap();
    let mut desktop = initial.clone();
    desktop.hours = Some(HoursSettings {
        weekly_target_hours: Some(35),
        ..HoursSettings::default()
    });
    let saved = store.save(desktop, initial.revision, &Some(initial.clone())).unwrap();
    assert_eq!(saved.revision, 2);
    assert_eq!(
        store.save(initial.clone(), initial.revision, &Some(saved.clone())),
        Err(SettingsError::Conflict { expected: 1, actual: 2 })
    );
}

#[test]
fn incompatible_time_values_fail_without_overflowing() {
    let document = SettingsDocument {
        hours: Some(HoursSettings {
            utc_offset_minutes: Some(i16::MIN),
            ..HoursSettings::default()
        }),
        ..SettingsDocument::default()
    };
    assert!(document.validate().is_err());
}

#[test]
fn first_save_commits_revision_one() {
    let store = SettingsStore::at("settings.json".to_owned());
    let saved = store.save(SettingsDocument::default(), 0, &None).unwrap();
    assert_eq!(saved.revision, 1);
    assert_eq!(store.path(), "settings.json");
}

#[test]
fn language_is_kept_by_a_save() {
    let store = SettingsStore::at("settings.json".to_owned());
    let saved = store
        .save(
            SettingsDocument { language: Some(Language::Spanish), ..SettingsDocument::default() },
            0,
            &None,
        )
        .unwrap();
    assert_eq!(saved.language, Some(Language::Spanish));
}

#[test]
fn invalid_documents_are_rejected_before_the_revision_is_checked() {
    let store = SettingsStore::at("settings.json".to_owned());
    let document = SettingsDocument {
        jira: Some(JiraSettings { board_id: Some(0), ..JiraSettings::default() }),
        ..SettingsDocument::default()
    };
    assert_eq!(
        store.save(document, 7, &None),
        Err(SettingsError::Invalid(SettingsField::JiraBoardId))
    );
}

#[test]
fn the_last_revision_cannot_be_exceeded() {
    let stored = SettingsDocument { revision: u64::MAX, ..SettingsDocument::default() };
    assert_eq!(
        SettingsDocument::default().commit(u64::MAX, stored_revision(&Some(stored))),
        Err(SettingsError::Invalid(SettingsField::Revision))
    );
}

#[test]
fn consent_needs_the_read_capability_of_the_module() {
    let document = SettingsDocument {
        mcp: Some(McpSettings {
            modules: vec![ModuleConsent {
                module: IntegrationModuleId::Jira,
                settings: ModuleSettings {
                    enabled: true,
                    capabilities: vec![Capability::WriteOwnTimeEntries],
                },
            }],
        }),
        ..SettingsDocument::default()
    };
    assert_eq!(
        document.validate(),
        Err(SettingsError::Invalid(SettingsField::McpModulesRequiredRead))
    );
}

#[test]
fn consent_rejects_capabilities_of_another_module() {
    let document = SettingsDocument {
        mcp: Some(McpSettings {
            modules: vec![ModuleConsent {
                module: IntegrationModuleId::Jira,
                settings: ModuleSettings {
                    enabled: true,
                    capabilities: vec![Capability::ReadBitbucketPullRequests],
                },
            }],
        }),
        ..SettingsDocument::default()
    };
    assert_eq!(
        document.validate(),
        Err(SettingsError::Invalid(SettingsField::McpModulesCapabilities))
    );
}

#[test]
fn oversized_documents_are_refused() {
    assert!(check_size(1_048_576).is_ok());
    assert_eq!(check_size(1_048_577), Err(SettingsError::TooLarge));
    assert!(check_profile_size(1_048_576).is_ok());
    assert_eq!(check_profile_size(1_048_577), Err(ProfileStorageError::TooLarge));
}

#[test]
fn a_non_empty_override_chooses_the_store() {
    let store = OrganizationProfileStore::for_current_user(
        Some("/tmp/organization.json".to_owned()),
        Some("/home/person/.config/worklogger/organization.json".to_owned()),
    )
    .unwrap();
    assert_eq!(store.path(), "/tmp/organization.json");
    let fallback = SettingsStore::for_current_user(
        Some(String::new()),
        Some("/home/person/.config/worklogger/settings.json".to_owned()),
    )
    .unwrap();
    assert_eq!(fallback.path(), "/home/person/.config/worklogger/settings.json");
    assert!(matches!(
        SettingsStore::for_current_user(None, None),
        Err(SettingsError::MissingDirectory)
    ));
    assert!(matches!(
        OrganizationProfileStore::for_current_user(Some(String::new()), None),
        Err(ProfileStorageError::MissingUserConfigurationDirectory)
    ));
}

#[test]
fn each_field_has_its_document_name() {
    assert_eq!(SettingsField::HoursUtcOffsetMinutes.name(), "hours.utcOffsetMinutes");
    assert_eq!(SettingsField::JiraBoardId.name(), "jira.boardId");
}

//! What holds of the desktop settings across the shared document.

use vstd::prelude::*;

use crate::desktop_settings::{
    app_settings_outcome, from_shared_outcome, shared_with, AppSettings, SettingsError,
};
use crate::profile::OrganizationProfile;
use crate::settings::SettingsDocument;

verus! {

/// Valid desktop settings written into any shared document are read back
/// unchanged from it: the desktop sees what it saved.
pub proof fn lemma_desktop_reads_back_what_it_wrote(
    document: SettingsDocument,
    app: AppSettings,
    profile: OrganizationProfile,
    site_accepted: bool,
)
    requires
        profile.modules.jira is Some,
        profile.modules.jira.unwrap().hours.suggested_weekly_target_hours <= u16::MAX,
        app_settings_outcome(app, profile, site_accepted) is Ok,
        app.hours.legacy_enable_team_reports is None,
    ensures
        from_shared_outcome(shared_with(document, app), profile, site_accepted) == Ok::<
            Option<AppSettings>,
            SettingsError,
        >(Some(app)),
{
}

/// A shared document that does not name a board yields no desktop settings,
/// whatever else it holds: the desktop never invents a board.
pub proof fn lemma_no_board_no_desktop_settings(
    document: SettingsDocument,
    profile: OrganizationProfile,
    site_accepted: bool,
)
    requires
        profile.modules.jira is Some,
        document.jira is None || document.jira.unwrap().board_id is None,
    ensures
        from_shared_outcome(document, profile, site_accepted) == Ok::<
            Option<AppSettings>,
            SettingsError,
        >(None),
{
}

/// Saving the desktop settings never changes the assistant's grants: the
/// consent in the shared document is the one it held before.
pub proof fn lemma_desktop_never_grants_assistant_tools(document: SettingsDocument, app: AppSettings)
    ensures
        shared_with(document, app).mcp == document.mcp,
        shared_with(document, app).language == document.language,
        shared_with(document, app).bitbucket == document.bitbucket,
{
}

} // verus!

//! What holds of every profile, across the profile's functions.

use vstd::prelude::*;

use crate::profile::{
    capability_outcome, dependency_outcome, jira_outcome, bitbucket_outcome, modules_outcome,
    profile_outcome, first_matching_site, site_allows_board, Capability, IntegrationModuleId,
    OrganizationProfile, ProviderScopeMode,
};
use crate::profile::{branding_text_invalid, interface_colors_valid, ProfileError};
use crate::text::{is_hex_color, same_site, trim_trailing_slashes};

verus! {

/// A write capability depends on a read capability of its own module, and a
/// read capability depends on nothing.
pub proof fn lemma_required_read_is_a_read_of_the_same_module(capability: Capability)
    ensures
        capability.spec_required_read() matches Some(read) ==> read.spec_module()
            == capability.spec_module() && read.spec_required_read() is None,
{
}

proof fn lemma_dependencies_present(capabilities: Seq<Capability>, start: int, i: int)
    requires
        0 <= start <= i < capabilities.len(),
        dependency_outcome(capabilities, start) is Ok,
    ensures
        capabilities[i].spec_required_read() matches Some(read) ==> capabilities.contains(read),
    decreases i - start,
{
    if start < i {
        lemma_dependencies_present(capabilities, start + 1, i);
    }
}

proof fn lemma_capabilities_consistent(capabilities: Seq<Capability>, module: IntegrationModuleId, c: Capability)
    requires
        capability_outcome(capabilities, module) is Ok,
        capabilities.contains(c),
    ensures
        c.spec_module() == module,
        c.spec_required_read() matches Some(read) ==> capabilities.contains(read),
{
    let i = choose|i: int| 0 <= i < capabilities.len() && capabilities[i] == c;
    assert(capabilities[i].spec_module() == module);
    lemma_dependencies_present(capabilities, 0, i);
}

/// In a profile that validates, an allowed capability belongs to its module's
/// list and its required read capability is allowed too.
pub proof fn lemma_valid_profile_allows_required_reads(
    profile: OrganizationProfile,
    text_contrast_sufficient: bool,
    capability: Capability,
)
    requires
        profile_outcome(profile, text_contrast_sufficient) is Ok,
        profile.spec_allows(capability),
    ensures
        capability.spec_required_read() matches Some(read) ==> profile.spec_allows(read),
{
    let modules = profile.modules;
    assert(modules_outcome(modules) is Ok);
    match capability.spec_module() {
        IntegrationModuleId::Jira => {
            let jira = modules.jira->0;
            assert(jira_outcome(jira) is Ok);
            lemma_capabilities_consistent(jira.mcp_capabilities@, IntegrationModuleId::Jira, capability);
        },
        IntegrationModuleId::Bitbucket => {
            let bitbucket = modules.bitbucket->0;
            assert(bitbucket_outcome(bitbucket) is Ok);
            lemma_capabilities_consistent(
                bitbucket.mcp_capabilities@,
                IntegrationModuleId::Bitbucket,
                capability,
            );
        },
    }
}

/// In a profile that validates, every capability a module lists belongs to that module.
pub proof fn lemma_valid_profile_lists_only_own_capabilities(
    profile: OrganizationProfile,
    text_contrast_sufficient: bool,
    capability: Capability,
)
    requires
        profile_outcome(profile, text_contrast_sufficient) is Ok,
    ensures
        profile.modules.jira matches Some(jira) && jira.mcp_capabilities@.contains(capability)
            ==> capability.spec_module() == IntegrationModuleId::Jira,
        profile.modules.bitbucket matches Some(bitbucket) && bitbucket.mcp_capabilities@.contains(
            capability,
        ) ==> capability.spec_module() == IntegrationModuleId::Bitbucket,
{
    let modules = profile.modules;
    if modules.jira is Some && modules.jira->0.mcp_capabilities@.contains(capability) {
        assert(jira_outcome(modules.jira->0) is Ok);
        lemma_capabilities_consistent(
            modules.jira->0.mcp_capabilities@,
            IntegrationModuleId::Jira,
            capability,
        );
    }
    if modules.bitbucket is Some && modules.bitbucket->0.mcp_capabilities@.contains(capability) {
        assert(bitbucket_outcome(modules.bitbucket->0) is Ok);
        lemma_capabilities_consistent(
            modules.bitbucket->0.mcp_capabilities@,
            IntegrationModuleId::Bitbucket,
            capability,
        );
    }
}

/// A module that is absent from the profile denies all of its capabilities and scopes.
pub proof fn lemma_absent_module_denies_its_capabilities(
    profile: OrganizationProfile,
    capability: Capability,
    site_url: Seq<char>,
    board_id: u64,
    workspace: Seq<char>,
    repository: Seq<char>,
)
    ensures
        profile.modules.jira is None ==> !profile.spec_allows_jira_board(site_url, board_id),
        profile.modules.jira is None && capability.spec_module() == IntegrationModuleId::Jira
            ==> !profile.spec_allows(capability),
        profile.modules.bitbucket is None ==> !profile.spec_allows_bitbucket_repository(
            workspace,
            repository,
        ),
        profile.modules.bitbucket is None && capability.spec_module()
            == IntegrationModuleId::Bitbucket ==> !profile.spec_allows(capability),
{
}

/// In a profile that validates, a provider scope is unrestricted exactly when it
/// lists no sites or workspaces (no workspace list, or an empty one): an
/// unrestricted scope cannot hide restrictions.
pub proof fn lemma_valid_scope_mode_matches_its_lists(
    profile: OrganizationProfile,
    text_contrast_sufficient: bool,
)
    requires
        profile_outcome(profile, text_contrast_sufficient) is Ok,
    ensures
        profile.modules.jira matches Some(jira) ==> (jira.scope_mode
            == ProviderScopeMode::Unrestricted <==> jira.sites.len() == 0),
        profile.modules.bitbucket matches Some(bitbucket) ==> (bitbucket.scope_mode
            == ProviderScopeMode::Unrestricted <==> (match bitbucket.workspaces {
            None => true,
            Some(entries) => entries@.len() == 0,
        })),
{
    let modules = profile.modules;
    assert(modules_outcome(modules) is Ok);
    if modules.jira is Some {
        assert(jira_outcome(modules.jira->0) is Ok);
    }
    if modules.bitbucket is Some {
        assert(bitbucket_outcome(modules.bitbucket->0) is Ok);
    }
}

/// In a profile that validates, the suggested weekly target and time zone are
/// ones the hours policy allows.
pub proof fn lemma_valid_profile_suggestions_are_allowed(
    profile: OrganizationProfile,
    text_contrast_sufficient: bool,
)
    requires
        profile_outcome(profile, text_contrast_sufficient) is Ok,
    ensures
        profile.modules.jira matches Some(jira) ==> jira.hours.spec_allows_weekly_target(
            jira.hours.suggested_weekly_target_hours,
        ) && jira.hours.spec_allows_utc_offset(jira.hours.suggested_utc_offset_minutes),
{
    let modules = profile.modules;
    assert(modules_outcome(modules) is Ok);
    if modules.jira is Some {
        assert(jira_outcome(modules.jira->0) is Ok);
    }
}

/// A trailing `/` does not change which site a URL names.
pub proof fn lemma_trailing_slash_names_the_same_site(a: Seq<char>, b: Seq<char>)
    ensures
        same_site(a.push('/'), b) == same_site(a, b),
        same_site(a, b) == same_site(b, a),
{
    assert(a.push('/').drop_last() =~= a);
    assert(trim_trailing_slashes(a.push('/')) == trim_trailing_slashes(a));
}

/// A trailing `/` on the site URL does not change whether a profile allows a board.
pub proof fn lemma_board_scope_ignores_a_trailing_slash(
    profile: OrganizationProfile,
    site_url: Seq<char>,
    board_id: u64,
)
    ensures
        profile.spec_allows_jira_board(site_url.push('/'), board_id)
            == profile.spec_allows_jira_board(site_url, board_id),
{
    assert(site_url.push('/').drop_last() =~= site_url);
    assert(trim_trailing_slashes(site_url.push('/')) == trim_trailing_slashes(site_url));
    if profile.modules.jira is Some {
        let jira = profile.modules.jira->0;
        let sites = jira.sites@;
        let slashed = site_url.push('/');
        assert forall|i: int| #[trigger]
            first_matching_site(sites, slashed, i) == first_matching_site(sites, site_url, i) by {
            if 0 <= i < sites.len() {
                lemma_trailing_slash_names_the_same_site(site_url, sites[i].url@);
                lemma_trailing_slash_names_the_same_site(sites[i].url@, site_url);
            }
            assert forall|j: int| 0 <= j < i implies same_site(
                #[trigger] sites[j].url@,
                slashed,
            ) == same_site(sites[j].url@, site_url) by {
                lemma_trailing_slash_names_the_same_site(site_url, sites[j].url@);
                lemma_trailing_slash_names_the_same_site(sites[j].url@, site_url);
                lemma_trailing_slash_names_the_same_site(sites[j].url@, slashed);
            }
        }
        if jira.spec_allows_board(slashed, board_id) && jira.scope_mode != ProviderScopeMode::Unrestricted {
            let i = choose|i: int| #[trigger]
                first_matching_site(sites, slashed, i) && site_allows_board(sites[i], board_id);
            assert(first_matching_site(sites, site_url, i));
        }
        if jira.spec_allows_board(site_url, board_id) && jira.scope_mode != ProviderScopeMode::Unrestricted {
            let i = choose|i: int| #[trigger]
                first_matching_site(sites, site_url, i) && site_allows_board(sites[i], board_id);
            assert(first_matching_site(sites, slashed, i));
        }
    }
}


/// In a profile that validates, the chart palette holds 6 to 32 entries and
/// every one of them is a `#RRGGBB` colour.
pub proof fn lemma_valid_profile_has_a_hex_chart_palette(
    profile: OrganizationProfile,
    text_contrast_sufficient: bool,
)
    requires
        profile_outcome(profile, text_contrast_sufficient) is Ok,
    ensures
        6 <= profile.branding.chart_palette@.len() <= 32,
        forall|i: int|
            0 <= i < profile.branding.chart_palette@.len() ==> is_hex_color(
                (#[trigger] profile.branding.chart_palette@[i])@,
            ),
{
}

/// A profile of the supported schema whose chart palette holds an entry that is
/// not a `#RRGGBB` colour is refused for its branding.
pub proof fn lemma_non_hex_chart_colour_is_invalid_branding(
    profile: OrganizationProfile,
    text_contrast_sufficient: bool,
    i: int,
)
    requires
        profile.schema_version == 2,
        0 <= i < profile.branding.chart_palette@.len(),
        !is_hex_color(profile.branding.chart_palette@[i]@),
    ensures
        profile_outcome(profile, text_contrast_sufficient) == Err::<(), ProfileError>(
            ProfileError::InvalidBranding,
        ),
{
}


/// A profile of the supported schema whose chart palette holds fewer than 6 or
/// more than 32 entries is refused for its branding.
pub proof fn lemma_palette_size_out_of_range_is_invalid_branding(
    profile: OrganizationProfile,
    text_contrast_sufficient: bool,
)
    requires
        profile.schema_version == 2,
        profile.branding.chart_palette@.len() < 6 || profile.branding.chart_palette@.len() > 32,
    ensures
        profile_outcome(profile, text_contrast_sufficient) == Err::<(), ProfileError>(
            ProfileError::InvalidBranding,
        ),
{
}

/// Branding whose name and logo are usable, whose interface colours are
/// `#RRGGBB` colours and contrast enough, and whose chart palette holds 6 to 32
/// `#RRGGBB` colours passes: the profile of the supported schema is then decided
/// by its modules alone.
pub proof fn lemma_hex_palette_of_allowed_size_passes_branding(profile: OrganizationProfile)
    requires
        profile.schema_version == 2,
        !branding_text_invalid(profile.branding),
        interface_colors_valid(profile.branding),
        6 <= profile.branding.chart_palette@.len() <= 32,
        forall|i: int|
            0 <= i < profile.branding.chart_palette@.len() ==> is_hex_color(
                (#[trigger] profile.branding.chart_palette@[i])@,
            ),
    ensures
        profile_outcome(profile, true) == if profile.modules.jira is None
            && profile.modules.bitbucket is None && profile.modules.reports is None {
            Err::<(), ProfileError>(ProfileError::EmptyModules)
        } else {
            modules_outcome(profile.modules)
        },
{
}

} // verus!

//! What holds of shared settings across validation and saving.

use vstd::prelude::*;

use crate::profile::Capability;
use crate::settings::{
    commit_outcome, consent_outcome, module_consent_outcome, settings_outcome, ModuleConsent,
    SettingsDocument, SettingsError,
};

verus! {

/// A save commits the revision after the stored one, so a frontend that still
/// holds the revision it observed before that save cannot overwrite it.
pub proof fn lemma_stale_frontend_cannot_overwrite(
    first: SettingsDocument,
    stale: SettingsDocument,
    observed_revision: u64,
    stored_revision: u64,
)
    requires
        commit_outcome(first, observed_revision, stored_revision) is Ok,
    ensures
        commit_outcome(first, observed_revision, stored_revision)->Ok_0.revision == stored_revision + 1,
        commit_outcome(
            stale,
            observed_revision,
            commit_outcome(first, observed_revision, stored_revision)->Ok_0.revision,
        ) == Err::<SettingsDocument, SettingsError>(
            SettingsError::Conflict {
                expected: observed_revision,
                actual: (stored_revision + 1) as u64,
            },
        ),
{
}

/// Committing changes only the revision, so the committed document validates
/// exactly as the document that was saved.
pub proof fn lemma_commit_keeps_the_validated_content(
    document: SettingsDocument,
    expected_revision: u64,
    actual_revision: u64,
)
    requires
        commit_outcome(document, expected_revision, actual_revision) is Ok,
    ensures
        settings_outcome(commit_outcome(document, expected_revision, actual_revision)->Ok_0)
            == settings_outcome(document),
        commit_outcome(document, expected_revision, actual_revision)->Ok_0.jira == document.jira,
        commit_outcome(document, expected_revision, actual_revision)->Ok_0.hours == document.hours,
        commit_outcome(document, expected_revision, actual_revision)->Ok_0.mcp == document.mcp,
        commit_outcome(document, expected_revision, actual_revision)->Ok_0.language
            == document.language,
{
}

proof fn lemma_module_consent_ok(entry: ModuleConsent, k: int, j: int)
    requires
        0 <= k <= j < entry.settings.capabilities.len(),
        module_consent_outcome(entry, k) is Ok,
    ensures
        entry.settings.capabilities@[j].spec_module() == entry.module,
        entry.settings.capabilities@[j].spec_required_read() matches Some(read)
            ==> entry.settings.capabilities@.contains(read),
    decreases j - k,
{
    if k < j {
        lemma_module_consent_ok(entry, k + 1, j);
    }
}

proof fn lemma_consent_ok(entries: Seq<ModuleConsent>, i: int, m: int)
    requires
        0 <= i <= m < entries.len(),
        consent_outcome(entries, i) is Ok,
    ensures
        module_consent_outcome(entries[m], 0) is Ok,
    decreases m - i,
{
    if i < m {
        lemma_consent_ok(entries, i + 1, m);
    }
}

/// In a valid document, every capability a module grants belongs to that module
/// and comes with the read capability it depends on.
pub proof fn lemma_valid_consent_is_consistent(document: SettingsDocument, m: int, capability: Capability)
    requires
        settings_outcome(document) is Ok,
        document.mcp is Some,
        0 <= m < document.mcp->0.modules.len(),
        document.mcp->0.modules@[m].settings.capabilities@.contains(capability),
    ensures
        capability.spec_module() == document.mcp->0.modules@[m].module,
        capability.spec_required_read() matches Some(read)
            ==> document.mcp->0.modules@[m].settings.capabilities@.contains(read),
{
    let entries = document.mcp->0.modules@;
    lemma_consent_ok(entries, 0, m);
    let capabilities = entries[m].settings.capabilities@;
    let j = choose|j: int| 0 <= j < capabilities.len() && capabilities[j] == capability;
    lemma_module_consent_ok(entries[m], 0, j);
}

/// Every capability of the module's consent belongs to the module and comes
/// with its required read.
spec fn module_consistent(entry: ModuleConsent) -> bool {
    forall|c: Capability|
        #[trigger] entry.settings.capabilities@.contains(c) ==> c.spec_module() == entry.module && (
        c.spec_required_read() matches Some(read) ==> entry.settings.capabilities@.contains(read))
}

proof fn lemma_module_consistent_ok(entry: ModuleConsent, k: int)
    requires
        0 <= k,
        module_consistent(entry),
    ensures
        module_consent_outcome(entry, k) is Ok,
    decreases entry.settings.capabilities.len() - k,
{
    let capabilities = entry.settings.capabilities@;
    if k < capabilities.len() {
        assert(capabilities.contains(capabilities[k]));
        lemma_module_consistent_ok(entry, k + 1);
    }
}

proof fn lemma_consistent_from(entries: Seq<ModuleConsent>, i: int)
    requires
        0 <= i,
        forall|m: int| 0 <= m < entries.len() ==> module_consistent(#[trigger] entries[m]),
    ensures
        consent_outcome(entries, i) is Ok,
    decreases entries.len() - i,
{
    if i < entries.len() {
        lemma_module_consistent_ok(entries[i], 0);
        lemma_consistent_from(entries, i + 1);
    }
}

/// A consent in which every granted capability belongs to its module and
/// comes with the read capability it depends on is accepted; whether a module
/// is enabled plays no part.
pub proof fn lemma_consistent_consent_is_valid(document: SettingsDocument)
    requires
        document.mcp is Some,
        forall|m: int, c: Capability|
            0 <= m < document.mcp->0.modules.len() && #[trigger] document.mcp->0.modules@[m].settings.capabilities@.contains(c)
                ==> c.spec_module() == document.mcp->0.modules@[m].module && (c.spec_required_read() matches Some(
                read,
            ) ==> document.mcp->0.modules@[m].settings.capabilities@.contains(read)),
    ensures
        consent_outcome(document.mcp->0.modules@, 0) is Ok,
{
    let entries = document.mcp->0.modules@;
    assert forall|m: int| 0 <= m < entries.len() implies module_consistent(#[trigger] entries[m]) by {
        assert forall|c: Capability| #[trigger] entries[m].settings.capabilities@.contains(c) implies c.spec_module()
            == entries[m].module && (c.spec_required_read() matches Some(read)
            ==> entries[m].settings.capabilities@.contains(read)) by {
            assert(document.mcp->0.modules@[m].settings.capabilities@.contains(c));
        }
    }
    lemma_consistent_from(entries, 0);
}

} // verus!

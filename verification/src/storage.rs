//! Where the organization profile and the shared settings are kept, and the
//! decisions made around reading and writing them; the file access itself is
//! the application's.

use vstd::prelude::*;

use crate::profile::ProfileError;
use crate::settings::{
    commit_outcome, settings_outcome, SettingsDocument, SettingsError,
};

verus! {

/// The largest organization profile accepted, in bytes (1 MiB).
pub const MAXIMUM_PROFILE_BYTES: usize = 1048576;

/// The location of the per-user organization profile.
#[derive(Clone, Debug)]
pub struct OrganizationProfileStore {
    path: String,
}

impl View for OrganizationProfileStore {
    type V = Seq<char>;

    closed spec fn view(&self) -> Seq<char> {
        self.path@
    }
}

/// Why the organization profile cannot be located, read or saved.
#[derive(Clone, Copy, Debug, PartialEq, Eq, Structural)]
pub enum ProfileStorageError {
    MissingUserConfigurationDirectory,
    TooLarge,
    Profile(ProfileError),
}

/// The path chosen for a store: a non-empty override, else the platform's default.
pub open spec fn chosen_path(environment_override: Option<String>, platform_path: Option<String>) -> Option<
    Seq<char>,
> {
    match environment_override {
        Some(path) if path@.len() > 0 => Some(path@),
        _ => match platform_path {
            Some(path) => Some(path@),
            None => None,
        },
    }
}

fn choose_path(environment_override: Option<String>, platform_path: Option<String>) -> (r: Option<String>)
    ensures
        match chosen_path(environment_override, platform_path) {
            Some(path) => r matches Some(chosen) && chosen@ == path,
            None => r is None,
        },
{
    match environment_override {
        Some(path) => {
            if !path.as_str().is_empty() {
                return Some(path);
            }
        },
        None => {},
    }
    platform_path
}

impl OrganizationProfileStore {
    /// The store of the current user: the path in the override variable when
    /// it is set and not empty, else the profile under the platform's
    /// configuration directory, which the caller resolves.
    pub fn for_current_user(environment_override: Option<String>, platform_path: Option<String>) -> (r:
        Result<Self, ProfileStorageError>)
        ensures
            match chosen_path(environment_override, platform_path) {
                Some(path) => r matches Ok(store) && store@ == path,
                None => r == Err::<Self, ProfileStorageError>(
                    ProfileStorageError::MissingUserConfigurationDirectory,
                ),
            },
    {
        match choose_path(environment_override, platform_path) {
            Some(path) => Ok(OrganizationProfileStore::at(path)),
            None => Err(ProfileStorageError::MissingUserConfigurationDirectory),
        }
    }

    /// A store for the profile at `path`.
    pub fn at(path: String) -> (store: Self)
        ensures
            store@ == path@,
    {
        OrganizationProfileStore { path }
    }

    /// The path of the profile.
    pub fn path(&self) -> (path: &str)
        ensures
            path@ == self@,
    {
        self.path.as_str()
    }
}

/// A profile file of `length` bytes may be read: it is at most 1 MiB.
pub fn check_profile_size(length: usize) -> (r: Result<(), ProfileStorageError>)
    ensures
        r == (if length <= MAXIMUM_PROFILE_BYTES {
            Ok(())
        } else {
            Err(ProfileStorageError::TooLarge)
        }),
{
    if length > MAXIMUM_PROFILE_BYTES {
        return Err(ProfileStorageError::TooLarge);
    }
    Ok(())
}

/// The location of the shared settings document.
#[derive(Clone, Debug)]
pub struct SettingsStore {
    path: String,
}

impl View for SettingsStore {
    type V = Seq<char>;

    closed spec fn view(&self) -> Seq<char> {
        self.path@
    }
}

/// What saving `document` gives when the saver observed `expected_revision`
/// and `stored` is what the file holds: the checked document committed with
/// the next revision, or why it cannot be saved.
pub open spec fn save_outcome(
    document: SettingsDocument,
    expected_revision: u64,
    stored: Option<SettingsDocument>,
) -> Result<SettingsDocument, SettingsError> {
    match settings_outcome(document) {
        Err(error) => Err(error),
        Ok(()) => commit_outcome(
            document,
            expected_revision,
            match stored {
                Some(saved) => saved.revision,
                None => 0,
            },
        ),
    }
}

impl SettingsStore {
    /// The store of the current user: the path in the override variable when
    /// it is set and not empty, else the settings under the platform's
    /// configuration directory, which the caller resolves.
    pub fn for_current_user(environment_override: Option<String>, platform_path: Option<String>) -> (r:
        Result<Self, SettingsError>)
        ensures
            match chosen_path(environment_override, platform_path) {
                Some(path) => r matches Ok(store) && store@ == path,
                None => r == Err::<Self, SettingsError>(SettingsError::MissingDirectory),
            },
    {
        match choose_path(environment_override, platform_path) {
            Some(path) => Ok(SettingsStore::at(path)),
            None => Err(SettingsError::MissingDirectory),
        }
    }

    /// A store for the settings at `path`.
    pub fn at(path: String) -> (store: Self)
        ensures
            store@ == path@,
    {
        SettingsStore { path }
    }

    /// The path of the settings.
    pub fn path(&self) -> (path: &str)
        ensures
            path@ == self@,
    {
        self.path.as_str()
    }

    /// Decides a save: `stored` is the document read under the write lock.
    /// The result is the document to write, with its incremented revision.
    pub fn save(
        &self,
        document: SettingsDocument,
        expected_revision: u64,
        stored: &Option<SettingsDocument>,
    ) -> (r: Result<SettingsDocument, SettingsError>)
        requires
            document.sets_well_formed(),
        ensures
            r == save_outcome(document, expected_revision, *stored),
    {
        document.validate()?;
        let actual = match stored {
            Some(saved) => saved.revision,
            None => 0,
        };
        document.commit(expected_revision, actual)
    }
}

} // verus!

//! Loading decisions: which config file to read, how a read outcome turns
//! into a config record or a typed error, and profile extraction.
//!
//! Resolving the search directory, testing file existence and reading bytes
//! are filesystem work done by the surrounding program; every decision on
//! those outcomes stands here, verified.

use vstd::prelude::*;
use crate::codec::parse_config;
use crate::errors::CliError;
use crate::profiles::CliConfig;
use crate::profiles::Profile;
use crate::profiles::config_wf;
use crate::profiles::has_profile;

verus! {

/// The current config filename.
pub const CONFIG_FILE: &'static str = "config.yaml";

/// The deprecated config filename: still read, removed on save.
pub const LEGACY_CONFIG_FILE: &'static str = "config.yml";

/// Which of the two config filenames a load reads.
#[derive(Debug, PartialEq, Eq, Structural)]
pub enum ConfigSource {
    /// The current filename exists and is read first.
    CurrentFile,
    /// Only the legacy filename exists and is read instead.
    LegacyFile,
    /// Neither filename exists: loading fails, saving writes fresh.
    NotFound,
}

/// Picks the file a load reads: the current filename first, the legacy
/// filename as fallback, neither being an error left to the caller.
pub fn select_config_file(current_exists: bool, legacy_exists: bool) -> (r: ConfigSource)
    ensures
        r == (if current_exists {
            ConfigSource::CurrentFile
        } else if legacy_exists {
            ConfigSource::LegacyFile
        } else {
            ConfigSource::NotFound
        }),
{
    if current_exists {
        ConfigSource::CurrentFile
    } else if legacy_exists {
        ConfigSource::LegacyFile
    } else {
        ConfigSource::NotFound
    }
}

/// Whether a config file exists under the resolved directory: false whenever
/// the directory itself could not be resolved, never an error.
pub fn config_exists_given(folder_resolved: bool, current_exists: bool, legacy_exists: bool) -> (r:
    bool)
    ensures
        r == (folder_resolved && (current_exists || legacy_exists)),
{
    folder_resolved && (current_exists || legacy_exists)
}

/// What reading the selected config file produced.
pub enum ReadOutcome {
    /// Neither filename exists at the resolved location.
    Missing,
    /// The file could not be read; carries the failure's description.
    Unreadable { message: String },
    /// The file's bytes are not valid text.
    NotText,
    /// The file's text.
    Text { content: String },
}

/// Turns the outcome of reading the config file into the loaded record or
/// the error owed for that outcome: a missing file is `ConfigNotFound` with
/// the attempted current-filename path, unparseable text is `ParseError`,
/// and a valid document loads with every profile it holds.
pub fn load_from_read(current_path: String, outcome: ReadOutcome) -> (r: Result<
    CliConfig,
    CliError,
>)
    ensures
        match outcome {
            ReadOutcome::Missing => r == Err::<CliConfig, CliError>(
                CliError::ConfigNotFound { path: current_path },
            ),
            ReadOutcome::Unreadable { message } => r == Err::<CliConfig, CliError>(
                CliError::Io { message },
            ),
            ReadOutcome::NotText => r == Err::<CliConfig, CliError>(CliError::EncodingError),
            ReadOutcome::Text { content } => match parse_config(content@) {
                Some(es) => r is Ok && r.unwrap()@ == es && config_wf(r.unwrap()@),
                None => r == Err::<CliConfig, CliError>(CliError::ParseError),
            },
        },
{
    match outcome {
        ReadOutcome::Missing => Err(CliError::ConfigNotFound { path: current_path }),
        ReadOutcome::Unreadable { message } => Err(CliError::Io { message }),
        ReadOutcome::NotText => Err(CliError::EncodingError),
        ReadOutcome::Text { content } => match CliConfig::from_yaml(content.as_str()) {
            Some(config) => Ok(config),
            None => Err(CliError::ParseError),
        },
    }
}

/// Extracts one profile from a load's result: the named profile, or the
/// default profile when no name is given. A load error passes through; a
/// given name that is absent is `ProfileNotFound`, while an absent default
/// profile is simply `None`.
pub fn load_profile_from(loaded: Result<CliConfig, CliError>, name: Option<&str>) -> (r: Result<
    Option<Profile>,
    CliError,
>)
    ensures
        match loaded {
            Err(e) => r == Err::<Option<Profile>, CliError>(e),
            Ok(c) => match name {
                Some(n) => if has_profile(c@, n@) {
                    r is Ok && r.unwrap() is Some && exists|i: int|
                        0 <= i < c@.len() && (#[trigger] c@[i].name) == n@ && (forall|j: int|
                            0 <= j < i ==> c@[j].name != n@) && r.unwrap().unwrap()@
                            == c@[i].profile
                } else {
                    r matches Err(CliError::ProfileNotFound { name: missing }) && missing@ == n@
                },
                None => r is Ok && if has_profile(c@, "default"@) {
                    r.unwrap() is Some && exists|i: int|
                        0 <= i < c@.len() && (#[trigger] c@[i].name) == "default"@ && (forall|
                            j: int,
                        | 0 <= j < i ==> c@[j].name != "default"@) && r.unwrap().unwrap()@
                        == c@[i].profile
                } else {
                    r.unwrap() is None
                },
            },
        },
{
    match loaded {
        Err(e) => Err(e),
        Ok(mut config) => match name {
            Some(n) => match config.remove_profile(n) {
                Some(profile) => Ok(Some(profile)),
                None => Err(CliError::ProfileNotFound { name: n.to_owned() }),
            },
            None => Ok(config.remove_profile("default")),
        },
    }
}

} // verus!

//! Typed errors of the config loader, each rendering its own message.

use vstd::prelude::*;
use vstd::string::StringExecFns;

verus! {

/// What can go wrong while loading, parsing or saving a config file.
#[derive(Debug)]
pub enum CliError {
    /// Neither the current nor the legacy config file exists; carries the
    /// attempted current-filename path.
    ConfigNotFound { path: String },
    /// The named profile is absent from an otherwise valid config.
    ProfileNotFound { name: String },
    /// The file's bytes are not valid text.
    EncodingError,
    /// The file's text is not a config document this library reads.
    ParseError,
    /// The record cannot be written as a document that reads back unchanged:
    /// a field holds a line break, or a profile name repeats.
    UnexpectedSerializationError,
    /// A filesystem operation failed; carries its description.
    Io { message: String },
}

/// The message text of a config-not-found error.
pub open spec fn config_not_found_message(path: Seq<char>) -> Seq<char> {
    "Unable to find config "@ + path + ", have you run `libra-config init`?"@
}

/// The message text of a profile-not-found error.
pub open spec fn profile_not_found_message(name: Seq<char>) -> Seq<char> {
    "Profile "@ + name + " not found"@
}

/// The config-not-found message carries the attempted path verbatim: the
/// path stands in the message right after its opening words.
pub proof fn lemma_config_not_found_message_names_path(path: Seq<char>)
    ensures
        exists|k: int|
            0 <= k && k + path.len() <= config_not_found_message(path).len()
                && #[trigger] config_not_found_message(path).subrange(k, k + path.len()) == path,
{
    let m = config_not_found_message(path);
    let k = "Unable to find config "@.len() as int;
    assert(m.subrange(k, k + path.len()) =~= path);
}

impl CliError {
    /// The user-facing message: a config-not-found message names the attempted
    /// path and suggests the initialization command; a profile-not-found
    /// message names the missing profile.
    pub fn message(&self) -> (r: String)
        ensures
            match self {
                CliError::ConfigNotFound { path } => r@ == config_not_found_message(path@),
                CliError::ProfileNotFound { name } => r@ == profile_not_found_message(name@),
                CliError::EncodingError => r@ == "Unexpected encoding of the config file"@,
                CliError::ParseError => r@ == "Unexpected content of the config file"@,
                CliError::UnexpectedSerializationError => r@ == "Failed to serialize config"@,
                CliError::Io { message } => r@ == message@,
            },
    {
        match self {
            CliError::ConfigNotFound { path } => {
                let mut out = String::new();
                out.append("Unable to find config ");
                out.append(path.as_str());
                out.append(", have you run `libra-config init`?");
                proof {
                    assert(out@ =~= config_not_found_message(path@));
                }
                out
            },
            CliError::ProfileNotFound { name } => {
                let mut out = String::new();
                out.append("Profile ");
                out.append(name.as_str());
                out.append(" not found");
                proof {
                    assert(out@ =~= profile_not_found_message(name@));
                }
                out
            },
            CliError::EncodingError => "Unexpected encoding of the config file".to_owned(),
            CliError::ParseError => "Unexpected content of the config file".to_owned(),
            CliError::UnexpectedSerializationError => "Failed to serialize config".to_owned(),
            CliError::Io { message } => message.clone(),
        }
    }
}

} // verus!

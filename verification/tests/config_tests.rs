use libra_config::errors::CliError;
use libra_config::loader::load_from_read;
use libra_config::loader::load_profile_from;
use libra_config::loader::select_config_file;
use libra_config::loader::config_exists_given;
use libra_config::loader::ConfigSource;
use libra_config::loader::ReadOutcome;
use libra_config::profiles::CliConfig;
use libra_config::profiles::Profile;
use libra_config::profiles::ProfileEntry;
use libra_config::profiles::DEFAULT_PROFILE;

fn entry(name: &str, account: &str, key: &str, url: &str) -> ProfileEntry {
    ProfileEntry {
        name: name.to_owned(),
        profile: Profile {
            account: account.to_owned(),
            private_key: key.to_owned(),
            rest_url: url.to_owned(),
        },
    }
}

fn sample_config() -> CliConfig {
    CliConfig {
        profiles: vec![
            entry("default", "0x123", "key-one", "http://localhost:8080/"),
            entry("alice", "0x456", "key-two", "http://104.248.94.195:8080/"),
        ],
    }
}

#[test]
fn save_then_load_round_trips_every_profile() {
    let config = sample_config();
    assert!(config.is_well_formed());
    let doc = config.to_yaml();
    let loaded = CliConfig::from_yaml(doc.as_str()).expect("written document must read back");
    assert_eq!(loaded.profiles.len(), 2);
    for (a, b) in loaded.profiles.iter().zip(config.profiles.iter()) {
        assert_eq!(a.name, b.name);
        assert_eq!(a.profile.account, b.profile.account);
        assert_eq!(a.profile.private_key, b.profile.private_key);
        assert_eq!(a.profile.rest_url, b.profile.rest_url);
    }
}

#[test]
fn emitted_document_shape() {
    let config = CliConfig { profiles: vec![entry("default", "0xabc", "k", "http://u/")] };
    let doc = config.to_yaml();
    assert_eq!(
        doc,
        "profiles:\n  default:\n    account: 0xabc\n    private_key: k\n    rest_url: http://u/\n"
    );
}

#[test]
fn emitted_document_is_valid_yaml() {
    let doc = sample_config().to_yaml();
    let value: serde_yaml::Value = serde_yaml::from_str(&doc).expect("emitted document is YAML");
    let profiles = value.get("profiles").expect("profiles mapping");
    let default = profiles.get("default").expect("default profile");
    assert!(default.get("account").is_some());
    assert_eq!(default.get("private_key").unwrap().as_str().unwrap(), "key-one");
    assert_eq!(default.get("rest_url").unwrap().as_str().unwrap(), "http://localhost:8080/");
    let alice = profiles.get("alice").expect("alice profile");
    assert_eq!(alice.get("private_key").unwrap().as_str().unwrap(), "key-two");
}

#[test]
fn load_returns_every_profile_of_a_valid_document() {
    let doc = "profiles:\n  default:\n    account: a\n    private_key: b\n    rest_url: c\n  other:\n    account: d\n    private_key: e\n    rest_url: f\n";
    let loaded = CliConfig::from_yaml(doc).expect("valid document loads");
    assert_eq!(loaded.profiles.len(), 2);
    assert_eq!(loaded.profiles[0].name, "default");
    assert_eq!(loaded.profiles[0].profile.account, "a");
    assert_eq!(loaded.profiles[1].name, "other");
    assert_eq!(loaded.profiles[1].profile.rest_url, "f");
}

#[test]
fn load_rejects_duplicate_profile_names() {
    let doc = "profiles:\n  p:\n    account: a\n    private_key: b\n    rest_url: c\n  p:\n    account: d\n    private_key: e\n    rest_url: f\n";
    assert!(CliConfig::from_yaml(doc).is_none());
}

#[test]
fn load_rejects_malformed_documents() {
    assert!(CliConfig::from_yaml("").is_none());
    assert!(CliConfig::from_yaml("nonsense").is_none());
    assert!(CliConfig::from_yaml("profiles:\n  broken\n").is_none());
    assert!(CliConfig::from_yaml("profiles:\n  p:\n    account: a\n").is_none());
}

#[test]
fn missing_file_is_config_not_found_with_path() {
    let result = load_from_read("/home/user/.0L/config.yaml".to_owned(), ReadOutcome::Missing);
    match result {
        Err(CliError::ConfigNotFound { path }) => {
            assert_eq!(path, "/home/user/.0L/config.yaml");
            let message = CliError::ConfigNotFound { path }.message();
            assert!(message.contains("/home/user/.0L/config.yaml"));
            assert_eq!(
                message,
                "Unable to find config /home/user/.0L/config.yaml, have you run `libra-config init`?"
            );
        },
        _ => panic!("expected ConfigNotFound"),
    }
}

#[test]
fn unparseable_text_is_parse_error() {
    let result = load_from_read(
        "config.yaml".to_owned(),
        ReadOutcome::Text { content: "not a config".to_owned() },
    );
    assert!(matches!(result, Err(CliError::ParseError)));
}

#[test]
fn bad_encoding_is_encoding_error() {
    let result = load_from_read("config.yaml".to_owned(), ReadOutcome::NotText);
    assert!(matches!(result, Err(CliError::EncodingError)));
}

#[test]
fn default_profile_name_is_reserved() {
    assert_eq!(DEFAULT_PROFILE, "default");
    let mut config = sample_config();
    let by_constant = config.remove_profile(DEFAULT_PROFILE).expect("default present");
    assert_eq!(by_constant.account, "0x123");
}

#[test]
fn load_profile_returns_default_or_none() {
    let with_default = sample_config().to_yaml();
    let loaded = load_from_read(
        "config.yaml".to_owned(),
        ReadOutcome::Text { content: with_default },
    );
    let profile = load_profile_from(loaded, None).expect("load succeeds");
    assert_eq!(profile.expect("default profile present").account, "0x123");

    let without_default = CliConfig {
        profiles: vec![entry("bob", "0x9", "k", "u")],
    }
    .to_yaml();
    let loaded = load_from_read(
        "config.yaml".to_owned(),
        ReadOutcome::Text { content: without_default },
    );
    let profile = load_profile_from(loaded, None).expect("load succeeds");
    assert!(profile.is_none());
}

#[test]
fn load_profile_by_name_or_profile_not_found() {
    let doc = sample_config().to_yaml();
    let loaded = load_from_read("config.yaml".to_owned(), ReadOutcome::Text { content: doc });
    let profile = load_profile_from(loaded, Some("alice")).expect("load succeeds");
    assert_eq!(profile.expect("alice present").account, "0x456");

    let doc = sample_config().to_yaml();
    let loaded = load_from_read("config.yaml".to_owned(), ReadOutcome::Text { content: doc });
    match load_profile_from(loaded, Some("carol")) {
        Err(e @ CliError::ProfileNotFound { .. }) => {
            assert_eq!(e.message(), "Profile carol not found");
        },
        _ => panic!("expected ProfileNotFound"),
    }
}

#[test]
fn load_profile_passes_load_errors_through() {
    let loaded = load_from_read("somewhere/config.yaml".to_owned(), ReadOutcome::Missing);
    match load_profile_from(loaded, Some("alice")) {
        Err(CliError::ConfigNotFound { path }) => assert_eq!(path, "somewhere/config.yaml"),
        _ => panic!("expected ConfigNotFound"),
    }
}

#[test]
fn remove_profile_removes_only_the_named_entry() {
    let mut config = sample_config();
    let removed = config.remove_profile("default").expect("default present");
    assert_eq!(removed.account, "0x123");
    assert_eq!(config.profiles.len(), 1);
    assert_eq!(config.profiles[0].name, "alice");
    assert!(config.remove_profile("default").is_none());
    assert_eq!(config.profiles.len(), 1);
}

#[test]
fn config_file_selection_prefers_current_name() {
    assert_eq!(select_config_file(true, true), ConfigSource::CurrentFile);
    assert_eq!(select_config_file(true, false), ConfigSource::CurrentFile);
    assert_eq!(select_config_file(false, true), ConfigSource::LegacyFile);
    assert_eq!(select_config_file(false, false), ConfigSource::NotFound);
}

#[test]
fn config_exists_needs_a_resolved_folder() {
    assert!(config_exists_given(true, true, false));
    assert!(config_exists_given(true, false, true));
    assert!(!config_exists_given(true, false, false));
    assert!(!config_exists_given(false, true, true));
}

#[test]
fn saving_refuses_records_that_would_not_read_back() {
    let good = sample_config();
    let document = good.to_yaml_checked().expect("well-formed record serializes");
    assert_eq!(document, good.to_yaml());

    let broken = CliConfig { profiles: vec![entry("p", "a\nb", "k", "u")] };
    match broken.to_yaml_checked() {
        Err(e @ CliError::UnexpectedSerializationError) => {
            assert_eq!(e.message(), "Failed to serialize config");
        },
        _ => panic!("expected UnexpectedSerializationError"),
    }
    let duplicated = CliConfig {
        profiles: vec![entry("p", "a", "k", "u"), entry("p", "b", "k2", "u2")],
    };
    assert!(matches!(
        duplicated.to_yaml_checked(),
        Err(CliError::UnexpectedSerializationError)
    ));
}

#[test]
fn well_formedness_rejects_line_breaks_and_duplicates() {
    assert!(sample_config().is_well_formed());
    let broken = CliConfig { profiles: vec![entry("p", "a\nb", "k", "u")] };
    assert!(!broken.is_well_formed());
    let duplicated = CliConfig {
        profiles: vec![entry("p", "a", "k", "u"), entry("p", "b", "k2", "u2")],
    };
    assert!(!duplicated.is_well_formed());
}

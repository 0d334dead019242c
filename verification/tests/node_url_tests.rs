use libra_config::node_url::Config;
use libra_config::node_url::SettingsFile;
use libra_config::node_url::Toml;
use libra_config::node_url::TomlProfile;
use libra_config::node_url::DEFAULT_NODE_URL;

const SETTINGS: &str = "[profile]\nupstream_nodes = [\"http://localhost:8080/\", \"http://104.248.94.195:8080/\", \"http://63.229.234.76:8080/\"]\n";

fn contents(text: &str) -> SettingsFile {
    SettingsFile::Contents { text: text.to_owned() }
}

#[test]
fn env_override_wins_verbatim() {
    let resolved = Config::resolve(Some("test-url".to_owned()), contents(SETTINGS));
    assert_eq!(resolved.node_url, "test-url");
    let resolved = Config::resolve(Some("test-url".to_owned()), SettingsFile::Unreadable);
    assert_eq!(resolved.node_url, "test-url");
}

#[test]
fn empty_env_override_counts_as_unset() {
    let resolved = Config::resolve(Some(String::new()), SettingsFile::Unreadable);
    assert_eq!(resolved.node_url, DEFAULT_NODE_URL);
    let resolved = Config::resolve(Some(String::new()), contents(SETTINGS));
    assert!(resolved.node_url.starts_with("http://"));
    assert_ne!(resolved.node_url, "");
}

#[test]
fn settings_file_supplies_one_of_its_upstream_nodes() {
    let upstream_nodes = [
        "http://localhost:8080/",
        "http://104.248.94.195:8080/",
        "http://63.229.234.76:8080/",
    ];
    for _ in 0..32 {
        let resolved = Config::resolve(None, contents(SETTINGS));
        assert!(upstream_nodes.contains(&resolved.node_url.as_str()));
    }
}

#[test]
fn unreadable_settings_fall_back_to_the_default_url() {
    let resolved = Config::resolve(None, SettingsFile::Unreadable);
    assert_eq!(resolved.node_url, "http://0.0.0.0:8080/");
    assert_eq!(resolved.node_url, DEFAULT_NODE_URL);
}

#[test]
fn malformed_settings_fall_back_to_the_default_url() {
    let resolved = Config::resolve(None, contents("this is not toml ["));
    assert_eq!(resolved.node_url, DEFAULT_NODE_URL);
    let resolved = Config::resolve(None, contents("profile = 3\n"));
    assert_eq!(resolved.node_url, DEFAULT_NODE_URL);
    let resolved = Config::resolve(None, contents("[profile]\nupstream_nodes = 5\n"));
    assert_eq!(resolved.node_url, DEFAULT_NODE_URL);
    let resolved = Config::resolve(None, contents("[profile]\nupstream_nodes = [3]\n"));
    assert_eq!(resolved.node_url, DEFAULT_NODE_URL);
}

#[test]
fn absent_profile_or_list_resolves_to_an_empty_url() {
    let resolved = Config::resolve(None, contents(""));
    assert_eq!(resolved.node_url, "");
    let resolved = Config::resolve(None, contents("[profile]\n"));
    assert_eq!(resolved.node_url, "");
    let resolved = Config::resolve(None, contents("[profile]\nupstream_nodes = []\n"));
    assert_eq!(resolved.node_url, "");
}

#[test]
fn get_node_url_picks_from_the_list() {
    let toml = Toml {
        profile: Some(TomlProfile {
            upstream_nodes: Some(vec!["http://only-node:8080/".to_owned()]),
        }),
    };
    assert_eq!(toml.get_node_url(), "http://only-node:8080/");
    let toml = Toml { profile: Some(TomlProfile { upstream_nodes: None }) };
    assert_eq!(toml.get_node_url(), "");
    let toml = Toml { profile: None };
    assert_eq!(toml.get_node_url(), "");
}

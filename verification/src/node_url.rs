//! Resolution of the upstream node URL: a non-empty environment override
//! wins, else a settings file's upstream list supplies one entry at random,
//! else a default.

use vstd::prelude::*;

verus! {

/// The URL used when the settings file cannot be read or parsed.
pub const DEFAULT_NODE_URL: &'static str = "http://0.0.0.0:8080/";

/// The resolved upstream node configuration.
pub struct Config {
    pub node_url: String,
}

/// The settings a TOML document holds: an optional profile section.
pub struct Toml {
    pub profile: Option<TomlProfile>,
}

/// The profile section of the settings file: an optional list of upstream
/// node URLs.
pub struct TomlProfile {
    pub upstream_nodes: Option<Vec<String>>,
}

/// The settings a given document text parses to; parsing is a function of
/// the text alone.
pub uninterp spec fn toml_of(text: Seq<char>) -> Option<Toml>;

/// Relies on toml_edit's `DocumentMut` parser: reads the optional `profile`
/// table and its optional `upstream_nodes` list of strings; a malformed
/// document, a `profile` that is no table, or a list entry that is no string
/// is `None`.
#[verifier::external_body]
fn parse_toml_text(text: &str) -> (r: Option<Toml>)
    ensures
        r == toml_of(text@),
{
    let doc = text.parse::<toml_edit::DocumentMut>().ok()?;
    let profile = match doc.get("profile") { None => return Some(Toml { profile: None }), Some(p) => p };
    profile.as_table_like()?;
    let item = match profile.get("upstream_nodes") { Some(n) => n,
        None => return Some(Toml { profile: Some(TomlProfile { upstream_nodes: None }) }) };
    let arr = item.as_array()?;
    let mut nodes = Vec::new();
    for value in arr.iter() {
        nodes.push(value.as_str()?.to_owned());
    }
    Some(Toml { profile: Some(TomlProfile { upstream_nodes: Some(nodes) }) })
}

/// Relies on rand's `Rng::gen_range` over `thread_rng`: a uniformly random
/// value within the given non-empty range.
#[verifier::external_body]
fn pick_index(n: usize) -> (r: usize)
    requires
        n > 0,
    ensures
        r < n,
{
    rand::Rng::gen_range(&mut rand::thread_rng(), 0..n)
}

/// The URL the settings call for: one of the upstream nodes when the list is
/// there and not empty, else the empty string.
pub open spec fn url_of_toml(toml: Toml, url: Seq<char>) -> bool {
    match toml.profile {
        Some(p) => match p.upstream_nodes {
            Some(nodes) => if nodes@.len() > 0 {
                exists|i: int| 0 <= i < nodes@.len() && url == (#[trigger] nodes@[i])@
            } else {
                url == Seq::<char>::empty()
            },
            None => url == Seq::<char>::empty(),
        },
        None => url == Seq::<char>::empty(),
    }
}

impl Toml {
    /// Picks the node URL the settings call for: one upstream node at random;
    /// an absent profile section or upstream list gives an empty URL.
    pub fn get_node_url(&self) -> (r: String)
        ensures
            url_of_toml(*self, r@),
    {
        match &self.profile {
            Some(profile) => match &profile.upstream_nodes {
                Some(nodes) => {
                    if nodes.len() > 0 {
                        let i = pick_index(nodes.len());
                        nodes[i].clone()
                    } else {
                        String::new()
                    }
                },
                None => String::new(),
            },
            None => String::new(),
        }
    }
}

/// How the settings file stood when read.
pub enum SettingsFile {
    /// Missing, unreadable, or not valid text.
    Unreadable,
    /// The file's text.
    Contents { text: String },
}

/// The URL the settings file resolves to: the default URL when the file is
/// unreadable or unparseable, else what its upstream list calls for.
pub open spec fn resolved_from_settings(settings: SettingsFile, url: Seq<char>) -> bool {
    match settings {
        SettingsFile::Unreadable => url == "http://0.0.0.0:8080/"@,
        SettingsFile::Contents { text } => match toml_of(text@) {
            Some(toml) => url_of_toml(toml, url),
            None => url == "http://0.0.0.0:8080/"@,
        },
    }
}

impl Config {
    /// Resolves the node URL. An environment override that is set and
    /// non-empty is used verbatim, whatever the settings file holds; one that
    /// is set but empty counts as unset. Without an override, an unreadable
    /// or unparseable settings file falls back to the default URL, and a
    /// readable one resolves through its upstream list.
    pub fn resolve(env_node_url: Option<String>, settings: SettingsFile) -> (r: Config)
        ensures
            match env_node_url {
                Some(url) => if url@.len() > 0 {
                    r.node_url == url
                } else {
                    resolved_from_settings(settings, r.node_url@)
                },
                None => resolved_from_settings(settings, r.node_url@),
            },
    {
        if let Some(url) = env_node_url {
            if !url.as_str().is_empty() {
                return Config { node_url: url };
            }
        }
        match settings {
            SettingsFile::Unreadable => Config { node_url: "http://0.0.0.0:8080/".to_owned() },
            SettingsFile::Contents { text } => match parse_toml_text(text.as_str()) {
                Some(toml) => Config { node_url: toml.get_node_url() },
                None => Config { node_url: "http://0.0.0.0:8080/".to_owned() },
            },
        }
    }
}

} // verus!

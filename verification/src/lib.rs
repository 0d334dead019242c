//! Configuration loading and persistence for a command-line client: profile
//! records read from and written to a YAML config file (with a verified
//! round trip), typed errors with their messages, upstream node URL
//! resolution from an environment override or a TOML settings file, and
//! bracketed formatting of view-call results.
//!
//! Filesystem, environment and network work stays outside this library;
//! every decision on their outcomes is verified here.

pub mod codec;
pub mod errors;
pub mod loader;
pub mod node_url;
pub mod profiles;
pub mod text;
pub mod view_output;

pub use view_output::format_view_output;

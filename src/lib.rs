//! Turns a git remote URL and a reference selection into the web URL of
//! that repository on its hosting provider.

pub mod browse;
pub mod forms;
pub mod issue;
pub mod logger;
pub mod options;
pub mod provider;
pub mod reference;
pub mod remote;
pub mod text;
pub mod url;

pub use browse::{browse_url, browser_action, remote_name, BrowserAction};
pub use issue::{Issue, Success};
pub use logger::Logger;
pub use options::Opt;
pub use provider::{get_merge_request_parts, GitProvider, MergeRequestParts, ViewKind};
pub use reference::{explicit_reference, resolve_reference, ReferenceSpec};
pub use remote::{get_remote_parts, RemoteParts};
pub use url::generate_url;

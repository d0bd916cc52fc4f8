//! Env Switcher: the verified core of a multi-version environment manager.
//!
//! Node.js and Java installations are registered by version, project
//! directories are mapped to versions, and a directory resolves to the
//! mapping of the directory itself or of its nearest configured ancestor.

pub mod text;
pub mod paths;
pub mod config;
pub mod matcher;
pub mod injector;
pub mod node;
pub mod java;
pub mod app_state;
pub mod order;

pub use config::{Config, PathMapping, VersionConfig, VersionTable};
pub use matcher::{GlobalMatcher, MatchResult, PathMatcher};
pub use injector::{HookInjector, InstallResult};
pub use node::NodeManager;
pub use java::JavaManager;

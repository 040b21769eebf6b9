//! A directory-scoped static rule engine: it resolves the role-tagged
//! subdirectories of a feature, evaluates line-oriented rules on the source
//! files of each, and reports pass or fail per rule and directory.
//!
//! The library decides and computes; it touches neither the file system nor
//! the environment. A caller hands it what was found there (which paths
//! exist, the names and texts of files, the configured settings) and prints
//! what it hands back.

pub mod error;
pub mod layout;
pub mod metrics;
pub mod report;
pub mod roles;
pub mod root;
pub mod rule;
pub mod rules;
pub mod scan;
pub mod status;
pub mod text;

pub use error::LintError;
pub use layout::{Config, LayoutConfig, LayoutPresence, Project, Subdir};
pub use report::print_results;
pub use roles::DirType;
pub use root::{get_project_root, RootProbe};
pub use rule::{Check, Rule, Rules};
pub use scan::{process_subdir, SourceFile, SubdirReport};
pub use status::StatusMap;

//! Issue tracking kept as Markdown files on a dedicated branch: the verified core.

pub mod text;
pub mod frontmatter;
pub mod util;
pub mod error;
pub mod git;
pub mod path;
pub mod request;
pub mod config;
pub mod cmd;
pub mod listing;
pub mod version;
pub mod completions;

//! Finds git repositories that have no `origin` remote below a directory,
//! and summarises the history of each.

pub mod filter;
pub mod git;
pub mod history;
pub mod paths;
pub mod walk;

pub use filter::AddToGithub;
pub use filter::Filter;
pub use paths::simplified_repo_path;
pub use paths::try_simplified_repo_path;

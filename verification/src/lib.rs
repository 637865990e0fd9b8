//! A workspace manager for git repositories: remote URLs are parsed into a
//! structured identity, repositories are laid out under a root directory and
//! recorded in a metadata store, and linked worktrees are discovered from the
//! porcelain listing that git prints.

pub mod command;
pub mod config;
pub mod constant;
pub mod paths;
pub mod repo;
pub mod text;
pub mod util;
pub mod worktree;

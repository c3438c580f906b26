//! Automatic selection of the GitHub CLI account for git remote operations.
//!
//! The library holds the decisions of the tool: which account a remote's
//! host/owner maps to, how a git credential request is read, where `gh` and
//! its files live, and how the configuration editor reacts to keys.

pub mod text;
pub mod config;
pub mod credential;
pub mod paths;
pub mod gh;
pub mod install;
pub mod cli;
pub mod editor;
pub mod yaml;

//! Workspace registry and reconciliation engine for parallel agent
//! working copies (git worktrees or jj workspaces).

pub mod command;
pub mod commands;
pub mod dashboard;
pub mod dashboard_state;
pub mod delete;
pub mod error;
pub mod input;
pub mod jj;
pub mod options;
pub mod paths;
pub mod state;
pub mod text;
pub mod vcs;
pub mod worktree_manager;

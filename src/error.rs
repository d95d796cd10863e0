//! The error kinds of the engine.

use vstd::prelude::*;

verus! {

/// What can go wrong in a command of the engine.
#[derive(Debug)]
pub enum XlaudeError {
    /// Neither version-control tool answered in the current directory.
    BackendNotDetected,
    /// A version-control or multiplexer invocation exited non-zero; holds
    /// the tool's own error text.
    BackendOperationFailed(String),
    /// The registry document exists but could not be parsed.
    RegistryCorrupt(String),
    /// The registry document could not be locked.
    LockAcquisitionFailed,
    /// No registry entry has the requested name.
    WorkspaceNotFound(String),
    /// The workspace is already in the registry under the given key.
    AlreadyManaged(String),
    /// The current directory is not a secondary worktree or workspace.
    NotInWorkspace,
    /// A new worktree is only created from a base branch.
    NotOnBaseBranch,
    /// A path has no final component to name it by.
    NoDirectoryName,
    /// The registry holds no workspace to choose from.
    NoWorktrees,
    /// A workspace must be named when prompts cannot be answered.
    SelectionUnavailable,
}

} // verus!

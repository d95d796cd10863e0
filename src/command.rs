//! External commands as plain values: which tool to run with which
//! arguments, and how its outcome is read.

use vstd::prelude::*;

use crate::error::XlaudeError;
use crate::text::{trim_text, trimmed, views};

verus! {

broadcast use vstd::string::group_string_axioms;

/// The external tools the engine drives.
#[derive(Clone, Copy, Debug, PartialEq, Eq, Structural)]
pub enum Tool {
    Git,
    Jj,
    Tmux,
}

/// One invocation of an external tool.
#[derive(Debug)]
pub struct ToolCommand {
    pub tool: Tool,
    pub args: Vec<String>,
}

/// `cmd` runs `tool` with exactly the arguments `args`.
pub open spec fn runs(cmd: ToolCommand, tool: Tool, args: Seq<Seq<char>>) -> bool {
    cmd.tool == tool && views(cmd.args@) == args
}

/// An owned copy of a string literal or slice.
pub(crate) fn owned(s: &str) -> (r: String)
    ensures
        r@ == s@,
{
    s.to_owned()
}

/// The outcome of a finished command: its trimmed standard output when it
/// succeeded, else its error text as a failed backend operation.
pub fn command_result(success: bool, stdout: &str, stderr: &str) -> (r: Result<String, XlaudeError>)
    ensures
        success ==> (r matches Ok(out) && out@ == trimmed(stdout@)),
        !success ==> (r matches Err(XlaudeError::BackendOperationFailed(e)) && e@ == stderr@),
{
    if success {
        Ok(trim_text(stdout))
    } else {
        Err(XlaudeError::BackendOperationFailed(owned(stderr)))
    }
}

} // verus!

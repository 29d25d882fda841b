//! The outcome of one run of the version-control tool, and the errors that
//! the operations surface.

use vstd::prelude::*;

verus! {

/// What a finished run of the tool reported, its output already decoded.
#[derive(Debug)]
pub struct ProcessOutput {
    pub success: bool,
    pub stdout: String,
    pub stderr: String,
}

/// Why an operation failed.
#[derive(Debug)]
pub enum GitError {
    /// The tool could not be started; the message says why.
    SpawnFailed(String),
    /// The tool ran and exited unsuccessfully; the message is its stderr.
    ToolInvocation(String),
    /// The tool ran but reported nothing for the requested object.
    NotFound(String),
    /// A local file operation failed.
    IoFailure(String),
    /// A remote URL points to a hosting service that is not supported.
    UnsupportedHost(String),
}

/// A run counts as succeeded when the tool started and exited successfully.
pub open spec fn run_succeeded(run: Result<ProcessOutput, String>) -> bool {
    run is Ok && run->Ok_0.success
}

/// The standard output of a successful run, or the error that a failed run
/// stands for.
pub open spec fn stdout_of(run: Result<ProcessOutput, String>) -> Result<String, GitError> {
    match run {
        Err(m) => Err(GitError::SpawnFailed(m)),
        Ok(o) => if o.success {
            Ok(o.stdout)
        } else {
            Err(GitError::ToolInvocation(o.stderr))
        },
    }
}

/// The standard output of a successful run, or the error that a failed run
/// stands for. This is the whole result of the operations that hand the
/// tool's output back as it is (checkout, commit, push, pull, fetch, merge,
/// stash, reset, discard).
pub fn tool_result(run: Result<ProcessOutput, String>) -> (r: Result<String, GitError>)
    ensures
        r == stdout_of(run),
{
    match run {
        Err(m) => Err(GitError::SpawnFailed(m)),
        Ok(o) => if o.success {
            Ok(o.stdout)
        } else {
            Err(GitError::ToolInvocation(o.stderr))
        },
    }
}

/// Whether the run started and exited successfully.
pub fn succeeded(run: &Result<ProcessOutput, String>) -> (r: bool)
    ensures
        r == run_succeeded(*run),
{
    match run {
        Ok(o) => o.success,
        Err(_) => false,
    }
}

} // verus!

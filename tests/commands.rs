use repo_state::branch::after_merge_checkout;
use repo_state::command::{compose_commit_message, GitCommand};
use repo_state::process::{tool_result, GitError, ProcessOutput};

#[test]
fn commit_arguments() {
    let c = GitCommand::Commit {
        message: "Fix".to_string(),
        description: "Longer text".to_string(),
        amend: true,
    };
    assert_eq!(c.args(), vec!["commit", "-m", "Fix\n\nLonger text", "--amend"]);
    let c = GitCommand::Commit { message: "Fix".to_string(), description: "  \n".to_string(), amend: false };
    assert_eq!(c.args(), vec!["commit", "-m", "Fix"]);
    assert_eq!(compose_commit_message(&"a".to_string(), &"".to_string()), "a");
}

#[test]
fn push_defaults() {
    let c = GitCommand::Push { remote: None, branch: None };
    assert_eq!(c.args(), vec!["push", "origin", "HEAD"]);
    let c = GitCommand::Push { remote: Some("up".to_string()), branch: Some("dev".to_string()) };
    assert_eq!(c.args(), vec!["push", "up", "dev"]);
}

#[test]
fn query_arguments() {
    assert_eq!(GitCommand::Upstream("dev".to_string()).args(), vec!["rev-parse", "--abbrev-ref", "dev@{u}"]);
    assert_eq!(GitCommand::Status.args(), vec!["status", "--porcelain"]);
    assert_eq!(
        GitCommand::Untracked("src/new/".to_string()).args(),
        vec!["ls-files", "--others", "--exclude-standard", "--", "src/new/"]
    );
    assert_eq!(
        GitCommand::Discard(vec!["a".to_string(), "b".to_string()]).args(),
        vec!["checkout", "--", "a", "b"]
    );
    assert_eq!(GitCommand::Stage(vec!["x".to_string()]).args(), vec!["add", "x"]);
    assert_eq!(GitCommand::PreImage { path: "p".to_string(), staged: true }.args(), vec!["show", ":p"]);
    assert_eq!(GitCommand::Log("main".to_string()).args(), vec!["log", "--pretty=format:%H|%an|%ad|%s", "main"]);
}

#[test]
fn raw_output_results() {
    let ok = Ok(ProcessOutput { success: true, stdout: "done\n".to_string(), stderr: String::new() });
    assert_eq!(tool_result(ok).unwrap(), "done\n");
    let bad = Ok(ProcessOutput { success: false, stdout: "x".to_string(), stderr: "CONFLICT".to_string() });
    assert!(matches!(tool_result(bad), Err(GitError::ToolInvocation(m)) if m == "CONFLICT"));
}

#[test]
fn merge_follows_a_successful_checkout() {
    let ok = Ok(ProcessOutput { success: true, stdout: String::new(), stderr: String::new() });
    let m = after_merge_checkout(ok, &"feature".to_string()).unwrap();
    assert_eq!(m.args(), vec!["merge", "feature"]);
    let bad = Ok(ProcessOutput { success: false, stdout: String::new(), stderr: "dirty tree".to_string() });
    assert!(matches!(after_merge_checkout(bad, &"feature".to_string()), Err(GitError::ToolInvocation(m)) if m == "dirty tree"));
}

use repo_state::process::{GitError, ProcessOutput};
use repo_state::remote::{pull_request_url, repository_web_url};

fn ok(stdout: &str) -> Result<ProcessOutput, String> {
    Ok(ProcessOutput { success: true, stdout: stdout.to_string(), stderr: String::new() })
}

#[test]
fn ssh_remote_becomes_https_page() {
    let r = repository_web_url(ok("git@github.com:user/repo.git\n")).unwrap();
    assert_eq!(r, "https://github.com/user/repo");
    let r = repository_web_url(ok("https://gitlab.com/g/p.git.git")).unwrap();
    assert_eq!(r, "https://gitlab.com/g/p");
}

#[test]
fn pull_request_pages() {
    let b = "feature".to_string();
    assert_eq!(
        pull_request_url(ok("git@github.com:user/repo.git\n"), &b).unwrap(),
        "https://github.com/user/repo/compare/main...feature?expand=1"
    );
    assert_eq!(
        pull_request_url(ok("https://gitlab.com/g/p"), &b).unwrap(),
        "https://gitlab.com/g/p/-/merge_requests/new?merge_request[source_branch]=feature&merge_request[target_branch]=main"
    );
    assert_eq!(
        pull_request_url(ok("https://dev.azure.com/o/p/_git/r"), &b).unwrap(),
        "https://dev.azure.com/o/p/_git/r/pullrequestcreate?sourceRef=feature&targetRef=main"
    );
}

#[test]
fn remote_errors() {
    let b = "x".to_string();
    assert!(matches!(pull_request_url(ok("https://example.org/r.git"), &b), Err(GitError::UnsupportedHost(m)) if m == "https://example.org/r"));
    assert!(matches!(repository_web_url(ok("  \n")), Err(GitError::NotFound(_))));
    let failed = Ok(ProcessOutput { success: false, stdout: String::new(), stderr: "no origin".to_string() });
    assert!(matches!(repository_web_url(failed), Err(GitError::ToolInvocation(m)) if m == "no origin"));
}

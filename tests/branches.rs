use repo_state::branch::{
    after_upstream_check, divergence_from_counts, get_current_branch, list_branches,
    list_remote_branches, local_branch_names, parse_u32_exec, DivergenceStep,
};
use repo_state::command::GitCommand;
use repo_state::process::{GitError, ProcessOutput};

fn ok(stdout: &str) -> Result<ProcessOutput, String> {
    Ok(ProcessOutput { success: true, stdout: stdout.to_string(), stderr: String::new() })
}

fn failed(stderr: &str) -> Result<ProcessOutput, String> {
    Ok(ProcessOutput { success: false, stdout: String::new(), stderr: stderr.to_string() })
}

#[test]
fn local_branches_mark_current() {
    let bs = list_branches(ok("  dev\n* main\n\n  feature/x\n")).unwrap();
    let got: Vec<(String, bool, bool)> =
        bs.iter().map(|b| (b.name.clone(), b.is_current, b.is_remote)).collect();
    assert_eq!(
        got,
        vec![
            ("dev".to_string(), false, false),
            ("main".to_string(), true, false),
            ("feature/x".to_string(), false, false),
        ]
    );
}

#[test]
fn remote_branches_are_remote() {
    let bs = list_remote_branches(ok("  origin/HEAD -> origin/main\n  origin/main\n")).unwrap();
    assert_eq!(bs.len(), 2);
    assert_eq!(bs[0].name, "origin/HEAD -> origin/main");
    assert!(bs.iter().all(|b| b.is_remote && !b.is_current));
    let bs = list_remote_branches(ok("* x\n")).unwrap();
    assert_eq!(bs[0].name, "* x");
    assert!(!bs[0].is_current);
    let r = list_remote_branches(failed("no remote"));
    assert!(matches!(r, Err(GitError::ToolInvocation(m)) if m == "no remote"));
}

#[test]
fn current_branch_is_trimmed() {
    assert_eq!(get_current_branch(ok("main\n")).unwrap(), "main");
    let r = get_current_branch(Err("missing".to_string()));
    assert!(matches!(r, Err(GitError::SpawnFailed(m)) if m == "missing"));
}

#[test]
fn branch_names_skip_blank_lines() {
    assert_eq!(local_branch_names(ok("main\ndev\n\n")).unwrap(), vec!["main", "dev"]);
}

#[test]
fn unresolved_upstream_is_final() {
    let name = "topic".to_string();
    for upstream in [failed("no upstream"), Err("spawn".to_string())] {
        match after_upstream_check(&name, &upstream) {
            DivergenceStep::Done(d) => {
                assert_eq!(d.name, "topic");
                assert!(!d.has_upstream);
                assert_eq!((d.ahead, d.behind), (0, 0));
            }
            other => panic!("unexpected step {:?}", other),
        }
    }
}

#[test]
fn resolved_upstream_asks_for_counts() {
    let name = "main".to_string();
    match after_upstream_check(&name, &ok("origin/main\n")) {
        DivergenceStep::CountCommits { ahead, behind } => {
            assert_eq!(ahead.args(), vec!["rev-list", "--count", "main@{u}..main"]);
            assert_eq!(behind.args(), vec!["rev-list", "--count", "main..main@{u}"]);
            assert!(matches!(ahead, GitCommand::CountAhead(_)));
        }
        other => panic!("unexpected step {:?}", other),
    }
    let d = divergence_from_counts(&name, &ok("3\n"), &ok(" 12 \n"));
    assert!(d.has_upstream);
    assert_eq!((d.ahead, d.behind), (3, 12));
    let d = divergence_from_counts(&name, &ok("three"), &failed("x"));
    assert_eq!((d.ahead, d.behind), (0, 0));
}

#[test]
fn counts_parse_like_u32() {
    let p = |s: &str| parse_u32_exec(&s.chars().collect());
    assert_eq!(p("0"), Some(0));
    assert_eq!(p("+7"), Some(7));
    assert_eq!(p("4294967295"), Some(u32::MAX));
    assert_eq!(p("4294967296"), None);
    assert_eq!(p("99999999999"), None);
    assert_eq!(p(""), None);
    assert_eq!(p("+"), None);
    assert_eq!(p("-1"), None);
    assert_eq!(p("1x"), None);
}

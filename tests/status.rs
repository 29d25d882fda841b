use repo_state::process::{GitError, ProcessOutput};
use repo_state::status::{
    changes_from_status, classify_status_code, list_local_changes, untracked_dirs, Change,
    ChangeStatus,
};

fn ok(stdout: &str) -> Result<ProcessOutput, String> {
    Ok(ProcessOutput { success: true, stdout: stdout.to_string(), stderr: String::new() })
}

fn failed(stderr: &str) -> Result<ProcessOutput, String> {
    Ok(ProcessOutput { success: false, stdout: String::new(), stderr: stderr.to_string() })
}

fn summary(cs: &[Change]) -> Vec<(String, ChangeStatus, bool)> {
    cs.iter().map(|c| (c.path.clone(), c.status, c.staged)).collect()
}

#[test]
fn single_sided_codes_classify_by_side() {
    let kinds = [
        ('M', ChangeStatus::Modified),
        ('A', ChangeStatus::Added),
        ('D', ChangeStatus::Deleted),
        ('R', ChangeStatus::Renamed),
        ('C', ChangeStatus::Copied),
    ];
    for (t, kind) in kinds {
        assert_eq!(classify_status_code(&format!("{} ", t)), (kind, true));
        assert_eq!(classify_status_code(&format!(" {}", t)), (kind, false));
    }
}

#[test]
fn other_codes_classify() {
    assert_eq!(classify_status_code("MM"), (ChangeStatus::Modified, true));
    assert_eq!(classify_status_code("??"), (ChangeStatus::Untracked, false));
    assert_eq!(classify_status_code("AM"), (ChangeStatus::Unknown, true));
    assert_eq!(classify_status_code(" T"), (ChangeStatus::Unknown, false));
    assert_eq!(classify_status_code("U"), (ChangeStatus::Unknown, true));
    assert_eq!(classify_status_code(""), (ChangeStatus::Unknown, false));
}

#[test]
fn untracked_directory_expands_to_its_files() {
    let status = ok("?? src/new/\n");
    let dirs = untracked_dirs(&status);
    assert_eq!(dirs, vec!["src/new/".to_string()]);
    let listings = vec![ok("src/new/a.txt\nsrc/new/b.txt\n")];
    let changes = list_local_changes(status, &listings).unwrap();
    assert_eq!(
        summary(&changes),
        vec![
            ("src/new/a.txt".to_string(), ChangeStatus::Untracked, false),
            ("src/new/b.txt".to_string(), ChangeStatus::Untracked, false),
        ]
    );
}

#[test]
fn untracked_directory_falls_back_to_itself() {
    let failed_listing = vec![failed("fatal")];
    let changes = changes_from_status("?? build/\n", &failed_listing);
    assert_eq!(summary(&changes), vec![("build/".to_string(), ChangeStatus::Untracked, false)]);
    let empty_listing = vec![ok("\n")];
    let changes = changes_from_status("?? build/\n", &empty_listing);
    assert_eq!(summary(&changes), vec![("build/".to_string(), ChangeStatus::Untracked, false)]);
    let changes = changes_from_status("?? build/\n", &vec![]);
    assert_eq!(summary(&changes), vec![("build/".to_string(), ChangeStatus::Untracked, false)]);
}

#[test]
fn mixed_status_keeps_line_order() {
    let out = " M src/a.rs\nA  src/b.rs\n\n?? docs/\nD  old.txt\n?? notes.md\nR  x -> y\n?? tmp/\n";
    let listings = vec![ok("docs/one.md\ndocs/two.md\n"), failed("no")];
    let changes = changes_from_status(out, &listings);
    assert_eq!(
        summary(&changes),
        vec![
            ("src/a.rs".to_string(), ChangeStatus::Modified, false),
            ("src/b.rs".to_string(), ChangeStatus::Added, true),
            ("docs/one.md".to_string(), ChangeStatus::Untracked, false),
            ("docs/two.md".to_string(), ChangeStatus::Untracked, false),
            ("old.txt".to_string(), ChangeStatus::Deleted, true),
            ("notes.md".to_string(), ChangeStatus::Untracked, false),
            ("x -> y".to_string(), ChangeStatus::Renamed, true),
            ("tmp/".to_string(), ChangeStatus::Untracked, false),
        ]
    );
}

#[test]
fn short_lines_get_empty_paths() {
    let changes = changes_from_status("M\nMM\nMM \n", &vec![]);
    assert_eq!(
        summary(&changes),
        vec![
            ("".to_string(), ChangeStatus::Unknown, true),
            ("".to_string(), ChangeStatus::Modified, true),
            ("".to_string(), ChangeStatus::Modified, true),
        ]
    );
}

#[test]
fn status_twice_gives_the_same_changes() {
    let out = " M a\n?? d/\nC  b\n";
    let listings = vec![ok("d/x\n")];
    let first = summary(&changes_from_status(out, &listings));
    let second = summary(&changes_from_status(out, &listings));
    assert_eq!(first, second);
    assert_eq!(first.len(), 3);
}

#[test]
fn status_errors_are_surfaced() {
    let r = list_local_changes(Err("no such program".to_string()), &vec![]);
    assert!(matches!(r, Err(GitError::SpawnFailed(m)) if m == "no such program"));
    let r = list_local_changes(failed("not a repository"), &vec![]);
    assert!(matches!(r, Err(GitError::ToolInvocation(m)) if m == "not a repository"));
    assert!(untracked_dirs(&failed("x")).is_empty());
}

use repo_state::command::GitCommand;
use repo_state::diff::{
    after_diff, after_file_read, after_pre_image, after_untracked_check, after_write, begin_diff,
    join_path_exec, synthesize_added_patch, temp_file_name, ByteOutput, DiffAction, DiffRequest,
    DiffResult,
};
use repo_state::process::{GitError, ProcessOutput};

fn ok(stdout: &str) -> Result<ProcessOutput, String> {
    Ok(ProcessOutput { success: true, stdout: stdout.to_string(), stderr: String::new() })
}

fn req(staged: bool) -> DiffRequest {
    DiffRequest { repo_path: "/repo".to_string(), file: "img/logo.png".to_string(), staged }
}

#[test]
fn synthetic_patch_adds_every_line() {
    let p = synthesize_added_patch("notes.txt", "line1\nline2");
    assert_eq!(
        p,
        "diff --git a/notes.txt b/notes.txt\nnew file mode 100644\n--- /dev/null\n+++ b/notes.txt\n+line1\n+line2"
    );
    let plus_lines: Vec<&str> =
        p.lines().filter(|l| l.starts_with('+') && !l.starts_with("+++")).collect();
    assert_eq!(plus_lines, vec!["+line1", "+line2"]);
    assert!(p.contains("+++ b/notes.txt"));
    assert!(p.contains("--- /dev/null"));
}

#[test]
fn temp_names_differ_by_path_and_side() {
    let repo = "/home/u/proj".to_string();
    let a = temp_file_name(&repo, &"a/b.png".to_string(), false);
    let b = temp_file_name(&repo, &"a_b.png".to_string(), false);
    let c = temp_file_name(&repo, &"a/b.png".to_string(), true);
    assert_ne!(a, b);
    assert_ne!(a, c);
    assert_eq!(a, "old-head-_shome_su_sproj_-a_sb.png");
    assert_eq!(b, "old-head-_shome_su_sproj_-a__b.png");
    assert!(!a.contains('/'));
}

#[test]
fn temp_names_differ_across_repositories() {
    let n = |r: &str, f: &str| temp_file_name(&r.to_string(), &f.to_string(), true);
    assert_ne!(n("a-", "-b"), n("a", "--b"));
    assert_ne!(n("a_", "b"), n("a", "_b"));
    assert_ne!(n("a/", "b"), n("a", "/b"));
    assert_ne!(n("r", "x"), temp_file_name(&"r".to_string(), &"x".to_string(), false));
}

#[test]
fn long_paths_get_bounded_hashed_names() {
    let repo = "/home/user/projects/some/deeply/nested/repository".to_string();
    let deep = "a/".repeat(200) + "x.png";
    let other = "a/".repeat(200) + "y.png";
    let n1 = temp_file_name(&repo, &deep, false);
    let n2 = temp_file_name(&repo, &other, false);
    assert!(n1.starts_with("old-head-_h"));
    assert_eq!(n1.len(), "old-head-_h".len() + 16);
    assert_ne!(n1, n2);
    assert_eq!(n1, temp_file_name(&repo, &deep, false));
    assert_ne!(n1, temp_file_name(&repo, &deep, true));
    assert!(n1.len() <= 70);
}

#[test]
fn binary_marker_must_be_a_whole_line() {
    let r = req(false);
    let text = "@@ -1 +1 @@\n-x\n+Binary files are described here\n";
    match after_diff(&r, ok(text)) {
        DiffAction::Finish(Ok(DiffResult::Text { patch })) => assert_eq!(patch, text),
        other => panic!("unexpected {:?}", other),
    }
    let bin = "Binary files a/x and b/x differ\r\n";
    assert!(matches!(after_diff(&r, ok(bin)), DiffAction::FetchPreImage(_)));
}

#[test]
fn paths_join() {
    let j = |a: &str, b: &str| join_path_exec(&a.to_string(), &b.to_string());
    assert_eq!(j("/repo", "a.txt"), "/repo/a.txt");
    assert_eq!(j("/repo/", "a.txt"), "/repo/a.txt");
    assert_eq!(j("", "a.txt"), "a.txt");
    assert_eq!(j("/repo", "/abs"), "/abs");
}

#[test]
fn untracked_path_is_read_and_synthesized() {
    let r = req(false);
    assert!(matches!(begin_diff(&r), GitCommand::Untracked(p) if p == "img/logo.png"));
    match after_untracked_check(&r, ok("img/logo.png\n")) {
        DiffAction::ReadFile(p) => assert_eq!(p, "/repo/img/logo.png"),
        other => panic!("unexpected {:?}", other),
    }
    match after_file_read(&r, Some("x\n".to_string())) {
        DiffResult::SyntheticAdded { patch } => assert!(patch.ends_with("+x\n+")),
        other => panic!("unexpected {:?}", other),
    }
    match after_file_read(&r, None) {
        DiffResult::Binary { old_file_temp_path: None, new_file_path } => {
            assert_eq!(new_file_path, "/repo/img/logo.png")
        }
        other => panic!("unexpected {:?}", other),
    }
}

#[test]
fn tracked_text_diff_is_returned() {
    let r = req(true);
    match after_untracked_check(&r, ok("")) {
        DiffAction::RunDiff(c) => assert_eq!(c.args(), vec!["diff", "--cached", "--", "img/logo.png"]),
        other => panic!("unexpected {:?}", other),
    }
    match after_diff(&r, ok("@@ -1 +1 @@\n-a\n+b\n")) {
        DiffAction::Finish(Ok(DiffResult::Text { patch })) => assert_eq!(patch, "@@ -1 +1 @@\n-a\n+b\n"),
        other => panic!("unexpected {:?}", other),
    }
}

#[test]
fn binary_diff_materializes_pre_image() {
    let r = req(false);
    let patch = "diff --git a/img/logo.png b/img/logo.png\nBinary files a/img/logo.png and b/img/logo.png differ\n";
    let cmd = match after_diff(&r, ok(patch)) {
        DiffAction::FetchPreImage(c) => c,
        other => panic!("unexpected {:?}", other),
    };
    assert_eq!(cmd.args(), vec!["show", "HEAD:img/logo.png"]);
    let run = Ok(ByteOutput { success: true, stdout: vec![0x89, 0x50, 0x4e, 0x47] });
    match after_pre_image(&r, run) {
        DiffAction::WriteTemp { name, bytes } => {
            assert_eq!(name, "old-head-_srepo_-img_slogo.png");
            assert_eq!(bytes, vec![0x89, 0x50, 0x4e, 0x47]);
        }
        other => panic!("unexpected {:?}", other),
    }
    match after_write(&r, Ok("/tmp/old-head-x".to_string())) {
        Ok(DiffResult::Binary { old_file_temp_path: Some(o), new_file_path }) => {
            assert_eq!(o, "/tmp/old-head-x");
            assert_eq!(new_file_path, "/repo/img/logo.png");
        }
        other => panic!("unexpected {:?}", other),
    }
}

#[test]
fn binary_without_pre_image() {
    let r = req(true);
    match after_pre_image(&r, Ok(ByteOutput { success: true, stdout: vec![] })) {
        DiffAction::Finish(Ok(DiffResult::Binary { old_file_temp_path: None, new_file_path })) => {
            assert_eq!(new_file_path, "/repo/img/logo.png")
        }
        other => panic!("unexpected {:?}", other),
    }
}

#[test]
fn diff_errors() {
    let r = req(false);
    assert!(matches!(after_untracked_check(&r, Err("gone".to_string())), DiffAction::Finish(Err(GitError::SpawnFailed(m))) if m == "gone"));
    let failed = Ok(ProcessOutput { success: false, stdout: String::new(), stderr: "locked".to_string() });
    assert!(matches!(after_diff(&r, failed), DiffAction::Finish(Err(GitError::ToolInvocation(m))) if m == "locked"));
    assert!(matches!(after_pre_image(&r, Err("x".to_string())), DiffAction::Finish(Err(GitError::SpawnFailed(_)))));
    assert!(matches!(after_write(&r, Err("disk full".to_string())), Err(GitError::IoFailure(m)) if m == "disk full"));
}

use repo_state::commit::{get_commit_details, list_commits, parse_commits};
use repo_state::process::{GitError, ProcessOutput};

fn ok(stdout: &str) -> Result<ProcessOutput, String> {
    Ok(ProcessOutput { success: true, stdout: stdout.to_string(), stderr: String::new() })
}

#[test]
fn message_keeps_embedded_delimiter() {
    let cs = parse_commits("abc123|Alice|2024-01-01|fix: bug|extra");
    assert_eq!(cs.len(), 1);
    assert_eq!(cs[0].hash, "abc123");
    assert_eq!(cs[0].author, "Alice");
    assert_eq!(cs[0].date, "2024-01-01");
    assert_eq!(cs[0].message, "fix: bug|extra");
}

#[test]
fn missing_fields_are_empty() {
    let cs = list_commits(ok("h1|Bob\nh2\n")).unwrap();
    assert_eq!(cs.len(), 2);
    assert_eq!((cs[0].hash.as_str(), cs[0].author.as_str(), cs[0].date.as_str(), cs[0].message.as_str()), ("h1", "Bob", "", ""));
    assert_eq!((cs[1].hash.as_str(), cs[1].author.as_str()), ("h2", ""));
    assert!(list_commits(ok("")).unwrap().is_empty());
}

#[test]
fn commit_list_error_is_stderr() {
    let r = list_commits(Ok(ProcessOutput {
        success: false,
        stdout: String::new(),
        stderr: "bad ref".to_string(),
    }));
    assert!(matches!(r, Err(GitError::ToolInvocation(m)) if m == "bad ref"));
}

#[test]
fn commit_detail_reads_header_and_stats() {
    let out = "0123abcd\nAlice\nalice@example.com\nMon Jan 1 2024\nAdd feature\n src/main.rs | 10 +++++-----\n README.md   |  2 +\n\n 2 files changed, 7 insertions(+), 5 deletions(-)\n";
    let d = get_commit_details(ok(out)).unwrap();
    assert_eq!(d.hash, "0123abcd");
    assert_eq!(d.author_name, "Alice");
    assert_eq!(d.author_email, "alice@example.com");
    assert_eq!(d.author_date, "Mon Jan 1 2024");
    assert_eq!(d.subject, "Add feature");
    let files: Vec<(String, String)> =
        d.files.iter().map(|f| (f.file.clone(), f.changes.clone())).collect();
    assert_eq!(
        files,
        vec![
            ("src/main.rs".to_string(), "10 +++++-----".to_string()),
            ("README.md".to_string(), "2 +".to_string()),
        ]
    );
}

#[test]
fn stat_line_is_split_once() {
    let out = "h\nA\na@x\nd\ns\n x | y | z\nno separator here\n";
    let d = get_commit_details(ok(out)).unwrap();
    assert_eq!(d.files.len(), 1);
    assert_eq!(d.files[0].file, "x");
    assert_eq!(d.files[0].changes, "y | z");
}

#[test]
fn only_line_feeds_take_a_carriage_return() {
    let cs = parse_commits("h|a|d|m\r\nh2|b|d|m2\r");
    assert_eq!(cs.len(), 2);
    assert_eq!(cs[0].message, "m");
    assert_eq!(cs[1].message, "m2\r");
}

#[test]
fn commit_line_round_trip() {
    let l = "abc|Al|2024|x|y|z";
    let c = &parse_commits(l)[0];
    assert_eq!(format!("{}|{}|{}|{}", c.hash, c.author, c.date, c.message), l);
}

#[test]
fn commit_detail_of_short_output() {
    let d = get_commit_details(ok("h\nA")).unwrap();
    assert_eq!(d.author_name, "A");
    assert_eq!(d.author_email, "");
    assert!(d.files.is_empty());
}

#[test]
fn commit_detail_of_empty_output() {
    let d = get_commit_details(ok("")).unwrap();
    assert_eq!(
        (d.hash.as_str(), d.author_name.as_str(), d.author_email.as_str(), d.author_date.as_str(), d.subject.as_str()),
        ("", "", "", "", "")
    );
    assert!(d.files.is_empty());
    let r = get_commit_details(Err("gone".to_string()));
    assert!(matches!(r, Err(GitError::SpawnFailed(m)) if m == "gone"));
}

//! The argument vectors of the tool invocations that the operations make.

use vstd::prelude::*;

use crate::text::{is_blank, owned, string_views, trim_chars, chars_of};

verus! {

/// One invocation of the tool, by what it is for.
#[derive(Debug)]
pub enum GitCommand {
    /// The local branches, current one marked.
    ListBranches,
    /// The remote-tracking branches.
    ListRemoteBranches,
    /// The short names of the local branches, one per line.
    LocalBranchNames,
    /// The upstream of a branch; fails when it has none.
    Upstream(String),
    /// The number of commits on a branch that its upstream lacks.
    CountAhead(String),
    /// The number of commits on the upstream of a branch that it lacks.
    CountBehind(String),
    /// The name of the checked-out branch.
    CurrentBranch,
    /// Switch to a branch.
    Checkout(String),
    /// One line per commit reachable from a ref: hash|author|date|subject.
    Log(String),
    /// The header and file statistics of one commit.
    Show(String),
    /// Record a commit.
    Commit { message: String, description: String, amend: bool },
    /// The short status of the working tree.
    Status,
    /// The untracked files at or under a path.
    Untracked(String),
    /// Add paths to the index.
    Stage(Vec<String>),
    /// Take paths out of the index.
    Unstage(Vec<String>),
    /// Restore paths in the working tree from the index.
    Discard(Vec<String>),
    /// The diff of one path, of the index against the last commit when
    /// staged, else of the working tree against the index.
    Diff { path: String, staged: bool },
    /// The content of a path before the change: in the index when staged,
    /// else in the last commit.
    PreImage { path: String, staged: bool },
    StashPush,
    StashPop,
    ResetHard,
    /// Push a branch (`HEAD` when none is given) to a remote (`origin` when
    /// none is given).
    Push { remote: Option<String>, branch: Option<String> },
    /// Pull a branch from `origin`.
    Pull(String),
    /// Fetch from a remote.
    Fetch(String),
    /// Merge a branch into the checked-out one.
    Merge(String),
    /// The URL of the `origin` remote.
    RemoteUrl,
}

/// The message of a commit: the summary, and the description after a blank
/// line when it holds more than white space.
pub open spec fn commit_message(message: Seq<char>, description: Seq<char>) -> Seq<char> {
    if is_blank(description) {
        message
    } else {
        message + "\n\n"@ + description
    }
}

/// The arguments that follow the tool's name for a command.
pub open spec fn argv(c: GitCommand) -> Seq<Seq<char>> {
    match c {
        GitCommand::ListBranches => seq!["branch"@],
        GitCommand::ListRemoteBranches => seq!["branch"@, "-r"@],
        GitCommand::LocalBranchNames => seq![
            "for-each-ref"@,
            "--format=%(refname:short)"@,
            "refs/heads/"@,
        ],
        GitCommand::Upstream(b) => seq!["rev-parse"@, "--abbrev-ref"@, b@ + "@{u}"@],
        GitCommand::CountAhead(b) => seq!["rev-list"@, "--count"@, b@ + "@{u}.."@ + b@],
        GitCommand::CountBehind(b) => seq!["rev-list"@, "--count"@, b@ + ".."@ + b@ + "@{u}"@],
        GitCommand::CurrentBranch => seq!["rev-parse"@, "--abbrev-ref"@, "HEAD"@],
        GitCommand::Checkout(b) => seq!["checkout"@, b@],
        GitCommand::Log(b) => seq!["log"@, "--pretty=format:%H|%an|%ad|%s"@, b@],
        GitCommand::Show(h) => seq![
            "show"@,
            "--stat"@,
            "--pretty=format:%H%n%an%n%ae%n%ad%n%s"@,
            h@,
        ],
        GitCommand::Commit { message, description, amend } => {
            let base = seq!["commit"@, "-m"@, commit_message(message@, description@)];
            if amend {
                base.push("--amend"@)
            } else {
                base
            }
        },
        GitCommand::Status => seq!["status"@, "--porcelain"@],
        GitCommand::Untracked(p) => seq![
            "ls-files"@,
            "--others"@,
            "--exclude-standard"@,
            "--"@,
            p@,
        ],
        GitCommand::Stage(fs) => seq!["add"@] + string_views(fs@),
        GitCommand::Unstage(fs) => seq!["reset"@] + string_views(fs@),
        GitCommand::Discard(fs) => seq!["checkout"@, "--"@] + string_views(fs@),
        GitCommand::Diff { path, staged } => if staged {
            seq!["diff"@, "--cached"@, "--"@, path@]
        } else {
            seq!["diff"@, "--"@, path@]
        },
        GitCommand::PreImage { path, staged } => if staged {
            seq!["show"@, ":"@ + path@]
        } else {
            seq!["show"@, "HEAD:"@ + path@]
        },
        GitCommand::StashPush => seq!["stash"@, "push"@, "-u"@],
        GitCommand::StashPop => seq!["stash"@, "pop"@],
        GitCommand::ResetHard => seq!["reset"@, "--hard"@],
        GitCommand::Push { remote, branch } => seq![
            "push"@,
            match remote {
                Some(r) => r@,
                None => "origin"@,
            },
            match branch {
                Some(b) => b@,
                None => "HEAD"@,
            },
        ],
        GitCommand::Pull(b) => seq!["pull"@, "origin"@, b@],
        GitCommand::Fetch(r) => seq!["fetch"@, r@],
        GitCommand::Merge(b) => seq!["merge"@, b@],
        GitCommand::RemoteUrl => seq!["config"@, "--get"@, "remote.origin.url"@],
    }
}

fn cat(a: &String, b: &str) -> (r: String)
    ensures
        r@ == a@ + b@,
{
    a.clone().concat(b)
}

/// The message of a commit.
pub fn compose_commit_message(message: &String, description: &String) -> (r: String)
    ensures
        r@ == commit_message(message@, description@),
{
    let d = chars_of(description.as_str());
    let t = trim_chars(&d);
    if t.len() == 0 {
        message.clone()
    } else {
        let m = cat(message, "\n\n");
        m.concat(description.as_str())
    }
}

fn push_all(r: &mut Vec<String>, fs: &Vec<String>)
    ensures
        string_views(final(r)@) == string_views(old(r)@) + string_views(fs@),
{
    let mut i: usize = 0;
    while i < fs.len()
        invariant
            i <= fs@.len(),
            string_views(r@) =~= string_views(old(r)@) + string_views(fs@).take(i as int),
        decreases fs@.len() - i,
    {
        let ghost before = string_views(r@);
        r.push(fs[i].clone());
        assert(string_views(r@) =~= before.push(fs@[i as int]@));
        assert(string_views(fs@).take(i + 1) =~= string_views(fs@).take(i as int).push(fs@[i as int]@));
        i = i + 1;
    }
    assert(string_views(fs@).take(fs@.len() as int) =~= string_views(fs@));
}

impl GitCommand {
    /// The arguments that follow the tool's name.
    pub fn args(&self) -> (r: Vec<String>)
        ensures
            string_views(r@) == argv(*self),
    {
        let mut r: Vec<String> = Vec::new();
        match self {
            GitCommand::ListBranches => {
                r.push(owned("branch"));
            },
            GitCommand::ListRemoteBranches => {
                r.push(owned("branch"));
                r.push(owned("-r"));
            },
            GitCommand::LocalBranchNames => {
                r.push(owned("for-each-ref"));
                r.push(owned("--format=%(refname:short)"));
                r.push(owned("refs/heads/"));
            },
            GitCommand::Upstream(b) => {
                r.push(owned("rev-parse"));
                r.push(owned("--abbrev-ref"));
                r.push(cat(b, "@{u}"));
            },
            GitCommand::CountAhead(b) => {
                r.push(owned("rev-list"));
                r.push(owned("--count"));
                r.push(cat(&cat(b, "@{u}.."), b.as_str()));
            },
            GitCommand::CountBehind(b) => {
                r.push(owned("rev-list"));
                r.push(owned("--count"));
                r.push(cat(&cat(&cat(b, ".."), b.as_str()), "@{u}"));
            },
            GitCommand::CurrentBranch => {
                r.push(owned("rev-parse"));
                r.push(owned("--abbrev-ref"));
                r.push(owned("HEAD"));
            },
            GitCommand::Checkout(b) => {
                r.push(owned("checkout"));
                r.push(b.clone());
            },
            GitCommand::Log(b) => {
                r.push(owned("log"));
                r.push(owned("--pretty=format:%H|%an|%ad|%s"));
                r.push(b.clone());
            },
            GitCommand::Show(h) => {
                r.push(owned("show"));
                r.push(owned("--stat"));
                r.push(owned("--pretty=format:%H%n%an%n%ae%n%ad%n%s"));
                r.push(h.clone());
            },
            GitCommand::Commit { message, description, amend } => {
                r.push(owned("commit"));
                r.push(owned("-m"));
                r.push(compose_commit_message(message, description));
                if *amend {
                    r.push(owned("--amend"));
                }
            },
            GitCommand::Status => {
                r.push(owned("status"));
                r.push(owned("--porcelain"));
            },
            GitCommand::Untracked(p) => {
                r.push(owned("ls-files"));
                r.push(owned("--others"));
                r.push(owned("--exclude-standard"));
                r.push(owned("--"));
                r.push(p.clone());
            },
            GitCommand::Stage(fs) => {
                r.push(owned("add"));
                push_all(&mut r, fs);
            },
            GitCommand::Unstage(fs) => {
                r.push(owned("reset"));
                push_all(&mut r, fs);
            },
            GitCommand::Discard(fs) => {
                r.push(owned("checkout"));
                r.push(owned("--"));
                push_all(&mut r, fs);
            },
            GitCommand::Diff { path, staged } => {
                r.push(owned("diff"));
                if *staged {
                    r.push(owned("--cached"));
                }
                r.push(owned("--"));
                r.push(path.clone());
            },
            GitCommand::PreImage { path, staged } => {
                r.push(owned("show"));
                if *staged {
                    r.push(owned(":").concat(path.as_str()));
                } else {
                    r.push(owned("HEAD:").concat(path.as_str()));
                }
            },
            GitCommand::StashPush => {
                r.push(owned("stash"));
                r.push(owned("push"));
                r.push(owned("-u"));
            },
            GitCommand::StashPop => {
                r.push(owned("stash"));
                r.push(owned("pop"));
            },
            GitCommand::ResetHard => {
                r.push(owned("reset"));
                r.push(owned("--hard"));
            },
            GitCommand::Push { remote, branch } => {
                r.push(owned("push"));
                match remote {
                    Some(x) => r.push(x.clone()),
                    None => r.push(owned("origin")),
                }
                match branch {
                    Some(x) => r.push(x.clone()),
                    None => r.push(owned("HEAD")),
                }
            },
            GitCommand::Pull(b) => {
                r.push(owned("pull"));
                r.push(owned("origin"));
                r.push(b.clone());
            },
            GitCommand::Fetch(x) => {
                r.push(owned("fetch"));
                r.push(x.clone());
            },
            GitCommand::Merge(b) => {
                r.push(owned("merge"));
                r.push(b.clone());
            },
            GitCommand::RemoteUrl => {
                r.push(owned("config"));
                r.push(owned("--get"));
                r.push(owned("remote.origin.url"));
            },
        }
        assert(string_views(r@) =~= argv(*self));
        r
    }
}

} // verus!

//! Web addresses of the `origin` remote: the repository page and the page
//! that opens a pull request.

use vstd::prelude::*;

use crate::process::{stdout_of, tool_result, GitError, ProcessOutput};
use crate::text::{
    append_chars, chars_of, contains_chars, contains_seq, copy_range, ends_with, ends_with_chars,
    replace_char, replace_char_exec, starts_with, string_of, trim, trim_chars, occurs_at_exec,
};

verus! {

/// The hosting services whose pages are known.
#[derive(Clone, Copy, Debug, PartialEq, Eq, Structural)]
pub enum Host {
    GitHub,
    GitLab,
    Azure,
}

/// A remote URL in the form a browser opens: `git@host:path` becomes
/// `https://host/path`.
pub open spec fn https_form(url: Seq<char>) -> Seq<char> {
    if starts_with(url, "git@"@) {
        "https://"@ + replace_char(url.skip(4), ':', seq!['/'])
    } else {
        url
    }
}

/// `s` without any number of trailing `.git`.
pub open spec fn strip_git_suffix(s: Seq<char>) -> Seq<char>
    decreases s.len(),
{
    if s.len() >= 4 && ends_with(s, ".git"@) {
        strip_git_suffix(s.take(s.len() - 4))
    } else {
        s
    }
}

/// The web address of the repository that remote URL `url` names.
pub open spec fn web_url(url: Seq<char>) -> Seq<char> {
    strip_git_suffix(https_form(url))
}

/// The service that a web address belongs to.
pub open spec fn host_of(web: Seq<char>) -> Option<Host> {
    if contains_seq(web, "github.com"@) {
        Some(Host::GitHub)
    } else if contains_seq(web, "gitlab.com"@) {
        Some(Host::GitLab)
    } else if contains_seq(web, "dev.azure.com"@) || contains_seq(web, "visualstudio.com"@) {
        Some(Host::Azure)
    } else {
        None
    }
}

/// The branch that pull requests target.
pub open spec fn target_branch() -> Seq<char> {
    "main"@
}

/// The page that opens a pull request of `branch` into the target branch.
pub open spec fn pull_request_page(web: Seq<char>, host: Host, branch: Seq<char>) -> Seq<char> {
    match host {
        Host::GitHub => web + "/compare/"@ + target_branch() + "..."@ + branch + "?expand=1"@,
        Host::GitLab => web + "/-/merge_requests/new?merge_request[source_branch]="@ + branch
            + "&merge_request[target_branch]="@ + target_branch(),
        Host::Azure => web + "/pullrequestcreate?sourceRef="@ + branch + "&targetRef="@
            + target_branch(),
    }
}

/// The web address of the repository that a run of `GitCommand::RemoteUrl`
/// names, or why there is none.
pub open spec fn repository_page(run: Result<ProcessOutput, String>) -> Result<Seq<char>, GitError> {
    match stdout_of(run) {
        Err(e) => Err(e),
        Ok(out) => if trim(out@).len() == 0 {
            Err(GitError::NotFound(out))
        } else {
            Ok(web_url(trim(out@)))
        },
    }
}

fn https_form_exec(url: &Vec<char>) -> (r: Vec<char>)
    ensures
        r@ == https_form(url@),
{
    let git = chars_of("git@");
    proof {
        reveal_strlit("git@");
    }
    if occurs_at_exec(url, &git, 0) {
        let rest = copy_range(url, 4, url.len());
        assert(url@.subrange(4, url@.len() as int) =~= url@.skip(4));
        let mut slash: Vec<char> = Vec::new();
        slash.push('/');
        assert(slash@ =~= seq!['/']);
        let mut r = chars_of("https://");
        append_chars(&mut r, &replace_char_exec(&rest, ':', &slash));
        r
    } else {
        let r = copy_range(url, 0, url.len());
        assert(url@.subrange(0, url@.len() as int) =~= url@);
        r
    }
}

fn strip_git_suffix_exec(s: &Vec<char>) -> (r: Vec<char>)
    ensures
        r@ == strip_git_suffix(s@),
{
    let suffix = chars_of(".git");
    proof {
        reveal_strlit(".git");
    }
    let mut end: usize = s.len();
    let mut cur = copy_range(s, 0, end);
    assert(s@.subrange(0, s@.len() as int) =~= s@);
    while cur.len() >= 4 && ends_with_chars(&cur, &suffix)
        invariant
            suffix@ == ".git"@,
            ".git"@.len() == 4,
            strip_git_suffix(s@) == strip_git_suffix(cur@),
        decreases cur@.len(),
    {
        let next = copy_range(&cur, 0, cur.len() - 4);
        assert(cur@.subrange(0, cur@.len() - 4) =~= cur@.take(cur@.len() - 4));
        cur = next;
    }
    cur
}

/// The web address of the repository that remote URL `url` names.
pub fn web_url_exec(url: &Vec<char>) -> (r: Vec<char>)
    ensures
        r@ == web_url(url@),
{
    strip_git_suffix_exec(&https_form_exec(url))
}

fn host_of_exec(web: &Vec<char>) -> (r: Option<Host>)
    ensures
        r == host_of(web@),
{
    if contains_chars(web, &chars_of("github.com")) {
        Some(Host::GitHub)
    } else if contains_chars(web, &chars_of("gitlab.com")) {
        Some(Host::GitLab)
    } else if contains_chars(web, &chars_of("dev.azure.com")) || contains_chars(
        web,
        &chars_of("visualstudio.com"),
    ) {
        Some(Host::Azure)
    } else {
        None
    }
}

fn web_from_run(run: Result<ProcessOutput, String>) -> (r: Result<Vec<char>, GitError>)
    ensures
        match repository_page(run) {
            Ok(w) => r is Ok && r->Ok_0@ == w,
            Err(e) => r == Err::<Vec<char>, GitError>(e),
        },
{
    match tool_result(run) {
        Err(e) => Err(e),
        Ok(out) => {
            let t = trim_chars(&chars_of(out.as_str()));
            if t.len() == 0 {
                Err(GitError::NotFound(out))
            } else {
                Ok(web_url_exec(&t))
            }
        },
    }
}

/// The web page of the repository that a run of `GitCommand::RemoteUrl`
/// names: a failed run gives its error, an empty URL `NotFound`, and a URL
/// of an unknown service `UnsupportedHost`.
pub fn repository_web_url(run: Result<ProcessOutput, String>) -> (r: Result<String, GitError>)
    ensures
        match repository_page(run) {
            Err(e) => r == Err::<String, GitError>(e),
            Ok(w) => match host_of(w) {
                Some(_) => r is Ok && r->Ok_0@ == w,
                None => r matches Err(GitError::UnsupportedHost(m)) && m@ == w,
            },
        },
{
    match web_from_run(run) {
        Err(e) => Err(e),
        Ok(w) => match host_of_exec(&w) {
            Some(_) => Ok(string_of(&w)),
            None => Err(GitError::UnsupportedHost(string_of(&w))),
        },
    }
}

fn cat(a: String, b: &str) -> (r: String)
    ensures
        r@ == a@ + b@,
{
    a.concat(b)
}

/// The page that opens a pull request of `branch` into `main`, on the
/// service of the repository that a run of `GitCommand::RemoteUrl` names.
pub fn pull_request_url(run: Result<ProcessOutput, String>, branch: &String) -> (r: Result<String, GitError>)
    ensures
        match repository_page(run) {
            Err(e) => r == Err::<String, GitError>(e),
            Ok(w) => match host_of(w) {
                Some(h) => r is Ok && r->Ok_0@ == pull_request_page(w, h, branch@),
                None => r matches Err(GitError::UnsupportedHost(m)) && m@ == w,
            },
        },
{
    match web_from_run(run) {
        Err(e) => Err(e),
        Ok(w) => {
            let web = string_of(&w);
            match host_of_exec(&w) {
                Some(Host::GitHub) => Ok(
                    cat(cat(cat(cat(cat(web, "/compare/"), "main"), "..."), branch.as_str()), "?expand=1"),
                ),
                Some(Host::GitLab) => Ok(
                    cat(
                        cat(
                            cat(cat(web, "/-/merge_requests/new?merge_request[source_branch]="), branch.as_str()),
                            "&merge_request[target_branch]=",
                        ),
                        "main",
                    ),
                ),
                Some(Host::Azure) => Ok(
                    cat(cat(cat(cat(web, "/pullrequestcreate?sourceRef="), branch.as_str()), "&targetRef="), "main"),
                ),
                None => Err(GitError::UnsupportedHost(web)),
            }
        },
    }
}

} // verus!

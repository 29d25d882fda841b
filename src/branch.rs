//! Branch listings, the current branch, and divergence from upstream.

use vstd::prelude::*;

use crate::command::GitCommand;
use crate::process::{run_succeeded, stdout_of, succeeded, tool_result, GitError, ProcessOutput};
use crate::text::{
    chars_of, copy_range, is_blank, lines, split_lines, string_of, string_views, trim, trim_chars,
    views,
};

verus! {

/// A branch as a listing names it.
#[derive(Debug)]
pub struct Branch {
    pub name: String,
    pub is_remote: bool,
    pub is_current: bool,
}

pub ghost struct BranchView {
    pub name: Seq<char>,
    pub is_remote: bool,
    pub is_current: bool,
}

impl View for Branch {
    type V = BranchView;

    open spec fn view(&self) -> BranchView {
        BranchView { name: self.name@, is_remote: self.is_remote, is_current: self.is_current }
    }
}

pub open spec fn branch_views(v: Seq<Branch>) -> Seq<BranchView> {
    v.map_values(|b: Branch| b@)
}

/// The branch that a trimmed, non-empty listing line names: in a listing of
/// local branches a leading `* ` marks the current branch and is not part of
/// the name; a remote listing has no such marker.
pub open spec fn branch_of(t: Seq<char>, remote: bool) -> BranchView {
    if !remote && t.len() >= 2 && t[0] == '*' && t[1] == ' ' {
        BranchView { name: t.skip(2), is_remote: remote, is_current: true }
    } else {
        BranchView { name: t, is_remote: remote, is_current: false }
    }
}

/// The branches that listing lines `ls` name, blank lines skipped.
pub open spec fn branch_list(ls: Seq<Seq<char>>, remote: bool) -> Seq<BranchView>
    decreases ls.len(),
{
    if ls.len() == 0 {
        Seq::empty()
    } else {
        branch_list(ls.drop_last(), remote) + if is_blank(ls.last()) {
            Seq::empty()
        } else {
            seq![branch_of(trim(ls.last()), remote)]
        }
    }
}

/// The trimmed, non-blank lines of `ls`.
pub open spec fn name_list(ls: Seq<Seq<char>>) -> Seq<Seq<char>>
    decreases ls.len(),
{
    if ls.len() == 0 {
        Seq::empty()
    } else {
        name_list(ls.drop_last()) + if is_blank(ls.last()) {
            Seq::empty()
        } else {
            seq![trim(ls.last())]
        }
    }
}

fn branch_of_exec(t: &Vec<char>, remote: bool) -> (r: Branch)
    ensures
        r@ == branch_of(t@, remote),
{
    if !remote && t.len() >= 2 && t[0] == '*' && t[1] == ' ' {
        let n = copy_range(t, 2, t.len());
        assert(t@.subrange(2, t@.len() as int) =~= t@.skip(2));
        Branch { name: string_of(&n), is_remote: remote, is_current: true }
    } else {
        Branch { name: string_of(t), is_remote: remote, is_current: false }
    }
}

/// The branches that a listing's output names, in order.
pub fn parse_branches(stdout: &str, remote: bool) -> (r: Vec<Branch>)
    ensures
        branch_views(r@) == branch_list(lines(stdout@), remote),
{
    let out = chars_of(stdout);
    let ls = split_lines(&out);
    let ghost all = views(ls@);
    let mut r: Vec<Branch> = Vec::new();
    let mut i: usize = 0;
    while i < ls.len()
        invariant
            i <= ls@.len(),
            all == views(ls@),
            branch_views(r@) == branch_list(all.take(i as int), remote),
        decreases ls@.len() - i,
    {
        assert(all.take(i + 1).drop_last() =~= all.take(i as int));
        assert(all.take(i + 1).last() == ls@[i as int]@);
        let t = trim_chars(&ls[i]);
        if t.len() > 0 {
            let ghost before = branch_views(r@);
            r.push(branch_of_exec(&t, remote));
            assert(branch_views(r@) =~= before + seq![branch_of(trim(all[i as int]), remote)]);
        } else {
            assert(branch_list(all.take(i + 1), remote) =~= branch_list(all.take(i as int), remote));
        }
        i = i + 1;
    }
    assert(all.take(ls@.len() as int) =~= all);
    r
}

/// The trimmed, non-blank lines of `stdout`.
pub fn parse_names(stdout: &str) -> (r: Vec<String>)
    ensures
        string_views(r@) == name_list(lines(stdout@)),
{
    let out = chars_of(stdout);
    let ls = split_lines(&out);
    let ghost all = views(ls@);
    let mut r: Vec<String> = Vec::new();
    let mut i: usize = 0;
    while i < ls.len()
        invariant
            i <= ls@.len(),
            all == views(ls@),
            string_views(r@) == name_list(all.take(i as int)),
        decreases ls@.len() - i,
    {
        assert(all.take(i + 1).drop_last() =~= all.take(i as int));
        assert(all.take(i + 1).last() == ls@[i as int]@);
        let t = trim_chars(&ls[i]);
        if t.len() > 0 {
            let ghost before = string_views(r@);
            r.push(string_of(&t));
            assert(string_views(r@) =~= before + seq![trim(all[i as int])]);
        } else {
            assert(name_list(all.take(i + 1)) =~= name_list(all.take(i as int)));
        }
        i = i + 1;
    }
    assert(all.take(ls@.len() as int) =~= all);
    r
}

/// The local branches that a run of `GitCommand::ListBranches` names, the
/// checked-out one marked current.
pub fn list_branches(run: Result<ProcessOutput, String>) -> (r: Result<Vec<Branch>, GitError>)
    ensures
        match stdout_of(run) {
            Ok(out) => r is Ok && branch_views(r->Ok_0@) == branch_list(lines(out@), false),
            Err(e) => r == Err::<Vec<Branch>, GitError>(e),
        },
{
    match tool_result(run) {
        Ok(out) => Ok(parse_branches(out.as_str(), false)),
        Err(e) => Err(e),
    }
}

/// The remote-tracking branches that a run of
/// `GitCommand::ListRemoteBranches` names.
pub fn list_remote_branches(run: Result<ProcessOutput, String>) -> (r: Result<Vec<Branch>, GitError>)
    ensures
        match stdout_of(run) {
            Ok(out) => r is Ok && branch_views(r->Ok_0@) == branch_list(lines(out@), true),
            Err(e) => r == Err::<Vec<Branch>, GitError>(e),
        },
{
    match tool_result(run) {
        Ok(out) => Ok(parse_branches(out.as_str(), true)),
        Err(e) => Err(e),
    }
}

/// The names of the local branches that a run of
/// `GitCommand::LocalBranchNames` gives, in order.
pub fn local_branch_names(run: Result<ProcessOutput, String>) -> (r: Result<Vec<String>, GitError>)
    ensures
        match stdout_of(run) {
            Ok(out) => r is Ok && string_views(r->Ok_0@) == name_list(lines(out@)),
            Err(e) => r == Err::<Vec<String>, GitError>(e),
        },
{
    match tool_result(run) {
        Ok(out) => Ok(parse_names(out.as_str())),
        Err(e) => Err(e),
    }
}

/// The checked-out branch that a run of `GitCommand::CurrentBranch` names.
pub fn get_current_branch(run: Result<ProcessOutput, String>) -> (r: Result<String, GitError>)
    ensures
        match stdout_of(run) {
            Ok(out) => r is Ok && r->Ok_0@ == trim(out@),
            Err(e) => r == Err::<String, GitError>(e),
        },
{
    match tool_result(run) {
        Ok(out) => {
            let c = chars_of(out.as_str());
            Ok(string_of(&trim_chars(&c)))
        },
        Err(e) => Err(e),
    }
}

/// What follows the checkout of the target branch of a merge: the merge of
/// `from` when the checkout succeeded, else the checkout's error.
pub fn after_merge_checkout(checkout: Result<ProcessOutput, String>, from: &String) -> (r: Result<
    GitCommand,
    GitError,
>)
    ensures
        match stdout_of(checkout) {
            Ok(_) => r matches Ok(GitCommand::Merge(b)) && b@ == from@,
            Err(e) => r == Err::<GitCommand, GitError>(e),
        },
{
    match tool_result(checkout) {
        Ok(_) => Ok(GitCommand::Merge(from.clone())),
        Err(e) => Err(e),
    }
}

pub open spec fn is_digit(c: char) -> bool {
    '0' <= c <= '9'
}

/// The value of a string of decimal digits.
pub open spec fn digits_value(s: Seq<char>) -> int
    decreases s.len(),
{
    if s.len() == 0 {
        0
    } else {
        digits_value(s.drop_last()) * 10 + (s.last() as int - '0' as int)
    }
}

/// The digits of a number: what follows an optional leading `+`.
pub open spec fn unsigned_digits(s: Seq<char>) -> Seq<char> {
    if s.len() > 0 && s[0] == '+' {
        s.drop_first()
    } else {
        s
    }
}

/// The `u32` that `s` writes in decimal, as `u32::from_str` reads it: an
/// optional `+`, then one or more digits, and a value that fits.
pub open spec fn parse_u32(s: Seq<char>) -> Option<u32> {
    let d = unsigned_digits(s);
    if d.len() > 0 && (forall|i: int| 0 <= i < d.len() ==> is_digit(#[trigger] d[i])) && digits_value(
        d,
    ) <= u32::MAX {
        Some(digits_value(d) as u32)
    } else {
        None
    }
}

proof fn lemma_digits_value_grows(s: Seq<char>, i: int)
    requires
        0 <= i <= s.len(),
        forall|j: int| 0 <= j < s.len() ==> is_digit(#[trigger] s[j]),
    ensures
        digits_value(s) >= digits_value(s.take(i)) >= 0,
    decreases s.len(),
{
    if s.len() > 0 {
        if i == s.len() {
            assert(s.take(i) =~= s);
            lemma_digits_value_grows(s.drop_last(), i - 1);
        } else {
            assert(s.drop_last().take(i) =~= s.take(i));
            lemma_digits_value_grows(s.drop_last(), i);
        }
    } else {
        assert(s.take(i) =~= s);
    }
}

/// The `u32` that `s` writes in decimal, as `u32::from_str` reads it.
pub fn parse_u32_exec(s: &Vec<char>) -> (r: Option<u32>)
    ensures
        r == parse_u32(s@),
{
    let start: usize = if s.len() > 0 && s[0] == '+' {
        1
    } else {
        0
    };
    let ghost d = unsigned_digits(s@);
    assert(d =~= s@.skip(start as int));
    if start >= s.len() {
        return None;
    }
    let mut v: u64 = 0;
    let mut i: usize = start;
    while i < s.len()
        invariant
            start <= i <= s@.len(),
            d == unsigned_digits(s@),
            d =~= s@.skip(start as int),
            d.len() > 0,
            forall|j: int| 0 <= j < i - start ==> is_digit(#[trigger] d[j]),
            v == digits_value(d.take(i - start)),
            v <= u32::MAX,
        decreases s@.len() - i,
    {
        let c = s[i];
        assert(d[i - start] == c);
        if !('0' <= c && c <= '9') {
            assert(!is_digit(d[i - start]));
            return None;
        }
        assert(d.take(i - start + 1).drop_last() =~= d.take(i - start));
        assert(d.take(i - start + 1).last() == c);
        let digit = (c as u32 - '0' as u32) as u64;
        assert(digits_value(d.take(i - start + 1)) == v * 10 + digit);
        v = v * 10 + digit;
        i = i + 1;
        if v > u32::MAX as u64 {
            proof {
                if forall|j: int| 0 <= j < d.len() ==> is_digit(#[trigger] d[j]) {
                    lemma_digits_value_grows(d, i - start);
                }
            }
            return None;
        }
    }
    assert(d.take(d.len() as int) =~= d);
    Some(v as u32)
}

/// A count that a query reported: the number its trimmed output writes when
/// the run succeeded, else 0.
pub open spec fn count_of(run: Result<ProcessOutput, String>) -> u32 {
    if run_succeeded(run) {
        match parse_u32(trim(run->Ok_0.stdout@)) {
            Some(n) => n,
            None => 0,
        }
    } else {
        0
    }
}

/// A count that a query reported, 0 when it failed or wrote no number.
pub fn count_from(run: &Result<ProcessOutput, String>) -> (r: u32)
    ensures
        r == count_of(*run),
{
    match run {
        Ok(o) => {
            if !o.success {
                return 0;
            }
            let c = chars_of(o.stdout.as_str());
            match parse_u32_exec(&trim_chars(&c)) {
                Some(n) => n,
                None => 0,
            }
        },
        Err(_) => 0,
    }
}

/// How far a local branch and its upstream have moved apart.
#[derive(Debug)]
pub struct BranchDivergence {
    pub name: String,
    pub has_upstream: bool,
    pub ahead: u32,
    pub behind: u32,
}

pub ghost struct DivergenceView {
    pub name: Seq<char>,
    pub has_upstream: bool,
    pub ahead: u32,
    pub behind: u32,
}

impl View for BranchDivergence {
    type V = DivergenceView;

    open spec fn view(&self) -> DivergenceView {
        DivergenceView {
            name: self.name@,
            has_upstream: self.has_upstream,
            ahead: self.ahead,
            behind: self.behind,
        }
    }
}

impl BranchDivergence {
    /// A branch without upstream is neither ahead nor behind.
    pub open spec fn wf(&self) -> bool {
        !self.has_upstream ==> self.ahead == 0 && self.behind == 0
    }
}

/// The divergence of a branch that has no upstream.
pub open spec fn no_upstream(name: Seq<char>) -> DivergenceView {
    DivergenceView { name, has_upstream: false, ahead: 0, behind: 0 }
}

/// What the divergence of one branch needs next.
#[derive(Debug)]
pub enum DivergenceStep {
    /// Nothing more: this is the divergence.
    Done(BranchDivergence),
    /// Run both queries and hand their runs to `divergence_from_counts`.
    CountCommits { ahead: GitCommand, behind: GitCommand },
}

/// What follows the upstream query of branch `name`.
pub open spec fn step_after_upstream(name: Seq<char>, upstream: Result<ProcessOutput, String>, step: DivergenceStep) -> bool {
    if run_succeeded(upstream) {
        step matches DivergenceStep::CountCommits { ahead, behind } && (ahead matches GitCommand::CountAhead(a) && a@ == name) && (behind matches GitCommand::CountBehind(b) && b@ == name)
    } else {
        step matches DivergenceStep::Done(d) && d@ == no_upstream(name) && d.wf()
    }
}

/// The step that follows the run of `GitCommand::Upstream(name)`: when no
/// upstream resolved, the branch is done with no upstream and nothing to
/// count; else both counts are to be queried.
pub fn after_upstream_check(name: &String, upstream: &Result<ProcessOutput, String>) -> (r: DivergenceStep)
    ensures
        step_after_upstream(name@, *upstream, r),
{
    if succeeded(upstream) {
        DivergenceStep::CountCommits {
            ahead: GitCommand::CountAhead(name.clone()),
            behind: GitCommand::CountBehind(name.clone()),
        }
    } else {
        DivergenceStep::Done(BranchDivergence { name: name.clone(), has_upstream: false, ahead: 0, behind: 0 })
    }
}

/// The divergence of a branch whose upstream resolved, from the runs of its
/// two count queries.
pub fn divergence_from_counts(name: &String, ahead: &Result<ProcessOutput, String>, behind: &Result<ProcessOutput, String>) -> (r: BranchDivergence)
    ensures
        r@ == (DivergenceView { name: name@, has_upstream: true, ahead: count_of(*ahead), behind: count_of(*behind) }),
        r.wf(),
{
    BranchDivergence {
        name: name.clone(),
        has_upstream: true,
        ahead: count_from(ahead),
        behind: count_from(behind),
    }
}

/// A branch whose upstream does not resolve has no upstream and is neither
/// ahead nor behind, whatever the count queries would have reported: the
/// step after the upstream query is final and asks for no count.
pub proof fn law_unresolved_upstream_is_final(name: Seq<char>, upstream: Result<ProcessOutput, String>, step: DivergenceStep)
    requires
        !run_succeeded(upstream),
        step_after_upstream(name, upstream, step),
    ensures
        step is Done,
        step->Done_0@ == no_upstream(name),
        !step->Done_0.has_upstream && step->Done_0.ahead == 0 && step->Done_0.behind == 0,
{
}

} // verus!

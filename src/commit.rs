//! Commit listings and the detail of one commit.

use vstd::prelude::*;

use crate::process::{stdout_of, tool_result, GitError, ProcessOutput};
use crate::text::{
    chars_of, contains_chars, contains_seq, copy_range, count_char, join_with,
    lemma_splitn_round_trip, find_char, index_of, is_blank, lines,
    split_chars, split_lines, split_on, splitn, splitn_chars, string_of, trim, trim_chars, views,
};

verus! {

/// One commit of a listing.
#[derive(Debug)]
pub struct Commit {
    pub hash: String,
    pub message: String,
    pub author: String,
    pub date: String,
}

pub ghost struct CommitView {
    pub hash: Seq<char>,
    pub message: Seq<char>,
    pub author: Seq<char>,
    pub date: Seq<char>,
}

impl View for Commit {
    type V = CommitView;

    open spec fn view(&self) -> CommitView {
        CommitView {
            hash: self.hash@,
            message: self.message@,
            author: self.author@,
            date: self.date@,
        }
    }
}

pub open spec fn commit_views(v: Seq<Commit>) -> Seq<CommitView> {
    v.map_values(|c: Commit| c@)
}

/// The `i`-th of `p`, or nothing when there are fewer.
pub open spec fn field(p: Seq<Seq<char>>, i: int) -> Seq<char> {
    if 0 <= i < p.len() {
        p[i]
    } else {
        Seq::empty()
    }
}

/// The commit that a listing line `hash|author|date|message` describes; the
/// message keeps any later `|`, and a missing field is empty.
pub open spec fn commit_of_line(l: Seq<char>) -> CommitView {
    let p = splitn(l, 4, '|');
    CommitView { hash: field(p, 0), author: field(p, 1), date: field(p, 2), message: field(p, 3) }
}

fn field_exec(p: &Vec<Vec<char>>, i: usize) -> (r: String)
    ensures
        r@ == field(views(p@), i as int),
{
    if i < p.len() {
        string_of(&p[i])
    } else {
        String::new()
    }
}

/// The commit that one listing line describes.
pub fn parse_commit_line(line: &Vec<char>) -> (r: Commit)
    ensures
        r@ == commit_of_line(line@),
{
    let p = splitn_chars(line, 4, '|');
    Commit {
        hash: field_exec(&p, 0),
        author: field_exec(&p, 1),
        date: field_exec(&p, 2),
        message: field_exec(&p, 3),
    }
}

/// A listing line with at least three `|` is given back by its commit's
/// fields joined with `|`, and only the message may hold a `|`.
pub proof fn law_commit_line_round_trip(l: Seq<char>)
    requires
        count_char(l, '|') >= 3,
    ensures
        commit_of_line(l).hash + seq!['|'] + commit_of_line(l).author + seq!['|'] + commit_of_line(
            l,
        ).date + seq!['|'] + commit_of_line(l).message == l,
        !commit_of_line(l).hash.contains('|'),
        !commit_of_line(l).author.contains('|'),
        !commit_of_line(l).date.contains('|'),
{
    lemma_splitn_round_trip(l, 4, '|');
    let p = splitn(l, 4, '|');
    assert(p.len() == 4);
    assert(p.drop_first().len() == 3);
    assert(p.drop_first().drop_first().len() == 2);
    assert(p.drop_first().drop_first().drop_first().len() == 1);
    assert(join_with(p.drop_first().drop_first().drop_first(), '|') == p[3]);
    assert(join_with(p.drop_first().drop_first(), '|') == p[2] + seq!['|'] + p[3]);
    assert(join_with(p.drop_first(), '|') == p[1] + seq!['|'] + (p[2] + seq!['|'] + p[3]));
    assert(join_with(p, '|') == p[0] + seq!['|'] + (p[1] + seq!['|'] + (p[2] + seq!['|'] + p[3])));
    assert(p[0] + seq!['|'] + p[1] + seq!['|'] + p[2] + seq!['|'] + p[3] =~= l);
    assert(!p[0].contains('|'));
    assert(!p[1].contains('|'));
    assert(!p[2].contains('|'));
}

/// The commits that a listing's output describes, one per line, in order.
pub fn parse_commits(stdout: &str) -> (r: Vec<Commit>)
    ensures
        commit_views(r@) == lines(stdout@).map_values(|l: Seq<char>| commit_of_line(l)),
{
    let out = chars_of(stdout);
    let ls = split_lines(&out);
    let ghost all = views(ls@);
    let mut r: Vec<Commit> = Vec::new();
    let mut i: usize = 0;
    while i < ls.len()
        invariant
            i <= ls@.len(),
            all == views(ls@),
            commit_views(r@) =~= all.take(i as int).map_values(|l: Seq<char>| commit_of_line(l)),
        decreases ls@.len() - i,
    {
        let ghost before = commit_views(r@);
        r.push(parse_commit_line(&ls[i]));
        assert(commit_views(r@) =~= before.push(commit_of_line(all[i as int])));
        assert(all.take(i + 1) =~= all.take(i as int).push(all[i as int]));
        assert(all.take(i + 1).map_values(|l: Seq<char>| commit_of_line(l)) =~= all.take(
            i as int,
        ).map_values(|l: Seq<char>| commit_of_line(l)).push(commit_of_line(all[i as int])));
        i = i + 1;
    }
    assert(all.take(ls@.len() as int) =~= all);
    r
}

/// The commits that a run of `GitCommand::Log` lists, most recent first as
/// the tool orders them.
pub fn list_commits(run: Result<ProcessOutput, String>) -> (r: Result<Vec<Commit>, GitError>)
    ensures
        match stdout_of(run) {
            Ok(out) => r is Ok && commit_views(r->Ok_0@) == lines(out@).map_values(
                |l: Seq<char>| commit_of_line(l),
            ),
            Err(e) => r == Err::<Vec<Commit>, GitError>(e),
        },
{
    match tool_result(run) {
        Ok(out) => Ok(parse_commits(out.as_str())),
        Err(e) => Err(e),
    }
}

/// A file of a commit and the summary of its changes.
#[derive(Debug)]
pub struct FileStat {
    pub file: String,
    pub changes: String,
}

pub ghost struct FileStatView {
    pub file: Seq<char>,
    pub changes: Seq<char>,
}

impl View for FileStat {
    type V = FileStatView;

    open spec fn view(&self) -> FileStatView {
        FileStatView { file: self.file@, changes: self.changes@ }
    }
}

pub open spec fn file_stat_views(v: Seq<FileStat>) -> Seq<FileStatView> {
    v.map_values(|f: FileStat| f@)
}

/// The header and file statistics of one commit.
#[derive(Debug)]
pub struct CommitDetail {
    pub hash: String,
    pub author_name: String,
    pub author_email: String,
    pub author_date: String,
    pub subject: String,
    pub files: Vec<FileStat>,
}

pub ghost struct CommitDetailView {
    pub hash: Seq<char>,
    pub author_name: Seq<char>,
    pub author_email: Seq<char>,
    pub author_date: Seq<char>,
    pub subject: Seq<char>,
    pub files: Seq<FileStatView>,
}

impl View for CommitDetail {
    type V = CommitDetailView;

    open spec fn view(&self) -> CommitDetailView {
        CommitDetailView {
            hash: self.hash@,
            author_name: self.author_name@,
            author_email: self.author_email@,
            author_date: self.author_date@,
            subject: self.subject@,
            files: file_stat_views(self.files@),
        }
    }
}

/// Whether a statistics line is the closing summary of the listing.
pub open spec fn is_summary_line(l: Seq<char>) -> bool {
    contains_seq(l, "files changed"@)
}

/// The file statistics that lines `ls` hold: a line that is blank, is the
/// summary, or holds no `|` is skipped; else it is split once at its first
/// `|`, the trimmed text before being the file and the trimmed rest its
/// changes.
pub open spec fn file_stats(ls: Seq<Seq<char>>) -> Seq<FileStatView>
    decreases ls.len(),
{
    if ls.len() == 0 {
        Seq::empty()
    } else {
        let l = ls.last();
        let k = index_of(l, '|');
        file_stats(ls.drop_last()) + if is_blank(l) || is_summary_line(l) || k >= l.len() {
            Seq::empty()
        } else {
            seq![FileStatView { file: trim(l.take(k)), changes: trim(l.skip(k + 1)) }]
        }
    }
}

/// What follows the five header lines.
pub open spec fn body_lines(ls: Seq<Seq<char>>) -> Seq<Seq<char>> {
    if ls.len() > 5 {
        ls.skip(5)
    } else {
        Seq::empty()
    }
}

/// The detail of a commit from the output of `GitCommand::Show`: the first
/// five lines are hash, author name, author email, author date and subject
/// (empty when missing), the rest file statistics.
pub open spec fn detail_of(out: Seq<char>) -> CommitDetailView {
    let ls = split_on(out, '\n');
    CommitDetailView {
        hash: field(ls, 0),
        author_name: field(ls, 1),
        author_email: field(ls, 2),
        author_date: field(ls, 3),
        subject: field(ls, 4),
        files: file_stats(body_lines(ls)),
    }
}

fn file_stats_exec(ls: &Vec<Vec<char>>, from: usize) -> (r: Vec<FileStat>)
    requires
        from <= ls@.len(),
    ensures
        file_stat_views(r@) == file_stats(views(ls@).skip(from as int)),
{
    let ghost all = views(ls@).skip(from as int);
    let summary = chars_of("files changed");
    let mut r: Vec<FileStat> = Vec::new();
    let mut i: usize = from;
    while i < ls.len()
        invariant
            from <= i <= ls@.len(),
            all == views(ls@).skip(from as int),
            summary@ == "files changed"@,
            file_stat_views(r@) == file_stats(all.take(i - from)),
        decreases ls@.len() - i,
    {
        assert(all.take(i - from + 1).drop_last() =~= all.take(i - from));
        assert(all.take(i - from + 1).last() == ls@[i as int]@);
        let l = &ls[i];
        let k = find_char(l, 0, '|');
        assert(l@.skip(0) =~= l@);
        let blank = trim_chars(l).len() == 0;
        if !blank && !contains_chars(l, &summary) && k < l.len() {
            let ghost before = file_stat_views(r@);
            let f = FileStat {
                file: string_of(&trim_chars(&copy_range(l, 0, k))),
                changes: string_of(&trim_chars(&copy_range(l, k + 1, l.len()))),
            };
            assert(l@.subrange(0, k as int) =~= l@.take(k as int));
            assert(l@.subrange(k + 1, l@.len() as int) =~= l@.skip(k + 1));
            r.push(f);
            assert(file_stat_views(r@) =~= before + seq![
                FileStatView { file: trim(l@.take(k as int)), changes: trim(l@.skip(k + 1)) },
            ]);
        } else {
            assert(file_stats(all.take(i - from + 1)) =~= file_stats(all.take(i - from)));
        }
        i = i + 1;
    }
    assert(all.take(ls@.len() - from) =~= all);
    r
}

/// The detail of a commit from the output of `GitCommand::Show`.
pub fn parse_commit_detail(stdout: &str) -> (r: CommitDetail)
    ensures
        r@ == detail_of(stdout@),
{
    let out = chars_of(stdout);
    let ls = split_chars(&out, '\n');
    let files = if ls.len() > 5 {
        file_stats_exec(&ls, 5)
    } else {
        let e: Vec<FileStat> = Vec::new();
        assert(file_stat_views(e@) =~= Seq::<FileStatView>::empty());
        e
    };
    CommitDetail {
        hash: field_exec(&ls, 0),
        author_name: field_exec(&ls, 1),
        author_email: field_exec(&ls, 2),
        author_date: field_exec(&ls, 3),
        subject: field_exec(&ls, 4),
        files,
    }
}

/// The detail of a commit from a run of `GitCommand::Show`: a failed run
/// gives its error; the output of a successful one is always read, missing
/// header lines giving empty fields.
pub fn get_commit_details(run: Result<ProcessOutput, String>) -> (r: Result<CommitDetail, GitError>)
    ensures
        match stdout_of(run) {
            Ok(out) => r is Ok && r->Ok_0@ == detail_of(out@),
            Err(e) => r == Err::<CommitDetail, GitError>(e),
        },
{
    match tool_result(run) {
        Ok(out) => Ok(parse_commit_detail(out.as_str())),
        Err(e) => Err(e),
    }
}

} // verus!

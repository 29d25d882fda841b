//! Working-tree status: classification of short-status lines and expansion
//! of untracked directories.

use vstd::prelude::*;

use crate::process::{run_succeeded, stdout_of, succeeded, tool_result, GitError, ProcessOutput};
use crate::text::{
    chars_of, copy_range, is_blank, is_white, lemma_not_blank, lines, split_lines, string_of,
    trim_chars, views,
};

verus! {

/// The kind of change a status line reports.
#[derive(Clone, Copy, Debug, PartialEq, Eq, Structural)]
pub enum ChangeStatus {
    Modified,
    Added,
    Deleted,
    Renamed,
    Copied,
    Untracked,
    Unknown,
}

/// One changed path of a status snapshot.
#[derive(Debug)]
pub struct Change {
    pub path: String,
    pub status: ChangeStatus,
    pub staged: bool,
}

pub ghost struct ChangeView {
    pub path: Seq<char>,
    pub status: ChangeStatus,
    pub staged: bool,
}

impl View for Change {
    type V = ChangeView;

    open spec fn view(&self) -> ChangeView {
        ChangeView { path: self.path@, status: self.status, staged: self.staged }
    }
}

pub open spec fn change_views(v: Seq<Change>) -> Seq<ChangeView> {
    v.map_values(|c: Change| c@)
}

/// The characters that name a kind of change in a status code.
pub open spec fn is_type_char(c: char) -> bool {
    c == 'M' || c == 'A' || c == 'D' || c == 'R' || c == 'C'
}

/// The kind of change that a type character names.
pub open spec fn kind_of(c: char) -> ChangeStatus {
    if c == 'M' {
        ChangeStatus::Modified
    } else if c == 'A' {
        ChangeStatus::Added
    } else if c == 'D' {
        ChangeStatus::Deleted
    } else if c == 'R' {
        ChangeStatus::Renamed
    } else {
        ChangeStatus::Copied
    }
}

/// The status and staged flag of a two-character code `xy`: `x` describes
/// the index, `y` the working tree.
pub open spec fn classify_pair(x: char, y: char) -> (ChangeStatus, bool) {
    if x == '?' && y == '?' {
        (ChangeStatus::Untracked, false)
    } else if x == ' ' && is_type_char(y) {
        (kind_of(y), false)
    } else if is_type_char(x) && y == ' ' {
        (kind_of(x), true)
    } else if x == 'M' && y == 'M' {
        (ChangeStatus::Modified, true)
    } else {
        (ChangeStatus::Unknown, x != ' ')
    }
}

/// The status and staged flag of a status code; a code shorter than two
/// characters is unknown, and staged when it starts with a non-blank.
pub open spec fn classify(code: Seq<char>) -> (ChangeStatus, bool) {
    if code.len() == 2 {
        classify_pair(code[0], code[1])
    } else {
        (ChangeStatus::Unknown, code.len() > 0 && code[0] != ' ')
    }
}

/// The status code of a line: its first two characters.
pub open spec fn status_code(l: Seq<char>) -> Seq<char> {
    if l.len() >= 2 {
        l.take(2)
    } else {
        l
    }
}

/// The path of a line: what follows the code and the space after it, or
/// nothing when the line is too short to hold one.
pub open spec fn status_path(l: Seq<char>) -> Seq<char> {
    if l.len() >= 3 {
        l.skip(3)
    } else {
        Seq::empty()
    }
}

/// A line that reports a whole untracked directory.
pub open spec fn is_untracked_dir_line(l: Seq<char>) -> bool {
    &&& l.len() >= 2
    &&& l[0] == '?'
    &&& l[1] == '?'
    &&& status_path(l).len() > 0
    &&& status_path(l).last() == '/'
}

/// The change that an ordinary (not blank, not untracked-directory) line
/// reports.
pub open spec fn change_of_line(l: Seq<char>) -> ChangeView {
    let (status, staged) = classify(status_code(l));
    ChangeView { path: status_path(l), status, staged }
}

pub open spec fn untracked(path: Seq<char>) -> ChangeView {
    ChangeView { path, status: ChangeStatus::Untracked, staged: false }
}

/// The lines of `ls` that are not blank.
pub open spec fn non_blank(ls: Seq<Seq<char>>) -> Seq<Seq<char>>
    decreases ls.len(),
{
    if ls.len() == 0 {
        Seq::empty()
    } else {
        non_blank(ls.drop_last()) + if is_blank(ls.last()) {
            Seq::empty()
        } else {
            seq![ls.last()]
        }
    }
}

/// The `k`-th listing, when there is one and its run succeeded: the files it
/// names.
pub open spec fn listed_files(listings: Seq<Result<ProcessOutput, String>>, k: int) -> Seq<
    Seq<char>,
> {
    if 0 <= k < listings.len() && run_succeeded(listings[k]) {
        non_blank(lines(listings[k]->Ok_0.stdout@))
    } else {
        Seq::empty()
    }
}

/// An untracked directory becomes one untracked change per file listed
/// under it; when the listing failed or named nothing, the directory itself.
pub open spec fn expand_dir(dir: Seq<char>, files: Seq<Seq<char>>) -> Seq<ChangeView> {
    if files.len() == 0 {
        seq![untracked(dir)]
    } else {
        files.map_values(|f: Seq<char>| untracked(f))
    }
}

/// The number of untracked-directory lines in `ls`.
pub open spec fn dir_count(ls: Seq<Seq<char>>) -> nat
    decreases ls.len(),
{
    if ls.len() == 0 {
        0
    } else {
        dir_count(ls.drop_last()) + if is_untracked_dir_line(ls.last()) {
            1nat
        } else {
            0nat
        }
    }
}

/// The untracked directories that `ls` reports, in order.
pub open spec fn dirs_of(ls: Seq<Seq<char>>) -> Seq<Seq<char>>
    decreases ls.len(),
{
    if ls.len() == 0 {
        Seq::empty()
    } else {
        dirs_of(ls.drop_last()) + if is_untracked_dir_line(ls.last()) {
            seq![status_path(ls.last())]
        } else {
            Seq::empty()
        }
    }
}

/// The changes that status lines `ls` report, where the `k`-th untracked
/// directory is expanded with the `k`-th listing.
pub open spec fn changes_of(ls: Seq<Seq<char>>, listings: Seq<Result<ProcessOutput, String>>) -> Seq<
    ChangeView,
>
    decreases ls.len(),
{
    if ls.len() == 0 {
        Seq::empty()
    } else {
        let prev = changes_of(ls.drop_last(), listings);
        let l = ls.last();
        if is_blank(l) {
            prev
        } else if is_untracked_dir_line(l) {
            prev + expand_dir(status_path(l), listed_files(listings, dir_count(ls.drop_last()) as int))
        } else {
            prev.push(change_of_line(l))
        }
    }
}

fn classify_chars(code: &Vec<char>) -> (r: (ChangeStatus, bool))
    ensures
        r == classify(code@),
{
    if code.len() == 2 {
        let x = code[0];
        let y = code[1];
        let ty = |c: char| -> (b: bool)
            ensures
                b == is_type_char(c),
            { c == 'M' || c == 'A' || c == 'D' || c == 'R' || c == 'C' };
        if x == '?' && y == '?' {
            (ChangeStatus::Untracked, false)
        } else if x == ' ' && ty(y) {
            (kind_of_exec(y), false)
        } else if ty(x) && y == ' ' {
            (kind_of_exec(x), true)
        } else if x == 'M' && y == 'M' {
            (ChangeStatus::Modified, true)
        } else {
            (ChangeStatus::Unknown, x != ' ')
        }
    } else {
        (ChangeStatus::Unknown, code.len() > 0 && code[0] != ' ')
    }
}

fn kind_of_exec(c: char) -> (r: ChangeStatus)
    ensures
        r == kind_of(c),
{
    if c == 'M' {
        ChangeStatus::Modified
    } else if c == 'A' {
        ChangeStatus::Added
    } else if c == 'D' {
        ChangeStatus::Deleted
    } else if c == 'R' {
        ChangeStatus::Renamed
    } else {
        ChangeStatus::Copied
    }
}

/// The status and staged flag of a two-character status code.
pub fn classify_status_code(code: &str) -> (r: (ChangeStatus, bool))
    ensures
        r == classify(code@),
{
    let c = chars_of(code);
    classify_chars(&c)
}

fn status_code_exec(l: &Vec<char>) -> (r: Vec<char>)
    ensures
        r@ == status_code(l@),
{
    if l.len() >= 2 {
        copy_range(l, 0, 2)
    } else {
        let r = copy_range(l, 0, l.len());
        assert(l@.subrange(0, l@.len() as int) =~= l@);
        r
    }
}

fn status_path_exec(l: &Vec<char>) -> (r: Vec<char>)
    ensures
        r@ == status_path(l@),
{
    if l.len() >= 3 {
        let r = copy_range(l, 3, l.len());
        assert(l@.subrange(3, l@.len() as int) =~= l@.skip(3));
        r
    } else {
        Vec::new()
    }
}

fn is_blank_exec(l: &Vec<char>) -> (r: bool)
    ensures
        r == is_blank(l@),
{
    trim_chars(l).len() == 0
}

fn is_untracked_dir_exec(l: &Vec<char>) -> (r: bool)
    ensures
        r == is_untracked_dir_line(l@),
{
    if l.len() < 2 || l[0] != '?' || l[1] != '?' {
        return false;
    }
    let p = status_path_exec(l);
    p.len() > 0 && p[p.len() - 1] == '/'
}

fn make_change(path: &Vec<char>, status: ChangeStatus, staged: bool) -> (r: Change)
    ensures
        r@ == (ChangeView { path: path@, status, staged }),
{
    Change { path: string_of(path), status, staged }
}

/// The non-blank lines of `ls`.
fn non_blank_exec(ls: &Vec<Vec<char>>) -> (r: Vec<Vec<char>>)
    ensures
        views(r@) == non_blank(views(ls@)),
{
    let ghost all = views(ls@);
    let mut r: Vec<Vec<char>> = Vec::new();
    let mut i: usize = 0;
    while i < ls.len()
        invariant
            i <= ls@.len(),
            all == views(ls@),
            views(r@) == non_blank(all.take(i as int)),
        decreases ls@.len() - i,
    {
        assert(all.take(i + 1).drop_last() =~= all.take(i as int));
        if !is_blank_exec(&ls[i]) {
            let ghost before = views(r@);
            let l = copy_range(&ls[i], 0, ls[i].len());
            assert(ls@[i as int]@.subrange(0, ls@[i as int]@.len() as int) =~= ls@[i as int]@);
            r.push(l);
            assert(views(r@) =~= before + seq![all[i as int]]);
        } else {
            assert(non_blank(all.take(i + 1)) =~= non_blank(all.take(i as int)));
        }
        i = i + 1;
    }
    assert(all.take(ls@.len() as int) =~= all);
    r
}

/// The changes that stand for untracked directory `dir`, given what listing
/// its files gave.
fn expand_dir_exec(dir: &Vec<char>, listings: &Vec<Result<ProcessOutput, String>>, k: usize) -> (r:
    Vec<Change>)
    ensures
        change_views(r@) == expand_dir(dir@, listed_files(listings@, k as int)),
{
    let mut files: Vec<Vec<char>> = Vec::new();
    if k < listings.len() && succeeded(&listings[k]) {
        match &listings[k] {
            Ok(o) => {
                let out = chars_of(o.stdout.as_str());
                let ls = split_lines(&out);
                files = non_blank_exec(&ls);
            },
            Err(_) => {},
        }
    }
    let ghost fs = listed_files(listings@, k as int);
    assert(views(files@) == fs);
    let mut r: Vec<Change> = Vec::new();
    if files.len() == 0 {
        r.push(make_change(dir, ChangeStatus::Untracked, false));
        assert(change_views(r@) =~= expand_dir(dir@, fs));
        return r;
    }
    let mut i: usize = 0;
    while i < files.len()
        invariant
            i <= files@.len(),
            views(files@) == fs,
            change_views(r@) =~= fs.take(i as int).map_values(|f: Seq<char>| untracked(f)),
        decreases files@.len() - i,
    {
        let ghost before = change_views(r@);
        r.push(make_change(&files[i], ChangeStatus::Untracked, false));
        assert(change_views(r@) =~= before.push(untracked(fs[i as int])));
        assert(fs.take(i + 1) =~= fs.take(i as int).push(fs[i as int]));
        assert(fs.take(i + 1).map_values(|f: Seq<char>| untracked(f)) =~= fs.take(i as int).map_values(
            |f: Seq<char>| untracked(f),
        ).push(untracked(fs[i as int])));
        i = i + 1;
    }
    assert(fs.take(files@.len() as int) =~= fs);
    r
}

/// The changes reported by the status output `stdout`, the `k`-th untracked
/// directory expanded with `listings[k]`.
pub fn changes_from_status(stdout: &str, listings: &Vec<Result<ProcessOutput, String>>) -> (r: Vec<
    Change,
>)
    ensures
        change_views(r@) == changes_of(lines(stdout@), listings@),
{
    let out = chars_of(stdout);
    let ls = split_lines(&out);
    let ghost all = views(ls@);
    let mut r: Vec<Change> = Vec::new();
    let mut dirs: usize = 0;
    let mut i: usize = 0;
    while i < ls.len()
        invariant
            i <= ls@.len(),
            all == views(ls@),
            all == lines(stdout@),
            dirs == dir_count(all.take(i as int)),
            dirs <= i,
            change_views(r@) == changes_of(all.take(i as int), listings@),
        decreases ls@.len() - i,
    {
        assert(all.take(i + 1).drop_last() =~= all.take(i as int));
        assert(all.take(i + 1).last() == ls@[i as int]@);
        let l = &ls[i];
        if is_blank_exec(l) {
        } else if is_untracked_dir_exec(l) {
            let dir = status_path_exec(l);
            let more = expand_dir_exec(&dir, listings, dirs);
            let ghost before = change_views(r@);
            let mut j: usize = 0;
            while j < more.len()
                invariant
                    j <= more@.len(),
                    change_views(r@) =~= before + change_views(more@).take(j as int),
                decreases more@.len() - j,
            {
                let ghost mid = change_views(r@);
                let c = make_change_copy(&more[j]);
                r.push(c);
                assert(change_views(r@) =~= mid.push(more@[j as int]@));
                assert(change_views(more@).take(j + 1) =~= change_views(more@).take(j as int).push(
                    more@[j as int]@,
                ));
                j = j + 1;
            }
            assert(change_views(more@).take(more@.len() as int) =~= change_views(more@));
            dirs = dirs + 1;
        } else {
            let code = status_code_exec(l);
            let (status, staged) = classify_chars(&code);
            let path = status_path_exec(l);
            let ghost before = change_views(r@);
            r.push(make_change(&path, status, staged));
            assert(change_views(r@) =~= before.push(change_of_line(l@)));
        }
        i = i + 1;
    }
    assert(all.take(ls@.len() as int) =~= all);
    r
}

fn make_change_copy(c: &Change) -> (r: Change)
    ensures
        r@ == c@,
{
    Change { path: c.path.clone(), status: c.status, staged: c.staged }
}

/// The untracked directories that a status run reports, in order: the
/// listing of each is what `list_local_changes` expects at the same place.
/// A failed run reports none.
pub fn untracked_dirs(status: &Result<ProcessOutput, String>) -> (r: Vec<String>)
    ensures
        run_succeeded(*status) ==> r@.map_values(|s: String| s@) == dirs_of(
            lines(status->Ok_0.stdout@),
        ),
        !run_succeeded(*status) ==> r@.len() == 0,
{
    let mut r: Vec<String> = Vec::new();
    match status {
        Ok(o) => {
            if !o.success {
                return r;
            }
            let out = chars_of(o.stdout.as_str());
            let ls = split_lines(&out);
            let ghost all = views(ls@);
            let mut i: usize = 0;
            while i < ls.len()
                invariant
                    i <= ls@.len(),
                    all == views(ls@),
                    r@.map_values(|s: String| s@) == dirs_of(all.take(i as int)),
                decreases ls@.len() - i,
            {
                assert(all.take(i + 1).drop_last() =~= all.take(i as int));
                assert(all.take(i + 1).last() == ls@[i as int]@);
                if is_untracked_dir_exec(&ls[i]) {
                    let p = status_path_exec(&ls[i]);
                    let ghost before = r@.map_values(|s: String| s@);
                    r.push(string_of(&p));
                    assert(r@.map_values(|s: String| s@) =~= before + seq![status_path(all[i as int])]);
                } else {
                    assert(dirs_of(all.take(i + 1)) =~= dirs_of(all.take(i as int)));
                }
                i = i + 1;
            }
            assert(all.take(ls@.len() as int) =~= all);
            r
        },
        Err(_) => r,
    }
}

/// The working-tree changes: the status run's lines in order, each
/// untracked directory expanded with the listing at its place among
/// `listings`; or the error that a failed status run stands for.
pub fn list_local_changes(status: Result<ProcessOutput, String>, listings: &Vec<Result<ProcessOutput, String>>) -> (r: Result<Vec<Change>, GitError>)
    ensures
        match stdout_of(status) {
            Ok(out) => r is Ok && change_views(r->Ok_0@) == changes_of(lines(out@), listings@),
            Err(e) => r == Err::<Vec<Change>, GitError>(e),
        },
{
    match tool_result(status) {
        Ok(out) => Ok(changes_from_status(out.as_str(), listings)),
        Err(e) => Err(e),
    }
}

/// A code with a type character on one side and a blank on the other has
/// exactly one classification: the kind that the character names, staged
/// exactly when the character stands on the index side.
pub proof fn law_single_sided_codes(t: char)
    requires
        is_type_char(t),
    ensures
        classify(seq![t, ' ']) == (kind_of(t), true),
        classify(seq![' ', t]) == (kind_of(t), false),
        kind_of(t) != ChangeStatus::Unknown,
        kind_of(t) != ChangeStatus::Untracked,
{
}

/// The letter of a single-sided code: the one of its two characters that is
/// not blank.
pub open spec fn code_letter(c: Seq<char>) -> char {
    if c[0] == ' ' {
        c[1]
    } else {
        c[0]
    }
}

/// A single-sided code: a type character on one side, a blank on the other.
pub open spec fn is_single_sided(c: Seq<char>) -> bool {
    &&& c.len() == 2
    &&& (is_type_char(c[0]) && c[1] == ' ') || (c[0] == ' ' && is_type_char(c[1]))
}

/// A status line made of a single-sided code, a space and a path adds
/// exactly one change after those of the lines before it: the path as
/// written, the kind that the code's letter names, staged exactly when the
/// letter stands first. What it adds depends on that line alone.
pub proof fn law_single_sided_line(
    ls: Seq<Seq<char>>,
    c: Seq<char>,
    path: Seq<char>,
    listings: Seq<Result<ProcessOutput, String>>,
)
    requires
        is_single_sided(c),
    ensures
        changes_of(ls.push(c + seq![' '] + path), listings) == changes_of(ls, listings).push(
            ChangeView { path, status: kind_of(code_letter(c)), staged: c[0] != ' ' },
        ),
{
    let l = c + seq![' '] + path;
    let i: int = if c[0] == ' ' {
        1
    } else {
        0
    };
    assert(l[i] == code_letter(c));
    let t = code_letter(c);
    assert(!is_white(t)) by {
        assert(t == 'M' || t == 'A' || t == 'D' || t == 'R' || t == 'C');
    }
    lemma_not_blank(l, i);
    assert(ls.push(l).drop_last() == ls);
    assert(ls.push(l).last() == l);
    assert(status_code(l) =~= c);
    assert(status_path(l) =~= path);
    assert(!is_untracked_dir_line(l));
}

/// A status line made of any two-character code other than `??`, not both
/// blank, then a space and a path, adds exactly one change after those of
/// the lines before it: the path as written, with the status and staged
/// flag that the code alone decides.
pub proof fn law_status_line(
    ls: Seq<Seq<char>>,
    c: Seq<char>,
    path: Seq<char>,
    listings: Seq<Result<ProcessOutput, String>>,
)
    requires
        c.len() == 2,
        !(c[0] == '?' && c[1] == '?'),
        !is_white(c[0]) || !is_white(c[1]),
    ensures
        changes_of(ls.push(c + seq![' '] + path), listings) == changes_of(ls, listings).push(
            ChangeView { path, status: classify(c).0, staged: classify(c).1 },
        ),
{
    let l = c + seq![' '] + path;
    let i: int = if !is_white(c[0]) {
        0
    } else {
        1
    };
    assert(l[i] == c[i]);
    lemma_not_blank(l, i);
    assert(ls.push(l).drop_last() == ls);
    assert(ls.push(l).last() == l);
    assert(status_code(l) =~= c);
    assert(status_path(l) =~= path);
    assert(!is_untracked_dir_line(l));
}

/// An untracked directory whose listing succeeded and names files is
/// replaced, where it stands, by one untracked, unstaged change per named
/// file, in the listing's order, and by nothing else.
pub proof fn law_untracked_dir_expands(
    ls: Seq<Seq<char>>,
    l: Seq<char>,
    listings: Seq<Result<ProcessOutput, String>>,
)
    requires
        is_untracked_dir_line(l),
        listed_files(listings, dir_count(ls) as int).len() > 0,
    ensures
        changes_of(ls.push(l), listings) == changes_of(ls, listings) + listed_files(
            listings,
            dir_count(ls) as int,
        ).map_values(|f: Seq<char>| untracked(f)),
{
    lemma_not_blank(l, 0);
    assert(ls.push(l).drop_last() == ls);
    assert(ls.push(l).last() == l);
}

/// The directories that `untracked_dirs` reports are exactly as many as the
/// untracked-directory lines that `list_local_changes` expands, so one
/// listing per reported directory, in order, serves each of them.
pub proof fn law_one_listing_per_directory(ls: Seq<Seq<char>>)
    ensures
        dirs_of(ls).len() == dir_count(ls),
    decreases ls.len(),
{
    if ls.len() > 0 {
        law_one_listing_per_directory(ls.drop_last());
    }
}

/// Reading one status output twice, with the same listings of its untracked
/// directories, gives the same changes in the same order.
pub proof fn law_status_is_stable(
    out1: Seq<char>,
    out2: Seq<char>,
    listings1: Seq<Result<ProcessOutput, String>>,
    listings2: Seq<Result<ProcessOutput, String>>,
)
    requires
        out1 == out2,
        listings1 == listings2,
    ensures
        changes_of(lines(out1), listings1) == changes_of(lines(out2), listings2),
{
}

} // verus!

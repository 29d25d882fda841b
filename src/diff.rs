//! The diff of one path: untracked files are shown as wholly added, binary
//! changes are handed out as a pair of files to compare, the rest as the
//! tool's own patch.
//!
//! Each step takes what the previous action brought and says what to do
//! next, until an action finishes the request.

use vstd::prelude::*;

use crate::command::GitCommand;
use crate::process::{stdout_of, tool_result, GitError, ProcessOutput};
use crate::text::{
    append_chars, chars_of, ends_with, ends_with_chars, join_with, lemma_split_join, lines,
    occurs_at_exec, replace_char, replace_char_exec, split_lines, split_on, split_parts,
    starts_with, string_of, views,
};

verus! {

/// Which path to diff, in which repository, and whether the staged change
/// (index against last commit) or the unstaged one (working tree against
/// index) is wanted.
#[derive(Debug)]
pub struct DiffRequest {
    pub repo_path: String,
    pub file: String,
    pub staged: bool,
}

/// What a diff request yields.
#[derive(Debug)]
pub enum DiffResult {
    /// The tool's patch.
    Text { patch: String },
    /// An untracked file, shown as all added.
    SyntheticAdded { patch: String },
    /// A binary change: the file holding the content before the change, if
    /// there was any, and the file as it is now.
    Binary { old_file_temp_path: Option<String>, new_file_path: String },
}

pub ghost enum DiffResultView {
    Text(Seq<char>),
    SyntheticAdded(Seq<char>),
    Binary(Option<Seq<char>>, Seq<char>),
}

impl View for DiffResult {
    type V = DiffResultView;

    open spec fn view(&self) -> DiffResultView {
        match self {
            DiffResult::Text { patch } => DiffResultView::Text(patch@),
            DiffResult::SyntheticAdded { patch } => DiffResultView::SyntheticAdded(patch@),
            DiffResult::Binary { old_file_temp_path, new_file_path } => DiffResultView::Binary(
                match old_file_temp_path {
                    Some(p) => Some(p@),
                    None => None,
                },
                new_file_path@,
            ),
        }
    }
}

/// A finished run whose standard output is kept as bytes.
#[derive(Debug)]
pub struct ByteOutput {
    pub success: bool,
    pub stdout: Vec<u8>,
}

/// What to do next for a diff request.
#[derive(Debug)]
pub enum DiffAction {
    /// The request is answered.
    Finish(Result<DiffResult, GitError>),
    /// Read this file as text and hand the content to `after_file_read`.
    ReadFile(String),
    /// Run this command and hand the run to `after_diff`.
    RunDiff(GitCommand),
    /// Run this command, keep its output as bytes, and hand the run to
    /// `after_pre_image`.
    FetchPreImage(GitCommand),
    /// Write these bytes to a file of this name in the temporary directory,
    /// and hand the full path (or why writing failed) to `after_write`.
    WriteTemp { name: String, bytes: Vec<u8> },
}

/// `file` taken relative to `repo`: an absolute `file` stands alone, and no
/// separator is doubled.
pub open spec fn join_path(repo: Seq<char>, file: Seq<char>) -> Seq<char> {
    if file.len() > 0 && file[0] == '/' {
        file
    } else if repo.len() == 0 || repo.last() == '/' {
        repo + file
    } else {
        repo + seq!['/'] + file
    }
}

/// The path of `file` in the working tree of `repo`.
pub fn join_path_exec(repo: &String, file: &String) -> (r: String)
    ensures
        r@ == join_path(repo@, file@),
{
    let f = chars_of(file.as_str());
    if f.len() > 0 && f[0] == '/' {
        return file.clone();
    }
    let mut out = chars_of(repo.as_str());
    if out.len() > 0 && out[out.len() - 1] != '/' {
        out.push('/');
    }
    append_chars(&mut out, &f);
    string_of(&out)
}

/// The header of the patch that adds untracked `file`, ending in a line
/// feed.
pub open spec fn patch_header(file: Seq<char>) -> Seq<char> {
    "diff --git a/"@ + file + " b/"@ + file + "\nnew file mode 100644\n--- /dev/null\n+++ b/"@ + file
        + seq!['\n']
}

/// `content` with `+` before each of its lines.
pub open spec fn added_body(content: Seq<char>) -> Seq<char> {
    seq!['+'] + replace_char(content, '\n', seq!['\n', '+'])
}

/// The patch that shows `content` of untracked `file` as added against
/// nothing: the header, then the content with `+` before each line.
pub open spec fn synthetic_patch(file: Seq<char>, content: Seq<char>) -> Seq<char> {
    patch_header(file) + added_body(content)
}

/// A line with `+` in front.
pub open spec fn plus(p: Seq<char>) -> Seq<char> {
    seq!['+'] + p
}

proof fn lemma_added_parts(c: Seq<char>)
    ensures
        split_parts(added_body(c), '\n') == (
            split_parts(c, '\n').0.map_values(|p: Seq<char>| plus(p)),
            plus(split_parts(c, '\n').1),
        ),
    decreases c.len(),
{
    let e = Seq::<char>::empty();
    let es = Seq::<Seq<char>>::empty();
    assert(split_parts(e, '\n') == (es, e));
    if c.len() == 0 {
        let one = seq!['+'];
        assert(added_body(c) =~= one);
        assert(one.drop_last() =~= e);
        assert(split_parts(one, '\n') == (es, e.push('+')));
        assert(split_parts(c, '\n') == (es, e));
        assert(es.map_values(|p: Seq<char>| plus(p)) =~= es);
        assert(plus(e) =~= e.push('+'));
    } else {
        let c0 = c.drop_last();
        let x = c.last();
        lemma_added_parts(c0);
        let b0 = added_body(c0);
        let d0 = split_parts(c0, '\n').0;
        let u0 = split_parts(c0, '\n').1;
        let dm = d0.map_values(|p: Seq<char>| plus(p));
        assert(split_parts(b0, '\n') == (dm, plus(u0)));
        if x != '\n' {
            assert(split_parts(c, '\n') == (d0, u0.push(x)));
            assert(added_body(c) =~= b0.push(x));
            assert(added_body(c).drop_last() =~= b0);
            assert(added_body(c).last() == x);
            assert(split_parts(added_body(c), '\n') == (dm, plus(u0).push(x)));
            assert(plus(u0.push(x)) =~= plus(u0).push(x));
        } else {
            assert(split_parts(c, '\n') == (d0.push(u0), e));
            let b1 = b0.push('\n');
            assert(added_body(c) =~= b1.push('+'));
            assert(added_body(c).drop_last() =~= b1);
            assert(added_body(c).last() == '+');
            assert(b1.drop_last() =~= b0);
            assert(b1.last() == '\n');
            assert(split_parts(b1, '\n') == (dm.push(plus(u0)), e));
            assert(split_parts(added_body(c), '\n') == (dm.push(plus(u0)), e.push('+')));
            assert(d0.push(u0).map_values(|p: Seq<char>| plus(p)) =~= dm.push(plus(u0)));
            assert(plus(e) =~= e.push('+'));
        }
    }
}

/// The synthesized patch is the header followed by the content with `+`
/// before each line: its body, split at line feeds, gives the content's
/// lines, each with `+` in front and nothing else changed.
pub proof fn law_synthetic_patch_round_trip(file: Seq<char>, content: Seq<char>)
    ensures
        synthetic_patch(file, content) == patch_header(file) + added_body(content),
        split_on(added_body(content), '\n') == split_on(content, '\n').map_values(
            |p: Seq<char>| plus(p),
        ),
        join_with(split_on(content, '\n'), '\n') == content,
{
    lemma_split_join(content, '\n');
    lemma_added_parts(content);
    let (d, u) = split_parts(content, '\n');
    assert(d.push(u).map_values(|p: Seq<char>| plus(p)) =~= d.map_values(|p: Seq<char>| plus(p)).push(
        plus(u),
    ));
}

/// The patch that shows `content` of untracked `file` as added.
pub fn synthesize_added_patch(file: &str, content: &str) -> (r: String)
    ensures
        r@ == synthetic_patch(file@, content@),
{
    let header = owned_cat("diff --git a/", file).concat(" b/").concat(file).concat(
        "\nnew file mode 100644\n--- /dev/null\n+++ b/",
    ).concat(file);
    let mut out = chars_of(header.as_str());
    out.push('\n');
    out.push('+');
    let mut to: Vec<char> = Vec::new();
    to.push('\n');
    to.push('+');
    assert(to@ =~= seq!['\n', '+']);
    let c = chars_of(content);
    let ghost start = out@;
    append_chars(&mut out, &replace_char_exec(&c, '\n', &to));
    assert(out@ =~= synthetic_patch(file@, content@));
    string_of(&out)
}

fn owned_cat(a: &str, b: &str) -> (r: String)
    ensures
        r@ == a@ + b@,
{
    String::from_str(a).concat(b)
}

/// Characters that cannot stand in a file name on some systems, and the
/// escape character itself.
pub open spec fn escape_tag(c: char) -> Option<char> {
    if c == '_' {
        Some('_')
    } else if c == '/' {
        Some('s')
    } else if c == '\\' {
        Some('b')
    } else if c == ':' {
        Some('c')
    } else if c == '*' {
        Some('a')
    } else if c == '?' {
        Some('q')
    } else if c == '"' {
        Some('d')
    } else if c == '<' {
        Some('l')
    } else if c == '>' {
        Some('g')
    } else if c == '|' {
        Some('p')
    } else {
        None
    }
}

/// One character as it stands in a file name: `_` and its tag for a
/// character that cannot stand there as it is, else the character.
pub open spec fn escape_char(c: char) -> Seq<char> {
    match escape_tag(c) {
        Some(t) => seq!['_', t],
        None => seq![c],
    }
}

/// `s` as it stands in a file name.
pub open spec fn escape(s: Seq<char>) -> Seq<char>
    decreases s.len(),
{
    if s.len() == 0 {
        Seq::empty()
    } else {
        escape_char(s[0]) + escape(s.drop_first())
    }
}

/// What separates the repository from the file in a temporary file name:
/// `escape` never writes `_` followed by `-`.
pub open spec fn name_separator() -> Seq<char> {
    seq!['_', '-']
}

/// The start of a temporary file name: which side's content it holds.
pub open spec fn side_prefix(staged: bool) -> Seq<char> {
    if staged {
        "old-index-"@
    } else {
        "old-head-"@
    }
}

/// What identifies a temporary file within its side: the escaped repository
/// and the escaped file, separated.
pub open spec fn name_key(repo: Seq<char>, file: Seq<char>) -> Seq<char> {
    escape(repo) + name_separator() + escape(file)
}

/// The longest key that stands in a name as it is. With at most four bytes
/// per character, a name with such a key stays within 250 bytes.
pub const SHORT_KEY: usize = 60;

/// The hexadecimal digits.
pub open spec fn hex_digits() -> Seq<char> {
    seq!['0', '1', '2', '3', '4', '5', '6', '7', '8', '9', 'a', 'b', 'c', 'd', 'e', 'f']
}

/// The `n` lowest hexadecimal digits of `h`, lowest first.
pub open spec fn hex_low(h: u64, n: nat) -> Seq<char>
    decreases n,
{
    if n == 0 {
        Seq::empty()
    } else {
        seq![hex_digits()[(h % 16) as int]] + hex_low(h / 16, (n - 1) as nat)
    }
}

/// The 64-bit FNV-1a hash of the characters of `s`, each taken as its code
/// point.
pub open spec fn fnv1a(s: Seq<char>) -> u64
    decreases s.len(),
{
    if s.len() == 0 {
        0xcbf29ce484222325u64
    } else {
        (fnv1a(s.drop_last()) ^ (s.last() as u32 as u64)).wrapping_mul(0x100000001b3u64)
    }
}

/// The name of the temporary file that holds the content of `file` in
/// `repo` before the change: from the index when `staged`, else from the
/// last commit. A short key stands in the name as it is; a longer one is
/// replaced by its hash after the marker `_h`, which no key starts with. A
/// later request for the same repository, path and side writes the same
/// file again, so these files do not pile up.
pub open spec fn temp_name(repo: Seq<char>, file: Seq<char>, staged: bool) -> Seq<char> {
    let key = name_key(repo, file);
    if key.len() <= SHORT_KEY {
        side_prefix(staged) + key
    } else {
        side_prefix(staged) + seq!['_', 'h'] + hex_low(fnv1a(key), 16)
    }
}

proof fn lemma_hex_low_len(h: u64, n: nat)
    ensures
        hex_low(h, n).len() == n,
    decreases n,
{
    if n > 0 {
        lemma_hex_low_len(h / 16, (n - 1) as nat);
    }
}

proof fn lemma_escape_push(s: Seq<char>, c: char)
    ensures
        escape(s.push(c)) == escape(s) + escape_char(c),
    decreases s.len(),
{
    if s.len() == 0 {
        assert(s.push(c).drop_first() =~= Seq::<char>::empty());
        assert(escape(Seq::<char>::empty()) =~= Seq::<char>::empty());
        assert(escape(s) =~= Seq::<char>::empty());
        assert(escape(s.push(c)) =~= escape_char(c));
    } else {
        assert(s.push(c).drop_first() =~= s.drop_first().push(c));
        lemma_escape_push(s.drop_first(), c);
        assert(escape(s.push(c)) =~= escape(s) + escape_char(c));
    }
}

proof fn lemma_escape_injective(a: Seq<char>, b: Seq<char>)
    requires
        escape(a) == escape(b),
    ensures
        a == b,
    decreases a.len(),
{
    if a.len() == 0 {
        if b.len() > 0 {
            assert(escape(b).len() >= escape_char(b[0]).len());
        }
        assert(a =~= b);
    } else if b.len() == 0 {
        assert(escape(a).len() >= escape_char(a[0]).len());
    } else {
        let ea = escape_char(a[0]);
        let eb = escape_char(b[0]);
        assert(escape(a)[0] == ea[0]);
        assert(escape(b)[0] == eb[0]);
        if escape_tag(a[0]) is Some {
            assert(escape(a)[1] == ea[1]);
            assert(escape_tag(b[0]) is Some);
            assert(escape(b)[1] == eb[1]);
        }
        assert(a[0] == b[0]);
        assert(escape(a.drop_first()) =~= escape(a).skip(ea.len() as int));
        assert(escape(b.drop_first()) =~= escape(b).skip(eb.len() as int));
        lemma_escape_injective(a.drop_first(), b.drop_first());
        assert forall|i: int| 0 <= i < a.len() implies a[i] == b[i] by {
            if i > 0 {
                assert(a[i] == a.drop_first()[i - 1]);
                assert(b[i] == b.drop_first()[i - 1]);
            }
        }
        assert(a =~= b);
    }
}

proof fn lemma_escape_head(s: Seq<char>, rest: Seq<char>)
    requires
        s.len() > 0,
    ensures
        (escape(s) + rest)[0] == escape_char(s[0])[0],
        escape_tag(s[0]) is Some ==> (escape(s) + rest)[1] == escape_char(s[0])[1],
        escape_tag(s[0]) is None ==> s[0] != '_' && s[0] == (escape(s) + rest)[0],
        escape(s) + rest =~= escape_char(s[0]) + (escape(s.drop_first()) + rest),
{
}

proof fn lemma_escape_pair_injective(r1: Seq<char>, f1: Seq<char>, r2: Seq<char>, f2: Seq<char>)
    requires
        escape(r1) + (name_separator() + escape(f1)) == escape(r2) + (name_separator() + escape(
            f2,
        )),
    ensures
        r1 == r2,
        f1 == f2,
    decreases r1.len(),
{
    let t1 = name_separator() + escape(f1);
    let t2 = name_separator() + escape(f2);
    if r1.len() == 0 && r2.len() == 0 {
        assert(escape(r1) =~= Seq::<char>::empty());
        assert(escape(r2) =~= Seq::<char>::empty());
        assert(escape(f1) =~= t1.skip(2));
        assert(escape(f2) =~= t2.skip(2));
        lemma_escape_injective(f1, f2);
        assert(r1 =~= r2);
    } else if r1.len() == 0 {
        assert(escape(r1) =~= Seq::<char>::empty());
        assert(escape(r1) + t1 =~= t1);
        lemma_escape_head(r2, t2);
    } else if r2.len() == 0 {
        assert(escape(r2) =~= Seq::<char>::empty());
        assert(escape(r2) + t2 =~= t2);
        lemma_escape_head(r1, t1);
    } else {
        lemma_escape_head(r1, t1);
        lemma_escape_head(r2, t2);
        let ea = escape_char(r1[0]);
        let eb = escape_char(r2[0]);
        assert(r1[0] == r2[0]);
        let whole = escape(r1) + t1;
        assert(escape(r1.drop_first()) + t1 =~= whole.skip(ea.len() as int));
        assert(escape(r2.drop_first()) + t2 =~= (escape(r2) + t2).skip(eb.len() as int));
        lemma_escape_pair_injective(r1.drop_first(), f1, r2.drop_first(), f2);
        assert forall|i: int| 0 <= i < r1.len() implies r1[i] == r2[i] by {
            if i > 0 {
                assert(r1[i] == r1.drop_first()[i - 1]);
                assert(r2[i] == r2.drop_first()[i - 1]);
            }
        }
        assert(r1 =~= r2);
    }
}

proof fn lemma_key_not_hash_marker(repo: Seq<char>, file: Seq<char>)
    ensures
        name_key(repo, file).len() >= 2,
        !(name_key(repo, file)[0] == '_' && name_key(repo, file)[1] == 'h'),
{
    let rest = name_separator() + escape(file);
    assert(name_key(repo, file) =~= escape(repo) + rest);
    if repo.len() == 0 {
        assert(escape(repo) =~= Seq::<char>::empty());
        assert(escape(repo) + rest =~= rest);
    } else {
        lemma_escape_head(repo, rest);
        assert((escape(repo) + rest).len() >= 2);
    }
}

fn escape_exec(s: &Vec<char>, out: &mut Vec<char>)
    ensures
        final(out)@ == old(out)@ + escape(s@),
{
    let ghost start = out@;
    let mut i: usize = 0;
    assert(escape(s@.take(0)) =~= Seq::<char>::empty());
    while i < s.len()
        invariant
            i <= s@.len(),
            out@ =~= start + escape(s@.take(i as int)),
        decreases s@.len() - i,
    {
        let c = s[i];
        let tag: Option<char> = if c == '_' {
            Some('_')
        } else if c == '/' {
            Some('s')
        } else if c == '\\' {
            Some('b')
        } else if c == ':' {
            Some('c')
        } else if c == '*' {
            Some('a')
        } else if c == '?' {
            Some('q')
        } else if c == '"' {
            Some('d')
        } else if c == '<' {
            Some('l')
        } else if c == '>' {
            Some('g')
        } else if c == '|' {
            Some('p')
        } else {
            None
        };
        match tag {
            Some(t) => {
                out.push('_');
                out.push(t);
            },
            None => {
                out.push(c);
            },
        }
        proof {
            assert(s@.take(i + 1) =~= s@.take(i as int).push(c));
            lemma_escape_push(s@.take(i as int), c);
        }
        i = i + 1;
    }
    assert(s@.take(s@.len() as int) =~= s@);
}

fn hex_char(d: u64) -> (c: char)
    requires
        d < 16,
    ensures
        c == hex_digits()[d as int],
{
    match d {
        0 => '0',
        1 => '1',
        2 => '2',
        3 => '3',
        4 => '4',
        5 => '5',
        6 => '6',
        7 => '7',
        8 => '8',
        9 => '9',
        10 => 'a',
        11 => 'b',
        12 => 'c',
        13 => 'd',
        14 => 'e',
        _ => 'f',
    }
}

/// The 64-bit FNV-1a hash of the characters of `s`.
pub fn fnv1a_exec(s: &Vec<char>) -> (h: u64)
    ensures
        h == fnv1a(s@),
{
    let mut h: u64 = 0xcbf29ce484222325u64;
    let mut i: usize = 0;
    while i < s.len()
        invariant
            i <= s@.len(),
            h == fnv1a(s@.take(i as int)),
        decreases s@.len() - i,
    {
        assert(s@.take(i + 1).drop_last() =~= s@.take(i as int));
        h = (h ^ (s[i] as u32 as u64)).wrapping_mul(0x100000001b3u64);
        i = i + 1;
    }
    assert(s@.take(s@.len() as int) =~= s@);
    h
}

fn push_hex_low(out: &mut Vec<char>, h: u64)
    ensures
        final(out)@ == old(out)@ + hex_low(h, 16),
{
    let mut cur = h;
    let mut i: usize = 0;
    assert(old(out)@ + hex_low(h, 16) =~= out@ + hex_low(cur, 16));
    while i < 16
        invariant
            i <= 16,
            old(out)@ + hex_low(h, 16) =~= out@ + hex_low(cur, (16 - i) as nat),
        decreases 16 - i,
    {
        let ghost before = out@;
        out.push(hex_char(cur % 16));
        assert(hex_low(cur, (16 - i) as nat) =~= seq![hex_digits()[(cur % 16) as int]] + hex_low(
            cur / 16,
            (16 - i - 1) as nat,
        ));
        cur = cur / 16;
        i = i + 1;
    }
    assert(hex_low(cur, 0) =~= Seq::<char>::empty());
}

/// The name of the temporary file for the pre-image of `file` in `repo`.
pub fn temp_file_name(repo: &String, file: &String, staged: bool) -> (r: String)
    ensures
        r@ == temp_name(repo@, file@, staged),
{
    let mut key: Vec<char> = Vec::new();
    escape_exec(&chars_of(repo.as_str()), &mut key);
    key.push('_');
    key.push('-');
    escape_exec(&chars_of(file.as_str()), &mut key);
    assert(key@ =~= name_key(repo@, file@));
    let mut out = if staged {
        chars_of("old-index-")
    } else {
        chars_of("old-head-")
    };
    if key.len() <= SHORT_KEY {
        append_chars(&mut out, &key);
    } else {
        out.push('_');
        out.push('h');
        push_hex_low(&mut out, fnv1a_exec(&key));
    }
    string_of(&out)
}

/// A temporary file name is at most 70 characters long, whatever the
/// repository and the file.
pub proof fn law_temp_name_bounded(repo: Seq<char>, file: Seq<char>, staged: bool)
    ensures
        temp_name(repo, file, staged).len() <= 70,
{
    reveal_strlit("old-index-");
    reveal_strlit("old-head-");
    lemma_hex_low_len(fnv1a(name_key(repo, file)), 16);
}

/// Temporary file names do not collide where the key stands in the name:
/// when one of two requests has a key of at most `SHORT_KEY` characters,
/// they get the same name only when they name the same repository, the same
/// path and the same side. (Two longer keys are told apart by their hash.)
pub proof fn law_temp_names_distinct(
    repo1: Seq<char>,
    file1: Seq<char>,
    staged1: bool,
    repo2: Seq<char>,
    file2: Seq<char>,
    staged2: bool,
)
    requires
        temp_name(repo1, file1, staged1) == temp_name(repo2, file2, staged2),
        name_key(repo1, file1).len() <= SHORT_KEY || name_key(repo2, file2).len() <= SHORT_KEY,
    ensures
        repo1 == repo2,
        file1 == file2,
        staged1 == staged2,
{
    reveal_strlit("old-index-");
    reveal_strlit("old-head-");
    let k1 = name_key(repo1, file1);
    let k2 = name_key(repo2, file2);
    let n1 = temp_name(repo1, file1, staged1);
    let n2 = temp_name(repo2, file2, staged2);
    lemma_key_not_hash_marker(repo1, file1);
    lemma_key_not_hash_marker(repo2, file2);
    lemma_hex_low_len(fnv1a(k1), 16);
    lemma_hex_low_len(fnv1a(k2), 16);
    assert(n1[4] == side_prefix(staged1)[4]);
    assert(n2[4] == side_prefix(staged2)[4]);
    assert(staged1 == staged2);
    let k = side_prefix(staged1).len() as int;
    if k1.len() <= SHORT_KEY && k2.len() <= SHORT_KEY {
        assert(k1 =~= n1.skip(k));
        assert(k2 =~= n2.skip(k));
        assert(k1 =~= escape(repo1) + (name_separator() + escape(file1)));
        assert(k2 =~= escape(repo2) + (name_separator() + escape(file2)));
        lemma_escape_pair_injective(repo1, file1, repo2, file2);
    } else if k1.len() <= SHORT_KEY {
        assert(n1[k] == k1[0] && n1[k + 1] == k1[1]);
        assert(n2[k] == '_' && n2[k + 1] == 'h');
    } else {
        assert(n2[k] == k2[0] && n2[k + 1] == k2[1]);
        assert(n1[k] == '_' && n1[k + 1] == 'h');
    }
}

/// The first step: ask whether the path is untracked.
pub fn begin_diff(req: &DiffRequest) -> (r: GitCommand)
    ensures
        r matches GitCommand::Untracked(p) && p@ == req.file@,
{
    GitCommand::Untracked(req.file.clone())
}

/// After the untracked query: an untracked path is read in full; any other
/// is diffed.
pub fn after_untracked_check(req: &DiffRequest, run: Result<ProcessOutput, String>) -> (r: DiffAction)
    ensures
        match stdout_of(run) {
            Err(e) => r == DiffAction::Finish(Err(e)),
            Ok(out) => if out@.len() > 0 {
                r matches DiffAction::ReadFile(p) && p@ == join_path(req.repo_path@, req.file@)
            } else {
                r matches DiffAction::RunDiff(c) && c matches GitCommand::Diff { path, staged }
                    && path@ == req.file@ && staged == req.staged
            },
        },
{
    match tool_result(run) {
        Err(e) => DiffAction::Finish(Err(e)),
        Ok(out) => if !out.as_str().is_empty() {
            DiffAction::ReadFile(join_path_exec(&req.repo_path, &req.file))
        } else {
            DiffAction::RunDiff(GitCommand::Diff { path: req.file.clone(), staged: req.staged })
        },
    }
}

/// After reading an untracked file: its content shown as added, or, when it
/// could not be read as text, the file handed out for external comparison
/// with nothing before it.
pub fn after_file_read(req: &DiffRequest, content: Option<String>) -> (r: DiffResult)
    ensures
        match content {
            Some(c) => r@ == DiffResultView::SyntheticAdded(synthetic_patch(req.file@, c@)),
            None => r@ == DiffResultView::Binary(None, join_path(req.repo_path@, req.file@)),
        },
{
    match content {
        Some(c) => DiffResult::SyntheticAdded {
            patch: synthesize_added_patch(req.file.as_str(), c.as_str()),
        },
        None => DiffResult::Binary {
            old_file_temp_path: None,
            new_file_path: join_path_exec(&req.repo_path, &req.file),
        },
    }
}

/// A line of the tool's diff that says two binary files differ.
pub open spec fn is_binary_line(l: Seq<char>) -> bool {
    starts_with(l, "Binary files "@) && ends_with(l, " differ"@)
}

/// Whether a patch has a line that says binary files differ.
pub open spec fn is_binary_patch(patch: Seq<char>) -> bool {
    exists|i: int| 0 <= i < lines(patch).len() && is_binary_line(#[trigger] lines(patch)[i])
}

/// Whether a patch has a line that says binary files differ.
pub fn has_binary_line(patch: &str) -> (r: bool)
    ensures
        r == is_binary_patch(patch@),
{
    let ls = split_lines(&chars_of(patch));
    let start = chars_of("Binary files ");
    let end = chars_of(" differ");
    let ghost all = views(ls@);
    let mut i: usize = 0;
    while i < ls.len()
        invariant
            i <= ls@.len(),
            all == views(ls@),
            all == lines(patch@),
            start@ == "Binary files "@,
            end@ == " differ"@,
            forall|j: int| 0 <= j < i ==> !is_binary_line(#[trigger] all[j]),
        decreases ls@.len() - i,
    {
        assert(all[i as int] == ls@[i as int]@);
        if occurs_at_exec(&ls[i], &start, 0) && ends_with_chars(&ls[i], &end) {
            assert(is_binary_line(all[i as int]));
            return true;
        }
        i = i + 1;
    }
    false
}

/// After the diff: a binary change needs its pre-image; else the patch is
/// the answer.
pub fn after_diff(req: &DiffRequest, run: Result<ProcessOutput, String>) -> (r: DiffAction)
    ensures
        match stdout_of(run) {
            Err(e) => r == DiffAction::Finish(Err(e)),
            Ok(out) => if is_binary_patch(out@) {
                r matches DiffAction::FetchPreImage(c) && c matches GitCommand::PreImage {
                    path,
                    staged,
                } && path@ == req.file@ && staged == req.staged
            } else {
                r matches DiffAction::Finish(Ok(d)) && d@ == DiffResultView::Text(out@)
            },
        },
{
    match tool_result(run) {
        Err(e) => DiffAction::Finish(Err(e)),
        Ok(out) => {
            if has_binary_line(out.as_str()) {
                DiffAction::FetchPreImage(
                    GitCommand::PreImage { path: req.file.clone(), staged: req.staged },
                )
            } else {
                DiffAction::Finish(Ok(DiffResult::Text { patch: out }))
            }
        },
    }
}

/// After the pre-image query: bytes to compare against are written to the
/// request's temporary file; when there are none the new file stands alone.
pub fn after_pre_image(req: &DiffRequest, run: Result<ByteOutput, String>) -> (r: DiffAction)
    ensures
        match run {
            Err(m) => r == DiffAction::Finish(Err(GitError::SpawnFailed(m))),
            Ok(o) => if o.success && o.stdout@.len() > 0 {
                r matches DiffAction::WriteTemp { name, bytes } && name@ == temp_name(
                    req.repo_path@,
                    req.file@,
                    req.staged,
                ) && bytes@ == o.stdout@
            } else {
                r matches DiffAction::Finish(Ok(d)) && d@ == DiffResultView::Binary(
                    None,
                    join_path(req.repo_path@, req.file@),
                )
            },
        },
{
    match run {
        Err(m) => DiffAction::Finish(Err(GitError::SpawnFailed(m))),
        Ok(o) => if o.success && o.stdout.len() > 0 {
            DiffAction::WriteTemp {
                name: temp_file_name(&req.repo_path, &req.file, req.staged),
                bytes: o.stdout,
            }
        } else {
            DiffAction::Finish(
                Ok(
                    DiffResult::Binary {
                        old_file_temp_path: None,
                        new_file_path: join_path_exec(&req.repo_path, &req.file),
                    },
                ),
            )
        },
    }
}

/// After writing the pre-image: the pair of files to compare, or the
/// failure to write.
pub fn after_write(req: &DiffRequest, written: Result<String, String>) -> (r: Result<DiffResult, GitError>)
    ensures
        match written {
            Ok(p) => r is Ok && r->Ok_0@ == DiffResultView::Binary(
                Some(p@),
                join_path(req.repo_path@, req.file@),
            ),
            Err(m) => r == Err::<DiffResult, GitError>(GitError::IoFailure(m)),
        },
{
    match written {
        Ok(p) => Ok(
            DiffResult::Binary {
                old_file_temp_path: Some(p),
                new_file_path: join_path_exec(&req.repo_path, &req.file),
            },
        ),
        Err(m) => Err(GitError::IoFailure(m)),
    }
}

} // verus!

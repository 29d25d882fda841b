//! Character-level text handling shared by the output parsers.

use vstd::prelude::*;

verus! {

/// Relies on `String::push`: the character is appended at the end.
#[verifier::external_body]
fn push_char(s: &mut String, c: char)
    ensures
        final(s)@ == old(s)@.push(c),
{
    s.push(c);
}

/// The characters of `s`, in order.
pub fn chars_of(s: &str) -> (r: Vec<char>)
    ensures
        r@ == s@,
{
    let mut r: Vec<char> = Vec::new();
    for c in it: s.chars()
        invariant
            r@ == it.seq().take(it.index() as int),
    {
        r.push(c);
    }
    r
}

/// A string holding exactly the characters of `v`.
pub fn string_of(v: &Vec<char>) -> (r: String)
    ensures
        r@ == v@,
{
    let mut r = String::new();
    let mut i: usize = 0;
    while i < v.len()
        invariant
            i <= v@.len(),
            r@ == v@.take(i as int),
        decreases v@.len() - i,
    {
        push_char(&mut r, v[i]);
        assert(v@.take(i + 1) == v@.take(i as int).push(v@[i as int]));
        i = i + 1;
    }
    assert(v@.take(v@.len() as int) == v@);
    r
}


/// A copy of `v[from..to]`.
pub fn copy_range(v: &Vec<char>, from: usize, to: usize) -> (r: Vec<char>)
    requires
        from <= to <= v@.len(),
    ensures
        r@ == v@.subrange(from as int, to as int),
{
    let mut r: Vec<char> = Vec::new();
    let mut i: usize = from;
    while i < to
        invariant
            from <= i <= to <= v@.len(),
            r@ == v@.subrange(from as int, i as int),
        decreases to - i,
    {
        r.push(v[i]);
        assert(v@.subrange(from as int, i + 1) == v@.subrange(from as int, i as int).push(v@[i as int]));
        i = i + 1;
    }
    r
}

/// The views of a sequence of character vectors.
pub open spec fn views(v: Seq<Vec<char>>) -> Seq<Seq<char>> {
    v.map_values(|x: Vec<char>| x@)
}

/// Splitting `s` at every `d`: the pieces already closed by a `d`, and the
/// piece still open at the end.
pub open spec fn split_parts(s: Seq<char>, d: char) -> (Seq<Seq<char>>, Seq<char>)
    decreases s.len(),
{
    if s.len() == 0 {
        (Seq::empty(), Seq::empty())
    } else {
        let (done, cur) = split_parts(s.drop_last(), d);
        if s.last() == d {
            (done.push(cur), Seq::empty())
        } else {
            (done, cur.push(s.last()))
        }
    }
}

/// The pieces of `s` between occurrences of `d`; there is always at least one.
pub open spec fn split_on(s: Seq<char>, d: char) -> Seq<Seq<char>> {
    split_parts(s, d).0.push(split_parts(s, d).1)
}

/// A line without the carriage return that may end it.
pub open spec fn strip_cr(l: Seq<char>) -> Seq<char> {
    if l.len() > 0 && l.last() == '\r' {
        l.drop_last()
    } else {
        l
    }
}

/// The lines of `s`: split at each line feed, a final line feed ends the last
/// line rather than opening an empty one, and a carriage return just before
/// a line feed is dropped with it.
pub open spec fn lines(s: Seq<char>) -> Seq<Seq<char>> {
    let (done, cur) = split_parts(s, '\n');
    done.map_values(|l: Seq<char>| strip_cr(l)) + if cur.len() == 0 {
        Seq::empty()
    } else {
        seq![cur]
    }
}

/// Splits `s` at every `d`.
pub fn split_chars(s: &Vec<char>, d: char) -> (r: Vec<Vec<char>>)
    ensures
        views(r@) == split_on(s@, d),
{
    let (done, cur) = split_parts_exec(s, d);
    let mut r = done;
    r.push(cur);
    assert(views(r@) =~= split_on(s@, d));
    r
}

fn split_parts_exec(s: &Vec<char>, d: char) -> (r: (Vec<Vec<char>>, Vec<char>))
    ensures
        views(r.0@) == split_parts(s@, d).0,
        r.1@ == split_parts(s@, d).1,
{
    let mut done: Vec<Vec<char>> = Vec::new();
    let mut cur: Vec<char> = Vec::new();
    let mut i: usize = 0;
    while i < s.len()
        invariant
            i <= s@.len(),
            views(done@) == split_parts(s@.take(i as int), d).0,
            cur@ == split_parts(s@.take(i as int), d).1,
        decreases s@.len() - i,
    {
        assert(s@.take(i + 1).drop_last() == s@.take(i as int));
        let c = s[i];
        if c == d {
            let ghost old_done = done@;
            done.push(cur);
            cur = Vec::new();
            assert(views(done@) =~= views(old_done).push(split_parts(s@.take(i as int), d).1));
        } else {
            cur.push(c);
        }
        i = i + 1;
    }
    assert(s@.take(s@.len() as int) == s@);
    (done, cur)
}

fn strip_cr_exec(l: Vec<char>) -> (r: Vec<char>)
    ensures
        r@ == strip_cr(l@),
{
    let mut l = l;
    if l.len() > 0 && l[l.len() - 1] == '\r' {
        l.pop();
    }
    l
}

/// The lines of `s`.
pub fn split_lines(s: &Vec<char>) -> (r: Vec<Vec<char>>)
    ensures
        views(r@) == lines(s@),
{
    let (done, cur) = split_parts_exec(s, '\n');
    let ghost p = views(done@);
    let mut r: Vec<Vec<char>> = Vec::new();
    let mut k: usize = 0;
    let n = done.len();
    while k < n
        invariant
            n == done@.len(),
            k <= n,
            p == views(done@),
            views(r@) =~= p.take(k as int).map_values(|l: Seq<char>| strip_cr(l)),
        decreases n - k,
    {
        let piece = copy_range(&done[k], 0, done[k].len());
        assert(done@[k as int]@.subrange(0, done@[k as int]@.len() as int) =~= done@[k as int]@);
        let line = strip_cr_exec(piece);
        let ghost old_r = r@;
        r.push(line);
        assert(views(r@) =~= views(old_r).push(strip_cr(p[k as int])));
        assert(p.take(k + 1) =~= p.take(k as int).push(p[k as int]));
        assert(p.take(k + 1).map_values(|l: Seq<char>| strip_cr(l)) =~= p.take(k as int).map_values(
            |l: Seq<char>| strip_cr(l),
        ).push(strip_cr(p[k as int])));
        k = k + 1;
    }
    assert(p.take(n as int) =~= p);
    let ghost before = views(r@);
    if cur.len() > 0 {
        r.push(cur);
        assert(views(r@) =~= before + seq![split_parts(s@, '\n').1]);
    } else {
        assert(views(r@) =~= before + Seq::<Seq<char>>::empty());
    }
    r
}

/// Unicode white space, as `char::is_whitespace` and `str::trim` use it.
pub open spec fn is_white(c: char) -> bool {
    let u = c as u32;
    ||| 0x09 <= u <= 0x0D
    ||| u == 0x20
    ||| u == 0x85
    ||| u == 0xA0
    ||| u == 0x1680
    ||| 0x2000 <= u <= 0x200A
    ||| u == 0x2028
    ||| u == 0x2029
    ||| u == 0x202F
    ||| u == 0x205F
    ||| u == 0x3000
}

pub fn is_white_exec(c: char) -> (r: bool)
    ensures
        r == is_white(c),
{
    let u = c as u32;
    (0x09 <= u && u <= 0x0D) || u == 0x20 || u == 0x85 || u == 0xA0 || u == 0x1680 || (0x2000 <= u
        && u <= 0x200A) || u == 0x2028 || u == 0x2029 || u == 0x202F || u == 0x205F || u == 0x3000
}

/// `s` without its leading white space.
pub open spec fn trim_start(s: Seq<char>) -> Seq<char>
    decreases s.len(),
{
    if s.len() > 0 && is_white(s[0]) {
        trim_start(s.drop_first())
    } else {
        s
    }
}

/// `s` without its trailing white space.
pub open spec fn trim_end(s: Seq<char>) -> Seq<char>
    decreases s.len(),
{
    if s.len() > 0 && is_white(s.last()) {
        trim_end(s.drop_last())
    } else {
        s
    }
}

/// `s` without white space at either end.
pub open spec fn trim(s: Seq<char>) -> Seq<char> {
    trim_end(trim_start(s))
}

/// A line is blank when nothing but white space is on it.
pub open spec fn is_blank(s: Seq<char>) -> bool {
    trim(s).len() == 0
}

/// `s` without white space at either end.
pub fn trim_chars(s: &Vec<char>) -> (r: Vec<char>)
    ensures
        r@ == trim(s@),
{
    let mut i: usize = 0;
    assert(s@.skip(0) =~= s@);
    while i < s.len() && is_white_exec(s[i])
        invariant
            i <= s@.len(),
            trim_start(s@) == trim_start(s@.skip(i as int)),
        decreases s@.len() - i,
    {
        assert(s@.skip(i as int).drop_first() =~= s@.skip(i + 1));
        i = i + 1;
    }
    assert(trim_start(s@) == s@.skip(i as int)) by {
        if i == s@.len() {
            assert(s@.skip(i as int).len() == 0);
        }
    }
    let mut j: usize = s.len();
    while j > i && is_white_exec(s[j - 1])
        invariant
            i <= j <= s@.len(),
            trim_end(s@.skip(i as int)) == trim_end(s@.subrange(i as int, j as int)),
        decreases j,
    {
        assert(s@.subrange(i as int, j as int).drop_last() =~= s@.subrange(i as int, j - 1));
        j = j - 1;
    }
    assert(s@.subrange(i as int, s@.len() as int) =~= s@.skip(i as int));
    copy_range(s, i, j)
}

/// Whether `p` occurs in `s` starting at `i`.
pub open spec fn occurs_at(s: Seq<char>, p: Seq<char>, i: int) -> bool {
    0 <= i && i + p.len() <= s.len() && s.subrange(i, i + p.len()) == p
}

/// Whether `p` occurs somewhere in `s`.
pub open spec fn contains_seq(s: Seq<char>, p: Seq<char>) -> bool {
    exists|i: int| occurs_at(s, p, i)
}

/// Whether `s` begins with `p`.
pub open spec fn starts_with(s: Seq<char>, p: Seq<char>) -> bool {
    occurs_at(s, p, 0)
}

/// Whether `s` ends with `p`.
pub open spec fn ends_with(s: Seq<char>, p: Seq<char>) -> bool {
    occurs_at(s, p, s.len() - p.len())
}

/// Whether `p` occurs in `s` starting at `i`.
pub fn occurs_at_exec(s: &Vec<char>, p: &Vec<char>, i: usize) -> (r: bool)
    ensures
        r == occurs_at(s@, p@, i as int),
{
    if i > s.len() || p.len() > s.len() - i {
        return false;
    }
    let mut k: usize = 0;
    while k < p.len()
        invariant
            i + p@.len() <= s@.len(),
            s@.len() == s.len(),
            k <= p@.len(),
            forall|m: int| 0 <= m < k ==> s@[i + m] == p@[m],
        decreases p@.len() - k,
    {
        if s[i + k] != p[k] {
            assert(s@.subrange(i as int, i + p@.len())[k as int] != p@[k as int]);
            return false;
        }
        k = k + 1;
    }
    assert(s@.subrange(i as int, i + p@.len()) =~= p@);
    true
}

/// Whether `p` occurs somewhere in `s`.
pub fn contains_chars(s: &Vec<char>, p: &Vec<char>) -> (r: bool)
    ensures
        r == contains_seq(s@, p@),
{
    if p.len() > s.len() {
        return false;
    }
    let last = s.len() - p.len();
    let mut i: usize = 0;
    loop
        invariant
            p@.len() <= s@.len(),
            last == s@.len() - p@.len(),
            i <= last,
            forall|j: int| 0 <= j < i ==> !occurs_at(s@, p@, j),
        decreases last - i,
    {
        if occurs_at_exec(s, p, i) {
            return true;
        }
        if i == last {
            assert forall|j: int| !occurs_at(s@, p@, j) by {
                if 0 <= j < i {
                }
            }
            return false;
        }
        i = i + 1;
    }
}

/// Whether `s` ends with `p`.
pub fn ends_with_chars(s: &Vec<char>, p: &Vec<char>) -> (r: bool)
    ensures
        r == ends_with(s@, p@),
{
    if p.len() > s.len() {
        return false;
    }
    occurs_at_exec(s, p, s.len() - p.len())
}

/// The index of the first `d` in `s`, or the length of `s` when there is none.
pub open spec fn index_of(s: Seq<char>, d: char) -> int
    decreases s.len(),
{
    if s.len() == 0 {
        0
    } else if s[0] == d {
        0
    } else {
        1 + index_of(s.drop_first(), d)
    }
}

pub proof fn lemma_index_of(s: Seq<char>, d: char)
    ensures
        0 <= index_of(s, d) <= s.len(),
        index_of(s, d) < s.len() ==> s[index_of(s, d)] == d,
        forall|j: int| 0 <= j < index_of(s, d) ==> s[j] != d,
    decreases s.len(),
{
    if s.len() > 0 && s[0] != d {
        lemma_index_of(s.drop_first(), d);
        assert forall|j: int| 0 <= j < index_of(s, d) implies s[j] != d by {
            if j > 0 {
                assert(s[j] == s.drop_first()[j - 1]);
            }
        }
    }
}

/// The index of the first `d` in `s` at or after `from`, or the length of `s`.
pub fn find_char(s: &Vec<char>, from: usize, d: char) -> (r: usize)
    requires
        from <= s@.len(),
    ensures
        r == from + index_of(s@.skip(from as int), d),
        from <= r <= s@.len(),
{
    let mut i: usize = from;
    while i < s.len() && s[i] != d
        invariant
            from <= i <= s@.len(),
            index_of(s@.skip(from as int), d) == (i - from) + index_of(s@.skip(i as int), d),
        decreases s@.len() - i,
    {
        assert(s@.skip(i as int).drop_first() =~= s@.skip(i + 1));
        i = i + 1;
    }
    assert(index_of(s@.skip(i as int), d) == 0) by {
        if i == s@.len() {
            assert(s@.skip(i as int).len() == 0);
        }
    }
    i
}

/// Splitting at `d` at most `n - 1` times: the last of the at most `n` pieces
/// keeps every later `d`.
pub open spec fn splitn(s: Seq<char>, n: nat, d: char) -> Seq<Seq<char>>
    decreases n,
{
    if n <= 1 {
        seq![s]
    } else {
        let k = index_of(s, d);
        if k < s.len() {
            seq![s.take(k)] + splitn(s.skip(k + 1), (n - 1) as nat, d)
        } else {
            seq![s]
        }
    }
}

/// Splits `s` at `d` at most `n - 1` times.
pub fn splitn_chars(s: &Vec<char>, n: usize, d: char) -> (r: Vec<Vec<char>>)
    requires
        n >= 1,
    ensures
        views(r@) == splitn(s@, n as nat, d),
{
    let mut parts: Vec<Vec<char>> = Vec::new();
    let mut start: usize = 0;
    assert(s@.skip(0) =~= s@);
    assert(views(parts@) + splitn(s@, n as nat, d) =~= splitn(s@, n as nat, d));
    loop
        invariant
            start <= s@.len(),
            parts@.len() < n,
            views(parts@) + splitn(s@.skip(start as int), (n - parts@.len()) as nat, d) == splitn(
                s@,
                n as nat,
                d,
            ),
        ensures
            start <= s@.len(),
            parts@.len() < n,
            views(parts@) + seq![s@.skip(start as int)] == splitn(s@, n as nat, d),
        decreases n - parts@.len(),
    {
        if parts.len() + 1 >= n {
            break;
        }
        let k = find_char(s, start, d);
        let ghost rest = s@.skip(start as int);
        if k >= s.len() {
            break;
        }
        proof {
            lemma_index_of(rest, d);
            assert(rest.take(k - start) =~= s@.subrange(start as int, k as int));
            assert(rest.skip(k - start + 1) =~= s@.skip(k + 1));
        }
        let ghost before = views(parts@);
        parts.push(copy_range(s, start, k));
        assert(views(parts@) =~= before.push(s@.subrange(start as int, k as int)));
        start = k + 1;
        assert(views(parts@) + splitn(s@.skip(start as int), (n - parts@.len()) as nat, d) =~= before
            + splitn(rest, (n - before.len()) as nat, d));
    }
    let ghost before = views(parts@);
    parts.push(copy_range(s, start, s.len()));
    assert(s@.subrange(start as int, s@.len() as int) =~= s@.skip(start as int));
    assert(views(parts@) =~= before + seq![s@.skip(start as int)]);
    parts
}

/// `s` with every `c` replaced by `to`.
pub open spec fn replace_char(s: Seq<char>, c: char, to: Seq<char>) -> Seq<char>
    decreases s.len(),
{
    if s.len() == 0 {
        Seq::empty()
    } else {
        replace_char(s.drop_last(), c, to) + if s.last() == c {
            to
        } else {
            seq![s.last()]
        }
    }
}

/// Appends `t` to `out`.
pub fn append_chars(out: &mut Vec<char>, t: &Vec<char>)
    ensures
        final(out)@ == old(out)@ + t@,
{
    let mut i: usize = 0;
    while i < t.len()
        invariant
            i <= t@.len(),
            out@ == old(out)@ + t@.take(i as int),
        decreases t@.len() - i,
    {
        out.push(t[i]);
        assert(t@.take(i + 1) =~= t@.take(i as int).push(t@[i as int]));
        i = i + 1;
    }
    assert(t@.take(t@.len() as int) =~= t@);
}

/// `s` with every `c` replaced by `to`.
pub fn replace_char_exec(s: &Vec<char>, c: char, to: &Vec<char>) -> (r: Vec<char>)
    ensures
        r@ == replace_char(s@, c, to@),
{
    let mut r: Vec<char> = Vec::new();
    let mut i: usize = 0;
    while i < s.len()
        invariant
            i <= s@.len(),
            r@ == replace_char(s@.take(i as int), c, to@),
        decreases s@.len() - i,
    {
        assert(s@.take(i + 1).drop_last() =~= s@.take(i as int));
        if s[i] == c {
            append_chars(&mut r, to);
        } else {
            r.push(s[i]);
        }
        i = i + 1;
        assert(r@ =~= replace_char(s@.take(i as int), c, to@));
    }
    assert(s@.take(s@.len() as int) =~= s@);
    r
}


/// The views of a sequence of strings.
pub open spec fn string_views(v: Seq<String>) -> Seq<Seq<char>> {
    v.map_values(|x: String| x@)
}

/// An owned copy of a string literal.
pub fn owned(s: &str) -> (r: String)
    ensures
        r@ == s@,
{
    String::from_str(s)
}


proof fn lemma_trim_start_non_white(s: Seq<char>, i: int)
    requires
        0 <= i < s.len(),
        !is_white(s[i]),
    ensures
        trim_start(s).len() > 0,
        !is_white(trim_start(s)[0]),
    decreases s.len(),
{
    if is_white(s[0]) {
        assert(s.drop_first()[i - 1] == s[i]);
        lemma_trim_start_non_white(s.drop_first(), i - 1);
    }
}

proof fn lemma_trim_end_non_white(t: Seq<char>)
    requires
        t.len() > 0,
        !is_white(t[0]),
    ensures
        trim_end(t).len() > 0,
    decreases t.len(),
{
    if is_white(t.last()) {
        assert(t.drop_last()[0] == t[0]);
        lemma_trim_end_non_white(t.drop_last());
    }
}

/// A line with a character that is not white space is not blank.
pub proof fn lemma_not_blank(s: Seq<char>, i: int)
    requires
        0 <= i < s.len(),
        !is_white(s[i]),
    ensures
        !is_blank(s),
{
    lemma_trim_start_non_white(s, i);
    lemma_trim_end_non_white(trim_start(s));
}

/// How many times `d` occurs in `s`.
pub open spec fn count_char(s: Seq<char>, d: char) -> nat
    decreases s.len(),
{
    if s.len() == 0 {
        0
    } else {
        (if s[0] == d {
            1nat
        } else {
            0nat
        }) + count_char(s.drop_first(), d)
    }
}

/// The pieces `p` joined back with `d` between each two.
pub open spec fn join_with(p: Seq<Seq<char>>, d: char) -> Seq<char>
    decreases p.len(),
{
    if p.len() == 0 {
        Seq::empty()
    } else if p.len() == 1 {
        p[0]
    } else {
        p[0] + seq![d] + join_with(p.drop_first(), d)
    }
}

proof fn lemma_count_split(s: Seq<char>, d: char)
    ensures
        index_of(s, d) < s.len() ==> count_char(s, d) == 1 + count_char(
            s.skip(index_of(s, d) + 1),
            d,
        ),
        index_of(s, d) >= s.len() ==> count_char(s, d) == 0,
    decreases s.len(),
{
    if s.len() > 0 {
        if s[0] == d {
            assert(s.skip(1) =~= s.drop_first());
        } else {
            let t = s.drop_first();
            lemma_count_split(t, d);
            lemma_index_of(t, d);
            if index_of(t, d) < t.len() {
                assert(s.skip(index_of(s, d) + 1) =~= t.skip(index_of(t, d) + 1));
            }
        }
    }
}

/// Splitting at most `n - 1` times loses nothing: the pieces joined with `d`
/// give `s` back, no piece but the last holds `d`, and when `d` occurs at
/// least `n - 1` times there are exactly `n` pieces.
pub proof fn lemma_splitn_round_trip(s: Seq<char>, n: nat, d: char)
    requires
        n >= 1,
    ensures
        splitn(s, n, d).len() >= 1,
        join_with(splitn(s, n, d), d) == s,
        forall|i: int| 0 <= i < splitn(s, n, d).len() - 1 ==> !(#[trigger] splitn(s, n, d)[i]).contains(d),
        count_char(s, d) >= n - 1 ==> splitn(s, n, d).len() == n,
    decreases n,
{
    lemma_count_split(s, d);
    if n > 1 {
        let k = index_of(s, d);
        lemma_index_of(s, d);
        if k < s.len() {
            let rest = s.skip(k + 1);
            lemma_splitn_round_trip(rest, (n - 1) as nat, d);
            let p = splitn(s, n, d);
            let q = splitn(rest, (n - 1) as nat, d);
            assert(p == seq![s.take(k)] + q);
            assert(p.drop_first() =~= q);
            assert(p[0] == s.take(k));
            assert(join_with(p, d) == s.take(k) + seq![d] + join_with(q, d));
            assert(s =~= s.take(k) + seq![d] + rest);
            assert forall|i: int| 0 <= i < p.len() - 1 implies !(#[trigger] p[i]).contains(d) by {
                if i == 0 {
                    assert forall|j: int| 0 <= j < p[0].len() implies p[0][j] != d by {
                        assert(p[0][j] == s[j]);
                    }
                } else {
                    assert(p[i] == q[i - 1]);
                }
            }
        }
    }
}


proof fn lemma_join_push(q: Seq<Seq<char>>, a: Seq<char>, d: char)
    requires
        q.len() >= 1,
    ensures
        join_with(q.push(a), d) == join_with(q, d) + seq![d] + a,
    decreases q.len(),
{
    if q.len() == 1 {
        assert(q.push(a).drop_first() =~= seq![a]);
        assert(join_with(seq![a], d) == a);
    } else {
        assert(q.push(a).drop_first() =~= q.drop_first().push(a));
        lemma_join_push(q.drop_first(), a, d);
        assert(join_with(q.push(a), d) =~= join_with(q, d) + seq![d] + a);
    }
}

/// Splitting at `d` loses nothing: the pieces joined with `d` give `s` back.
pub proof fn lemma_split_join(s: Seq<char>, d: char)
    ensures
        join_with(split_on(s, d), d) == s,
    decreases s.len(),
{
    let e = Seq::<char>::empty();
    if s.len() == 0 {
        assert(split_on(s, d) =~= seq![e]);
        assert(join_with(seq![e], d) == e);
        assert(s =~= e);
    } else {
        let s0 = s.drop_last();
        let x = s.last();
        lemma_split_join(s0, d);
        let done = split_parts(s0, d).0;
        let cur = split_parts(s0, d).1;
        assert(split_on(s0, d) == done.push(cur));
        if x == d {
            assert(split_on(s, d) == done.push(cur).push(e));
            lemma_join_push(done.push(cur), e, d);
            assert(s =~= s0 + seq![d] + e);
        } else {
            assert(split_on(s, d) == done.push(cur.push(x)));
            if done.len() == 0 {
                assert(done.push(cur.push(x)) =~= seq![cur.push(x)]);
                assert(done.push(cur) =~= seq![cur]);
                assert(join_with(seq![cur.push(x)], d) == cur.push(x));
                assert(join_with(seq![cur], d) == cur);
            } else {
                lemma_join_push(done, cur.push(x), d);
                lemma_join_push(done, cur, d);
            }
            assert(s =~= s0.push(x));
        }
    }
}

} // verus!

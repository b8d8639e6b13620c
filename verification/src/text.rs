//! Character-level text helpers shared by the rest of the library.
//!
//! Strings are modelled by their character sequences (`s@`). The spec
//! functions here say what std's `trim`, `lines`, `split_once` and friends
//! compute; the executable functions compute the same on character vectors.

use vstd::prelude::*;

verus! {

// ---------------------------------------------------------------------------
// Specifications
// ---------------------------------------------------------------------------

/// Unicode `White_Space`, the property `char::is_whitespace` tests.
pub open spec fn is_ws(c: char) -> bool {
    let u = c as u32;
    ||| 0x09 <= u <= 0x0D
    ||| u == 0x20
    ||| u == 0x85
    ||| u == 0xA0
    ||| u == 0x1680
    ||| 0x2000 <= u <= 0x200A
    ||| u == 0x2028
    ||| u == 0x2029
    ||| u == 0x202F
    ||| u == 0x205F
    ||| u == 0x3000
}

/// `s` without its leading whitespace.
pub open spec fn trim_start(s: Seq<char>) -> Seq<char>
    decreases s.len(),
{
    if s.len() > 0 && is_ws(s[0]) {
        trim_start(s.skip(1))
    } else {
        s
    }
}

/// `s` without its trailing whitespace.
pub open spec fn trim_end(s: Seq<char>) -> Seq<char>
    decreases s.len(),
{
    if s.len() > 0 && is_ws(s.last()) {
        trim_end(s.drop_last())
    } else {
        s
    }
}

/// `s` without leading and trailing whitespace (`str::trim`).
pub open spec fn trim(s: Seq<char>) -> Seq<char> {
    trim_end(trim_start(s))
}

/// Position of the first occurrence of `c` in `s`.
pub open spec fn first_index(s: Seq<char>, c: char) -> Option<int>
    decreases s.len(),
{
    if s.len() == 0 {
        None
    } else {
        match first_index(s.drop_last(), c) {
            Some(i) => Some(i),
            None => if s.last() == c {
                Some(s.len() - 1)
            } else {
                None
            },
        }
    }
}

/// `str::split_once` on a single character: the text before and after the
/// first occurrence of `c`.
pub open spec fn split_once(s: Seq<char>, c: char) -> Option<(Seq<char>, Seq<char>)> {
    match first_index(s, c) {
        Some(i) => Some((s.take(i), s.skip(i + 1))),
        None => None,
    }
}

/// A line taken from between two `'\n'` loses one trailing `'\r'`.
pub open spec fn strip_cr(s: Seq<char>) -> Seq<char> {
    if s.len() > 0 && s.last() == '\r' {
        s.drop_last()
    } else {
        s
    }
}

/// The lines completed so far and the line being read, after reading `s`.
pub open spec fn line_state(s: Seq<char>) -> (Seq<Seq<char>>, Seq<char>)
    decreases s.len(),
{
    if s.len() == 0 {
        (seq![], seq![])
    } else {
        let (done, cur) = line_state(s.drop_last());
        if s.last() == '\n' {
            (done.push(strip_cr(cur)), seq![])
        } else {
            (done, cur.push(s.last()))
        }
    }
}

/// `str::lines`: split at `'\n'`, drop a `'\r'` before each `'\n'`, and
/// yield no empty line after a final `'\n'`.
pub open spec fn lines_of(s: Seq<char>) -> Seq<Seq<char>> {
    let (done, cur) = line_state(s);
    if cur.len() == 0 {
        done
    } else {
        done.push(cur)
    }
}

/// The parts joined with `sep` between them (`[T]::join`).
pub open spec fn join(parts: Seq<Seq<char>>, sep: Seq<char>) -> Seq<char>
    decreases parts.len(),
{
    if parts.len() == 0 {
        seq![]
    } else if parts.len() == 1 {
        parts[0]
    } else {
        join(parts.drop_last(), sep) + sep + parts.last()
    }
}

/// Whether `c` occurs in `s`.
pub open spec fn has_char(s: Seq<char>, c: char) -> bool {
    exists|i: int| 0 <= i < s.len() && s[i] == c
}

// ---------------------------------------------------------------------------
// Lemmas
// ---------------------------------------------------------------------------

/// `first_index` finds the first occurrence, and finds one if there is one.
pub proof fn lemma_first_index(s: Seq<char>, c: char)
    ensures
        match first_index(s, c) {
            Some(i) => 0 <= i < s.len() && s[i] == c && forall|j: int| 0 <= j < i ==> s[j] != c,
            None => forall|j: int| 0 <= j < s.len() ==> s[j] != c,
        },
    decreases s.len(),
{
    if s.len() > 0 {
        let t = s.drop_last();
        lemma_first_index(t, c);
        assert forall|j: int| 0 <= j < s.len() - 1 implies s[j] == #[trigger] t[j] by {}
        match first_index(t, c) {
            Some(i) => {
                assert(first_index(s, c) == Some(i));
                assert forall|j: int| 0 <= j < i implies s[j] != c by {
                    assert(s[j] == t[j]);
                }
            },
            None => {
                assert forall|j: int| 0 <= j < s.len() - 1 implies s[j] != c by {
                    assert(s[j] == t[j]);
                }
            },
        }
    }
}

/// A position that is the first occurrence is what `first_index` returns.
pub proof fn lemma_first_index_at(s: Seq<char>, c: char, i: int)
    requires
        0 <= i < s.len(),
        s[i] == c,
        forall|j: int| 0 <= j < i ==> s[j] != c,
    ensures
        first_index(s, c) == Some(i),
{
    lemma_first_index(s, c);
    match first_index(s, c) {
        Some(m) => {
            if m < i {
                assert(s[m] == c);
            }
        },
        None => {
            assert(s[i] == c);
        },
    }
}

/// Trimming leaves no whitespace at either end and keeps a contiguous part.
pub proof fn lemma_trim_start(s: Seq<char>)
    ensures
        exists|k: int| 0 <= k <= s.len() && trim_start(s) == s.skip(k) && forall|j: int|
            0 <= j < k ==> is_ws(#[trigger] s[j]),
        trim_start(s).len() > 0 ==> !is_ws(trim_start(s)[0]),
    decreases s.len(),
{
    if s.len() > 0 && is_ws(s[0]) {
        lemma_trim_start(s.skip(1));
        let k = choose|k: int|
            0 <= k <= s.skip(1).len() && trim_start(s.skip(1)) == s.skip(1).skip(k) && forall|
                j: int,
            | 0 <= j < k ==> is_ws(#[trigger] s.skip(1)[j]);
        assert(s.skip(1).skip(k) == s.skip(k + 1));
        assert forall|j: int| 0 <= j < k + 1 implies is_ws(#[trigger] s[j]) by {
            if j > 0 {
                assert(s[j] == s.skip(1)[j - 1]);
            }
        }
    } else {
        assert(s.skip(0) == s);
    }
}

/// Trimming the end leaves no whitespace there and keeps a prefix.
pub proof fn lemma_trim_end(s: Seq<char>)
    ensures
        exists|k: int| 0 <= k <= s.len() && trim_end(s) == s.take(k) && forall|j: int|
            k <= j < s.len() ==> is_ws(#[trigger] s[j]),
        trim_end(s).len() > 0 ==> !is_ws(trim_end(s).last()),
    decreases s.len(),
{
    if s.len() > 0 && is_ws(s.last()) {
        lemma_trim_end(s.drop_last());
        let k = choose|k: int|
            0 <= k <= s.drop_last().len() && trim_end(s.drop_last()) == s.drop_last().take(k)
                && forall|j: int| k <= j < s.drop_last().len() ==> is_ws(#[trigger] s.drop_last()[j]);
        assert(s.drop_last().take(k) == s.take(k));
        assert forall|j: int| k <= j < s.len() implies is_ws(#[trigger] s[j]) by {
            if j < s.len() - 1 {
                assert(s[j] == s.drop_last()[j]);
            }
        }
    } else {
        assert(s.take(s.len() as int) == s);
    }
}

/// Whether `s` holds a `'\r'` immediately followed by a `'\n'`.
pub open spec fn has_crlf(s: Seq<char>) -> bool {
    exists|i: int| 0 <= i < s.len() - 1 && #[trigger] s[i] == '\r' && s[i + 1] == '\n'
}

/// Reading `a + b` after `a` left no partial line reads `b` on its own.
pub proof fn lemma_line_state_append(a: Seq<char>, b: Seq<char>)
    requires
        line_state(a).1.len() == 0,
    ensures
        line_state(a + b) == (line_state(a).0 + line_state(b).0, line_state(b).1),
    decreases b.len(),
{
    if b.len() == 0 {
        assert(a + b == a);
        assert(line_state(a).1 == Seq::<char>::empty());
        assert(line_state(a).0 + line_state(b).0 == line_state(a).0);
    } else {
        lemma_line_state_append(a, b.drop_last());
        assert((a + b).drop_last() == a + b.drop_last());
        let (d, c) = line_state(b.drop_last());
        if b.last() == '\n' {
            assert(line_state(a).0 + d.push(strip_cr(c)) == (line_state(a).0 + d).push(
                strip_cr(c),
            ));
        }
    }
}

/// Text without a newline is one partial line.
pub proof fn lemma_line_state_no_newline(s: Seq<char>)
    requires
        !has_char(s, '\n'),
    ensures
        line_state(s) == (Seq::<Seq<char>>::empty(), s),
    decreases s.len(),
{
    if s.len() > 0 {
        assert(!has_char(s.drop_last(), '\n')) by {
            if has_char(s.drop_last(), '\n') {
                let i = choose|i: int|
                    0 <= i < s.drop_last().len() && s.drop_last()[i] == '\n';
                assert(s[i] == '\n');
            }
        }
        lemma_line_state_no_newline(s.drop_last());
        assert(s.last() != '\n') by {
            if s.last() == '\n' {
                assert(s[s.len() - 1] == '\n');
            }
        }
        assert(s.drop_last().push(s.last()) == s);
    }
}

/// One line without a newline, then a newline.
pub proof fn lemma_line_state_one_line(s: Seq<char>)
    requires
        !has_char(s, '\n'),
    ensures
        line_state(s.push('\n')) == (seq![strip_cr(s)], Seq::<char>::empty()),
{
    lemma_line_state_no_newline(s);
    assert(s.push('\n').drop_last() == s);
}

/// The partial line ends where the text ends.
pub proof fn lemma_line_state_cur_last(s: Seq<char>)
    ensures
        line_state(s).1.len() > 0 ==> s.len() > 0 && line_state(s).1.last() == s.last(),
    decreases s.len(),
{
    if s.len() > 0 {
        lemma_line_state_cur_last(s.drop_last());
    }
}

/// Appending one character to the last part of a join.
pub proof fn lemma_join_push_last(q: Seq<Seq<char>>, a: Seq<char>, x: char, sep: Seq<char>)
    ensures
        join(q.push(a.push(x)), sep) == join(q.push(a), sep).push(x),
{
    if q.len() == 0 {
        assert(q.push(a.push(x))[0] == a.push(x));
        assert(q.push(a)[0] == a);
    } else {
        assert(q.push(a.push(x)).drop_last() == q);
        assert(q.push(a).drop_last() == q);
    }
}

/// Joining the lines of a text without `"\r\n"` with `'\n'` gives it back.
pub proof fn lemma_join_line_state(s: Seq<char>)
    requires
        !has_crlf(s),
    ensures
        join(line_state(s).0.push(line_state(s).1), seq!['\n']) == s,
    decreases s.len(),
{
    let nl = seq!['\n'];
    if s.len() == 0 {
        assert(line_state(s).0.push(line_state(s).1)[0] == Seq::<char>::empty());
    } else {
        let p = s.drop_last();
        let x = s.last();
        assert(!has_crlf(p)) by {
            if has_crlf(p) {
                let i = choose|i: int| 0 <= i < p.len() - 1 && #[trigger] p[i] == '\r' && p[i + 1] == '\n';
                assert(s[i] == '\r' && s[i + 1] == '\n');
            }
        }
        lemma_join_line_state(p);
        let (d, c) = line_state(p);
        if x == '\n' {
            lemma_line_state_cur_last(p);
            if c.len() > 0 && c.last() == '\r' {
                assert(s[s.len() - 2] == '\r' && s[s.len() - 1] == '\n');
                assert(false);
            }
            assert(strip_cr(c) == c);
            let q = d.push(c).push(Seq::<char>::empty());
            assert(q.drop_last() == d.push(c));
            assert(join(q, nl) == join(d.push(c), nl) + nl + Seq::<char>::empty());
            assert(p + nl + Seq::<char>::empty() == s);
        } else {
            lemma_join_push_last(d, c, x, nl);
            assert(p.push(x) == s);
        }
    }
}

/// The lines of `s` followed by a newline, when `s` does not end in `'\r'`
/// and holds no `"\r\n"`, join back to `s`.
pub proof fn lemma_join_lines_newline(s: Seq<char>)
    requires
        !has_crlf(s),
        s.len() > 0 ==> s.last() != '\r',
    ensures
        line_state(s.push('\n')).1.len() == 0,
        join(line_state(s.push('\n')).0, seq!['\n']) == s,
{
    lemma_join_line_state(s);
    lemma_line_state_cur_last(s);
    assert(s.push('\n').drop_last() == s);
    let (d, c) = line_state(s);
    assert(strip_cr(c) == c);
}

/// A trimmed sequence is trimmed at both ends.
pub proof fn lemma_trimmed_ends(v: Seq<char>)
    requires
        trim(v) == v,
    ensures
        trim_start(v) == v,
        trim_end(v) == v,
{
    lemma_trim_start(v);
    lemma_trim_end(trim_start(v));
    let k = choose|k: int|
        0 <= k <= v.len() && trim_start(v) == v.skip(k) && forall|j: int|
            0 <= j < k ==> is_ws(#[trigger] v[j]);
    assert(trim_end(trim_start(v)).len() <= trim_start(v).len());
    assert(k == 0);
    assert(v.skip(0) == v);
}

/// One leading space is trimmed off a trimmed sequence.
pub proof fn lemma_trim_space_prefix(v: Seq<char>)
    requires
        trim(v) == v,
    ensures
        trim(seq![' '] + v) == v,
{
    lemma_trimmed_ends(v);
    let s = seq![' '] + v;
    assert(s.skip(1) == v);
    assert(is_ws(s[0]));
}

// ---------------------------------------------------------------------------
// A trusted std operation that vstd leaves unspecified
// ---------------------------------------------------------------------------

/// `String::push`: appends one character.
#[verifier::external_body]
pub(crate) fn push_char(s: &mut String, c: char)
    ensures
        final(s)@ == old(s)@.push(c),
{
    s.push(c)
}


// ---------------------------------------------------------------------------
// Executable helpers
// ---------------------------------------------------------------------------

/// The characters of `s`, in order.
pub fn chars_of(s: &str) -> (out: Vec<char>)
    ensures
        out@ == s@,
{
    let mut out: Vec<char> = Vec::new();
    for c in it: s.chars()
        invariant
            out@ == it.seq().take(it.index() as int),
            it.seq() == s@,
    {
        out.push(c);
    }
    out
}

/// A `String` holding the characters of `cs`.
pub fn string_of(cs: &[char]) -> (out: String)
    ensures
        out@ == cs@,
{
    let mut out = String::new();
    let mut i: usize = 0;
    while i < cs.len()
        invariant
            i <= cs.len(),
            out@ == cs@.take(i as int),
        decreases cs.len() - i,
    {
        push_char(&mut out, cs[i]);
        i = i + 1;
        assert(out@ == cs@.take(i as int));
    }
    assert(cs@.take(cs.len() as int) == cs@);
    out
}

/// Appends the characters of `cs` to `out`.
pub fn push_chars(out: &mut String, cs: &[char])
    ensures
        final(out)@ == old(out)@ + cs@,
{
    let ghost start = out@;
    let mut i: usize = 0;
    while i < cs.len()
        invariant
            i <= cs.len(),
            out@ == start + cs@.take(i as int),
        decreases cs.len() - i,
    {
        push_char(out, cs[i]);
        i = i + 1;
        assert(out@ == start + cs@.take(i as int));
    }
    assert(cs@.take(cs.len() as int) == cs@);
}

/// Appends a string slice to `out`.
pub fn push_str(out: &mut String, s: &str)
    ensures
        final(out)@ == old(out)@ + s@,
{
    let cs = chars_of(s);
    push_chars(out, cs.as_slice());
}

/// Whether `c` is whitespace (`char::is_whitespace`).
pub fn is_whitespace(c: char) -> (r: bool)
    ensures
        r == is_ws(c),
{
    let u = c as u32;
    (0x09 <= u && u <= 0x0D) || u == 0x20 || u == 0x85 || u == 0xA0 || u == 0x1680 || (0x2000
        <= u && u <= 0x200A) || u == 0x2028 || u == 0x2029 || u == 0x202F || u == 0x205F || u
        == 0x3000
}

/// Number of leading whitespace characters of `cs`.
fn leading_ws(cs: &[char]) -> (k: usize)
    ensures
        k <= cs.len(),
        trim_start(cs@) == cs@.skip(k as int),
{
    let mut k: usize = 0;
    assert(cs@.skip(0) == cs@);
    while k < cs.len() && is_whitespace(cs[k])
        invariant
            k <= cs.len(),
            trim_start(cs@) == trim_start(cs@.skip(k as int)),
        decreases cs.len() - k,
    {
        assert(cs@.skip(k as int).skip(1) == cs@.skip(k + 1));
        k = k + 1;
    }
    k
}

/// Length of `cs` once its trailing whitespace is removed.
fn trimmed_end_len(cs: &[char]) -> (k: usize)
    ensures
        k <= cs.len(),
        trim_end(cs@) == cs@.take(k as int),
{
    let mut k: usize = cs.len();
    assert(cs@.take(k as int) == cs@);
    while k > 0 && is_whitespace(cs[k - 1])
        invariant
            k <= cs.len(),
            trim_end(cs@) == trim_end(cs@.take(k as int)),
        decreases k,
    {
        assert(cs@.take(k as int).drop_last() == cs@.take(k - 1));
        k = k - 1;
    }
    k
}

/// The characters of `cs` from `lo` to `hi`.
pub fn slice_vec(cs: &[char], lo: usize, hi: usize) -> (out: Vec<char>)
    requires
        lo <= hi <= cs.len(),
    ensures
        out@ == cs@.subrange(lo as int, hi as int),
{
    let mut out: Vec<char> = Vec::new();
    let mut i: usize = lo;
    while i < hi
        invariant
            lo <= i <= hi <= cs.len(),
            out@ == cs@.subrange(lo as int, i as int),
        decreases hi - i,
    {
        out.push(cs[i]);
        i = i + 1;
        assert(out@ == cs@.subrange(lo as int, i as int));
    }
    out
}

/// `cs` without trailing whitespace.
pub fn trim_end_chars(cs: &[char]) -> (out: Vec<char>)
    ensures
        out@ == trim_end(cs@),
{
    let k = trimmed_end_len(cs);
    slice_vec(cs, 0, k)
}

/// `cs` without leading or trailing whitespace.
pub fn trim_chars(cs: &[char]) -> (out: Vec<char>)
    ensures
        out@ == trim(cs@),
{
    let a = leading_ws(cs);
    let rest = slice_vec(cs, a, cs.len());
    assert(rest@ == cs@.skip(a as int));
    trim_end_chars(rest.as_slice())
}

/// Position of the first `c` in `cs`.
pub fn find_char(cs: &[char], c: char) -> (r: Option<usize>)
    ensures
        match r {
            Some(i) => i < cs.len() && first_index(cs@, c) == Some(i as int),
            None => first_index(cs@, c) is None,
        },
{
    let mut i: usize = 0;
    while i < cs.len()
        invariant
            i <= cs.len(),
            forall|j: int| 0 <= j < i ==> cs@[j] != c,
        decreases cs.len() - i,
    {
        if cs[i] == c {
            proof {
                lemma_first_index(cs@, c);
            }
            return Some(i);
        }
        i = i + 1;
    }
    proof {
        lemma_first_index(cs@, c);
    }
    None
}

/// `str::split_once` on a character.
pub fn split_once_chars(cs: &[char], c: char) -> (r: Option<(Vec<char>, Vec<char>)>)
    ensures
        match r {
            Some((a, b)) => split_once(cs@, c) == Some((a@, b@)),
            None => split_once(cs@, c) is None,
        },
{
    match find_char(cs, c) {
        Some(i) => {
            proof {
                lemma_first_index(cs@, c);
            }
            let a = slice_vec(cs, 0, i);
            let b = slice_vec(cs, i + 1, cs.len());
            assert(a@ == cs@.take(i as int));
            assert(b@ == cs@.skip(i + 1));
            Some((a, b))
        },
        None => None,
    }
}

/// Whether two character sequences are equal.
pub fn chars_eq(a: &[char], b: &[char]) -> (r: bool)
    ensures
        r == (a@ == b@),
{
    if a.len() != b.len() {
        return false;
    }
    let mut i: usize = 0;
    while i < a.len()
        invariant
            i <= a.len() == b.len(),
            forall|j: int| 0 <= j < i ==> a@[j] == b@[j],
        decreases a.len() - i,
    {
        if a[i] != b[i] {
            return false;
        }
        i = i + 1;
    }
    assert(a@ == b@);
    true
}

/// `str::lines` on a character sequence.
pub fn lines_chars(cs: &[char]) -> (out: Vec<Vec<char>>)
    ensures
        out@.len() == lines_of(cs@).len(),
        forall|i: int| 0 <= i < out@.len() ==> (#[trigger] out@[i])@ == lines_of(cs@)[i],
{
    let mut done: Vec<Vec<char>> = Vec::new();
    let mut cur: Vec<char> = Vec::new();
    let mut i: usize = 0;
    while i < cs.len()
        invariant
            i <= cs.len(),
            done@.len() == line_state(cs@.take(i as int)).0.len(),
            forall|j: int|
                0 <= j < done@.len() ==> (#[trigger] done@[j])@ == line_state(
                    cs@.take(i as int),
                ).0[j],
            cur@ == line_state(cs@.take(i as int)).1,
        decreases cs.len() - i,
    {
        let ghost prev = cs@.take(i as int);
        assert(cs@.take(i + 1).drop_last() == prev);
        if cs[i] == '\n' {
            let n = cur.len();
            if n > 0 && cur[n - 1] == '\r' {
                cur.pop();
            }
            done.push(cur);
            cur = Vec::new();
        } else {
            cur.push(cs[i]);
        }
        i = i + 1;
    }
    assert(cs@.take(cs.len() as int) == cs@);
    if cur.len() > 0 {
        done.push(cur);
    }
    done
}

/// Whether two string slices hold the same characters (`==` on `str`).
pub fn str_eq(a: &str, b: &str) -> (r: bool)
    ensures
        r == (a@ == b@),
{
    let ca = chars_of(a);
    let cb = chars_of(b);
    chars_eq(ca.as_slice(), cb.as_slice())
}

} // verus!

//! Reading git's version line.

use vstd::prelude::*;
use crate::text::{chars_of, is_whitespace, is_ws};

verus! {

/// The words read so far and the word being read, splitting at whitespace.
pub open spec fn word_state(s: Seq<char>) -> (Seq<Seq<char>>, Seq<char>)
    decreases s.len(),
{
    if s.len() == 0 {
        (seq![], seq![])
    } else {
        let (done, cur) = word_state(s.drop_last());
        if is_ws(s.last()) {
            if cur.len() > 0 {
                (done.push(cur), seq![])
            } else {
                (done, seq![])
            }
        } else {
            (done, cur.push(s.last()))
        }
    }
}

/// `split_whitespace()`: the words of `s`, in order.
pub open spec fn words(s: Seq<char>) -> Seq<Seq<char>> {
    let (done, cur) = word_state(s);
    if cur.len() > 0 {
        done.push(cur)
    } else {
        done
    }
}

/// The word of a `git --version` line that carries the version: the third
/// (after `git version`), or the last one of a shorter line, or nothing.
pub open spec fn version_word(raw: Seq<char>) -> Seq<char> {
    let w = words(raw);
    if w.len() >= 3 {
        w[2]
    } else if w.len() > 0 {
        w.last()
    } else {
        seq![]
    }
}

/// The finished parts and the part being read, splitting at `.`.
pub open spec fn dot_state(s: Seq<char>) -> (Seq<Seq<char>>, Seq<char>)
    decreases s.len(),
{
    if s.len() == 0 {
        (seq![], seq![])
    } else {
        let (done, cur) = dot_state(s.drop_last());
        if s.last() == '.' {
            (done.push(cur), seq![])
        } else {
            (done, cur.push(s.last()))
        }
    }
}

/// `split('.')`: the parts between dots, empty ones too.
pub open spec fn dot_parts(s: Seq<char>) -> Seq<Seq<char>> {
    dot_state(s).0.push(dot_state(s).1)
}

/// An ASCII digit.
pub open spec fn is_digit(c: char) -> bool {
    '0' <= c <= '9'
}

/// The value of a string of digits.
pub open spec fn digits_value(d: Seq<char>) -> nat
    decreases d.len(),
{
    if d.len() == 0 {
        0
    } else {
        digits_value(d.drop_last()) * 10 + ((d.last() as int) - ('0' as int)) as nat
    }
}

/// Every character is an ASCII digit.
pub open spec fn all_digits(d: Seq<char>) -> bool {
    forall|i: int| 0 <= i < d.len() ==> is_digit(#[trigger] d[i])
}

/// The digits of a number: the text after an optional leading `+`.
pub open spec fn unsigned_digits(p: Seq<char>) -> Seq<char> {
    if p.len() > 0 && p[0] == '+' {
        p.skip(1)
    } else {
        p
    }
}

/// `str::parse::<u32>`: an optional `+`, then one or more ASCII digits
/// whose value fits in a `u32`.
pub open spec fn parse_u32(p: Seq<char>) -> Option<u32> {
    let d = unsigned_digits(p);
    if d.len() > 0 && all_digits(d) && digits_value(d) <= u32::MAX {
        Some(digits_value(d) as u32)
    } else {
        None
    }
}

/// The parts that parse as numbers, in order (`filter_map(parse)`).
pub open spec fn numbers(parts: Seq<Seq<char>>) -> Seq<u32>
    decreases parts.len(),
{
    if parts.len() == 0 {
        seq![]
    } else {
        match parse_u32(parts.last()) {
            Some(v) => numbers(parts.drop_last()).push(v),
            None => numbers(parts.drop_last()),
        }
    }
}

/// The (major, minor) version in a `git --version` line such as
/// `git version 2.50.1 (Apple Git-155)`: the first two numbers among the
/// dot-separated parts of its version word, 0 where missing.
pub open spec fn version_of(raw: Seq<char>) -> (u32, u32) {
    let ns = numbers(dot_parts(version_word(raw)));
    (if ns.len() > 0 {
        ns[0]
    } else {
        0
    }, if ns.len() > 1 {
        ns[1]
    } else {
        0
    })
}

/// Whether a version has `worktree add --orphan` (2.42 or later).
pub open spec fn version_supported(v: (u32, u32)) -> bool {
    v.0 > 2 || (v.0 == 2 && v.1 >= 42)
}

proof fn lemma_digits_value_prefix(d: Seq<char>, k: int)
    requires
        0 <= k <= d.len(),
        forall|i: int| 0 <= i < d.len() ==> is_digit(#[trigger] d[i]),
    ensures
        digits_value(d.take(k)) <= digits_value(d),
    decreases d.len() - k,
{
    if k < d.len() {
        lemma_digits_value_prefix(d, k + 1);
        assert(d.take(k + 1).drop_last() == d.take(k));
        assert(is_digit(d[k]));
    } else {
        assert(d.take(k) == d);
    }
}

/// `s.parse::<u32>().ok()`.
pub fn parse_number(s: &[char]) -> (r: Option<u32>)
    ensures
        r == parse_u32(s@),
{
    let start: usize = if s.len() > 0 && s[0] == '+' {
        1
    } else {
        0
    };
    let ghost d = s@.skip(start as int);
    assert(start == 0 ==> d == s@);
    assert(d == unsigned_digits(s@));
    if start >= s.len() {
        return None;
    }
    let mut acc: u64 = 0;
    let mut i: usize = start;
    while i < s.len()
        invariant
            start <= i <= s.len(),
            start < s.len(),
            d == s@.skip(start as int),
            d == unsigned_digits(s@),
            forall|j: int| 0 <= j < i - start ==> is_digit(#[trigger] d[j]),
            acc == digits_value(d.take(i - start)),
            acc <= u32::MAX,
        decreases s.len() - i,
    {
        let c = s[i];
        if !('0' <= c && c <= '9') {
            proof {
                assert(!is_digit(d[i - start]));
            }
            return None;
        }
        let v = (c as u32 - '0' as u32) as u64;
        assert(d.take(i + 1 - start).drop_last() == d.take(i - start));
        assert(d.take(i + 1 - start).last() == c);
        acc = acc * 10 + v;
        i = i + 1;
        if acc > 0xFFFF_FFFF {
            proof {
                if all_digits(d) {
                    lemma_digits_value_prefix(d, i - start);
                }
            }
            return None;
        }
    }
    assert(d.take(s.len() - start) == d);
    Some(acc as u32)
}

/// The (major, minor) version in a `git --version` line.
pub fn git_version(raw: &str) -> (v: (u32, u32))
    ensures
        v == version_of(raw@),
{
    let cs = chars_of(raw);
    let mut done: Vec<Vec<char>> = Vec::new();
    let mut cur: Vec<char> = Vec::new();
    let mut i: usize = 0;
    while i < cs.len()
        invariant
            i <= cs.len(),
            done@.map_values(|v: Vec<char>| v@) == word_state(cs@.take(i as int)).0,
            cur@ == word_state(cs@.take(i as int)).1,
        decreases cs.len() - i,
    {
        assert(cs@.take(i + 1).drop_last() == cs@.take(i as int));
        if is_whitespace(cs[i]) {
            if cur.len() > 0 {
                let ghost before = done@;
                let w = cur;
                done.push(w);
                assert(done@.map_values(|v: Vec<char>| v@) =~= before.map_values(
                    |v: Vec<char>| v@,
                ).push(w@));
                cur = Vec::new();
            } else {
                cur = Vec::new();
            }
        } else {
            cur.push(cs[i]);
        }
        i = i + 1;
    }
    assert(cs@.take(cs.len() as int) == cs@);
    let ghost ws = words(raw@);
    if cur.len() > 0 {
        let ghost before = done@;
        let w = cur;
        done.push(w);
        assert(done@.map_values(|v: Vec<char>| v@) =~= before.map_values(|v: Vec<char>| v@).push(
            w@,
        ));
    }
    assert(done@.map_values(|v: Vec<char>| v@) == ws);
    let word: Vec<char> = if done.len() >= 3 {
        assert(done@[2]@ == ws[2]);
        done[2].clone()
    } else if done.len() > 0 {
        assert(done@[done.len() - 1]@ == ws.last());
        done[done.len() - 1].clone()
    } else {
        Vec::new()
    };
    assert(word@ == version_word(raw@));
    let mut nums: Vec<u32> = Vec::new();
    let mut cur: Vec<char> = Vec::new();
    let mut i: usize = 0;
    while i < word.len()
        invariant
            i <= word.len(),
            nums@ == numbers(dot_state(word@.take(i as int)).0),
            cur@ == dot_state(word@.take(i as int)).1,
        decreases word.len() - i,
    {
        assert(word@.take(i + 1).drop_last() == word@.take(i as int));
        if word[i] == '.' {
            let ghost done = dot_state(word@.take(i as int)).0;
            assert(done.push(cur@).drop_last() == done);
            match parse_number(cur.as_slice()) {
                Some(v) => nums.push(v),
                None => {},
            }
            cur = Vec::new();
        } else {
            cur.push(word[i]);
        }
        i = i + 1;
    }
    assert(word@.take(word.len() as int) == word@);
    let ghost done = dot_state(word@).0;
    assert(done.push(cur@).drop_last() == done);
    match parse_number(cur.as_slice()) {
        Some(v) => nums.push(v),
        None => {},
    }
    let major = if nums.len() > 0 {
        nums[0]
    } else {
        0
    };
    let minor = if nums.len() > 1 {
        nums[1]
    } else {
        0
    };
    (major, minor)
}

/// Check git's version line: `worktree add --orphan` needs git 2.42 or
/// later; an older (or unreadable) version is refused, naming the line.
pub fn ensure_version(raw: &str) -> (r: Result<(), crate::error::IssueError>)
    ensures
        match r {
            Ok(_) => version_supported(version_of(raw@)),
            Err(e) => {
                &&& !version_supported(version_of(raw@))
                &&& e matches crate::error::IssueError::GitTooOld { found } && found@ == raw@
            },
        },
{
    let (major, minor) = git_version(raw);
    if major > 2 || (major == 2 && minor >= 42) {
        Ok(())
    } else {
        Err(crate::error::IssueError::GitTooOld { found: raw.to_owned() })
    }
}

} // verus!

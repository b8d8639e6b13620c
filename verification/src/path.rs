//! Unix path text: joining, absoluteness, and the parts of a file name.

use vstd::prelude::*;
use crate::text::{chars_of, push_char, push_str, string_of};

verus! {

/// `Path::join` on Unix: an absolute `b` replaces `a`; otherwise `b` is
/// appended, with a `/` between unless `a` is empty or already ends in one.
pub open spec fn path_join(a: Seq<char>, b: Seq<char>) -> Seq<char> {
    if b.len() > 0 && b[0] == '/' {
        b
    } else if a.len() == 0 || a.last() == '/' {
        a + b
    } else {
        a + seq!['/'] + b
    }
}

/// `Path::is_absolute` on Unix: the path starts at the root.
pub open spec fn is_absolute(p: Seq<char>) -> bool {
    p.len() > 0 && p[0] == '/'
}

/// `a` joined with `b` as `Path::join` does.
pub fn join_path(a: &str, b: &str) -> (out: String)
    ensures
        out@ == path_join(a@, b@),
{
    let bc = chars_of(b);
    if bc.len() > 0 && bc[0] == '/' {
        return string_of(bc.as_slice());
    }
    let ac = chars_of(a);
    let mut out = string_of(ac.as_slice());
    if ac.len() > 0 && ac[ac.len() - 1] != '/' {
        push_char(&mut out, '/');
    }
    push_str(&mut out, b);
    out
}

/// Whether a path is absolute.
pub fn path_is_absolute(p: &str) -> (r: bool)
    ensures
        r == is_absolute(p@),
{
    let cs = chars_of(p);
    cs.len() > 0 && cs[0] == '/'
}

/// `Path::file_name`: the final component of a path, if it is a name.
pub uninterp spec fn std_file_name(p: Seq<char>) -> Option<Seq<char>>;

/// `Path::parent`: the path without its final component, if there is one.
pub uninterp spec fn std_parent(p: Seq<char>) -> Option<Seq<char>>;

/// `Path::new(p).file_name()`, converted to text (lossily;
/// paths here are always valid UTF-8, so nothing is lost). The result is
/// named by `std_file_name`; what it is on given paths is left to std.
#[verifier::external_body]
pub(crate) fn file_name(p: &str) -> (r: Option<String>)
    ensures
        match r {
            Some(n) => std_file_name(p@) == Some(n@),
            None => std_file_name(p@) is None,
        },
{
    match std::path::Path::new(p).file_name() {
        Some(n) => Some(n.to_string_lossy().into_owned()),
        None => None,
    }
}

/// `Path::new(p).parent()`, converted to text. The result is named by
/// `std_parent`; what it is on given paths is left to std.
#[verifier::external_body]
pub(crate) fn parent(p: &str) -> (r: Option<String>)
    ensures
        match r {
            Some(n) => std_parent(p@) == Some(n@),
            None => std_parent(p@) is None,
        },
{
    match std::path::Path::new(p).parent() {
        Some(n) => Some(n.to_string_lossy().into_owned()),
        None => None,
    }
}

/// Position of the last `.` in a file name.
pub open spec fn last_dot(name: Seq<char>) -> Option<int>
    decreases name.len(),
{
    if name.len() == 0 {
        None
    } else if name.last() == '.' {
        Some(name.len() - 1)
    } else {
        last_dot(name.drop_last())
    }
}

/// `Path::extension` of a one-component file name: the text after the last
/// `.`, unless that dot starts the name or the name is `..`.
pub open spec fn extension_of(name: Seq<char>) -> Option<Seq<char>> {
    if name == seq!['.', '.'] {
        None
    } else {
        match last_dot(name) {
            Some(i) => if i == 0 {
                None
            } else {
                Some(name.skip(i + 1))
            },
            None => None,
        }
    }
}

/// `Path::file_stem` of a one-component file name: the text before the last
/// `.`, or the whole name when `extension_of` finds none.
pub open spec fn stem_of(name: Seq<char>) -> Seq<char> {
    if name == seq!['.', '.'] {
        name
    } else {
        match last_dot(name) {
            Some(i) => if i == 0 {
                name
            } else {
                name.take(i)
            },
            None => name,
        }
    }
}

/// Position of the last `.` in `cs`.
fn find_last_dot(cs: &[char]) -> (r: Option<usize>)
    ensures
        match r {
            Some(i) => i < cs.len() && last_dot(cs@) == Some(i as int),
            None => last_dot(cs@) is None,
        },
{
    let mut k: usize = cs.len();
    assert(cs@.take(k as int) == cs@);
    while k > 0
        invariant
            k <= cs.len(),
            last_dot(cs@) == last_dot(cs@.take(k as int)),
        decreases k,
    {
        if cs[k - 1] == '.' {
            return Some(k - 1);
        }
        assert(cs@.take(k as int).drop_last() == cs@.take(k - 1));
        k = k - 1;
    }
    None
}

/// Whether a name is `..`.
fn is_dot_dot(cs: &[char]) -> (r: bool)
    ensures
        r == (cs@ == seq!['.', '.']),
{
    if cs.len() == 2 && cs[0] == '.' && cs[1] == '.' {
        assert(cs@ == seq!['.', '.']);
        true
    } else {
        false
    }
}

/// The extension of a file name, as `Path::extension` gives it.
pub fn extension(name: &str) -> (r: Option<String>)
    ensures
        match r {
            Some(e) => extension_of(name@) == Some(e@),
            None => extension_of(name@) is None,
        },
{
    let cs = chars_of(name);
    if is_dot_dot(cs.as_slice()) {
        return None;
    }
    match find_last_dot(cs.as_slice()) {
        Some(i) => {
            if i == 0 {
                None
            } else {
                let mut out = String::new();
                let mut j = i + 1;
                while j < cs.len()
                    invariant
                        i < j <= cs.len(),
                        out@ == cs@.subrange(i + 1, j as int),
                    decreases cs.len() - j,
                {
                    push_char(&mut out, cs[j]);
                    j = j + 1;
                    assert(out@ =~= cs@.subrange(i + 1, j as int));
                }
                assert(cs@.subrange(i + 1, cs.len() as int) == cs@.skip(i + 1));
                Some(out)
            }
        },
        None => None,
    }
}

/// The stem of a file name, as `Path::file_stem` gives it.
pub fn file_stem(name: &str) -> (r: String)
    ensures
        r@ == stem_of(name@),
{
    let cs = chars_of(name);
    if is_dot_dot(cs.as_slice()) {
        return string_of(cs.as_slice());
    }
    match find_last_dot(cs.as_slice()) {
        Some(i) => {
            if i == 0 {
                string_of(cs.as_slice())
            } else {
                let mut out = String::new();
                let mut j: usize = 0;
                while j < i
                    invariant
                        j <= i < cs.len(),
                        out@ == cs@.take(j as int),
                    decreases i - j,
                {
                    push_char(&mut out, cs[j]);
                    j = j + 1;
                    assert(out@ =~= cs@.take(j as int));
                }
                out
            }
        },
        None => string_of(cs.as_slice()),
    }
}

} // verus!

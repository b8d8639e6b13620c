//! Small helpers: UTC timestamps, slugs, and random issue IDs.

use vstd::prelude::*;
use rand::Rng;
use crate::text::{push_char, chars_of};

verus! {

// ---------------------------------------------------------------------------
// Slugs
// ---------------------------------------------------------------------------

/// An ASCII letter or digit (`char::is_ascii_alphanumeric`).
pub open spec fn is_ascii_alnum(c: char) -> bool {
    let u = c as u32;
    (0x30 <= u <= 0x39) || (0x41 <= u <= 0x5A) || (0x61 <= u <= 0x7A)
}

/// `char::to_ascii_lowercase`: ASCII capitals become small letters.
pub open spec fn ascii_lower(c: char) -> char {
    let u = c as u32;
    if 0x41 <= u <= 0x5A {
        (u + 32) as char
    } else {
        c
    }
}

/// A small ASCII letter or an ASCII digit.
pub open spec fn is_lower_alnum(c: char) -> bool {
    let u = c as u32;
    (0x30 <= u <= 0x39) || (0x61 <= u <= 0x7A)
}

/// The slug built so far from `s`, and whether it ends in a dash (or is
/// empty): letters and digits are kept in lower case, and every run of other
/// characters becomes one dash, never a leading one.
pub open spec fn slug_state(s: Seq<char>) -> (Seq<char>, bool)
    decreases s.len(),
{
    if s.len() == 0 {
        (seq![], true)
    } else {
        let (out, dash) = slug_state(s.drop_last());
        let c = s.last();
        if is_ascii_alnum(c) {
            (out.push(ascii_lower(c)), false)
        } else if !dash {
            (out.push('-'), true)
        } else {
            (out, dash)
        }
    }
}

/// `s` without leading dashes.
pub open spec fn trim_dash_start(s: Seq<char>) -> Seq<char>
    decreases s.len(),
{
    if s.len() > 0 && s[0] == '-' {
        trim_dash_start(s.skip(1))
    } else {
        s
    }
}

/// `s` without trailing dashes.
pub open spec fn trim_dash_end(s: Seq<char>) -> Seq<char>
    decreases s.len(),
{
    if s.len() > 0 && s.last() == '-' {
        trim_dash_end(s.drop_last())
    } else {
        s
    }
}

/// The longest a slug gets.
pub open spec fn max_slug_len() -> nat {
    40
}

/// The slug of an empty or symbol-only title.
pub open spec fn fallback_slug() -> Seq<char> {
    seq!['i', 's', 's', 'u', 'e']
}

/// The slug of a title: lower-case letters and digits with single dashes
/// between words, at most forty characters, `issue` when nothing is left.
pub open spec fn slug_spec(title: Seq<char>) -> Seq<char> {
    let trimmed = trim_dash_end(trim_dash_start(slug_state(title).0));
    let cut = if trimmed.len() > max_slug_len() {
        trimmed.take(max_slug_len() as int)
    } else {
        trimmed
    };
    let s = trim_dash_end(cut);
    if s.len() == 0 {
        fallback_slug()
    } else {
        s
    }
}

/// What every slug looks like: one to forty characters, small letters,
/// digits and dashes only, no dash at either end and no two dashes in a row.
pub open spec fn is_slug(s: Seq<char>) -> bool {
    &&& 0 < s.len() <= max_slug_len()
    &&& forall|i: int| 0 <= i < s.len() ==> is_lower_alnum(#[trigger] s[i]) || s[i] == '-'
    &&& s[0] != '-'
    &&& s.last() != '-'
    &&& forall|i: int| 0 <= i < s.len() - 1 ==> !(#[trigger] s[i] == '-' && s[i + 1] == '-')
}

/// Characters are small letters, digits or dashes, with no two dashes in a
/// row.
pub open spec fn slug_body(s: Seq<char>) -> bool {
    &&& forall|i: int| 0 <= i < s.len() ==> is_lower_alnum(#[trigger] s[i]) || s[i] == '-'
    &&& forall|i: int| 0 <= i < s.len() - 1 ==> !(#[trigger] s[i] == '-' && s[i + 1] == '-')
}

proof fn lemma_lower_of_alnum(c: char)
    requires
        is_ascii_alnum(c),
    ensures
        is_lower_alnum(ascii_lower(c)),
{
}

/// The slug being built keeps the slug shape and records its last dash.
proof fn lemma_slug_state(s: Seq<char>)
    ensures
        slug_body(slug_state(s).0),
        slug_state(s).0.len() > 0 ==> slug_state(s).0[0] != '-',
        slug_state(s).1 == (slug_state(s).0.len() == 0 || slug_state(s).0.last() == '-'),
        slug_state(s).0.len() <= s.len(),
    decreases s.len(),
{
    if s.len() > 0 {
        lemma_slug_state(s.drop_last());
        let (out, dash) = slug_state(s.drop_last());
        let c = s.last();
        if is_ascii_alnum(c) {
            lemma_lower_of_alnum(c);
            let o = out.push(ascii_lower(c));
            assert forall|i: int| 0 <= i < o.len() implies is_lower_alnum(#[trigger] o[i]) || o[i]
                == '-' by {
                if i < out.len() {
                    assert(o[i] == out[i]);
                }
            }
            assert forall|i: int| 0 <= i < o.len() - 1 implies !(#[trigger] o[i] == '-' && o[i
                + 1] == '-') by {
                if i < out.len() - 1 {
                    assert(o[i] == out[i] && o[i + 1] == out[i + 1]);
                }
            }
            if out.len() > 0 {
                assert(o[0] == out[0]);
            }
        } else if !dash {
            let o = out.push('-');
            assert forall|i: int| 0 <= i < o.len() implies is_lower_alnum(#[trigger] o[i]) || o[i]
                == '-' by {
                if i < out.len() {
                    assert(o[i] == out[i]);
                }
            }
            assert forall|i: int| 0 <= i < o.len() - 1 implies !(#[trigger] o[i] == '-' && o[i
                + 1] == '-') by {
                if i < out.len() - 1 {
                    assert(o[i] == out[i] && o[i + 1] == out[i + 1]);
                } else {
                    assert(o[i] == out.last());
                }
            }
            assert(o[0] == out[0]);
        }
    }
}

/// A contiguous part of a slug body is a slug body.
proof fn lemma_slug_body_subrange(s: Seq<char>, a: int, b: int)
    requires
        slug_body(s),
        0 <= a <= b <= s.len(),
    ensures
        slug_body(s.subrange(a, b)),
{
    let t = s.subrange(a, b);
    assert forall|i: int| 0 <= i < t.len() implies is_lower_alnum(#[trigger] t[i]) || t[i]
        == '-' by {
        assert(t[i] == s[a + i]);
    }
    assert forall|i: int| 0 <= i < t.len() - 1 implies !(#[trigger] t[i] == '-' && t[i + 1]
        == '-') by {
        assert(t[i] == s[a + i] && t[i + 1] == s[a + i + 1]);
    }
}

/// Trimming dashes from the start keeps a suffix that does not start with one.
proof fn lemma_trim_dash_start(s: Seq<char>)
    ensures
        exists|k: int| 0 <= k <= s.len() && #[trigger] trim_dash_start(s) == s.skip(k),
        trim_dash_start(s).len() > 0 ==> trim_dash_start(s)[0] != '-',
    decreases s.len(),
{
    if s.len() > 0 && s[0] == '-' {
        lemma_trim_dash_start(s.skip(1));
        let k = choose|k: int|
            0 <= k <= s.skip(1).len() && #[trigger] trim_dash_start(s.skip(1)) == s.skip(1).skip(k);
        assert(s.skip(1).skip(k) == s.skip(k + 1));
    } else {
        assert(s.skip(0) == s);
    }
}

/// Trimming dashes from the end keeps a prefix that does not end with one.
proof fn lemma_trim_dash_end(s: Seq<char>)
    ensures
        exists|k: int| 0 <= k <= s.len() && #[trigger] trim_dash_end(s) == s.take(k),
        trim_dash_end(s).len() > 0 ==> trim_dash_end(s).last() != '-',
    decreases s.len(),
{
    if s.len() > 0 && s.last() == '-' {
        lemma_trim_dash_end(s.drop_last());
        let k = choose|k: int|
            0 <= k <= s.drop_last().len() && #[trigger] trim_dash_end(s.drop_last())
                == s.drop_last().take(k);
        assert(s.drop_last().take(k) == s.take(k));
    } else {
        assert(s.take(s.len() as int) == s);
    }
}

/// Every slug has the slug shape.
pub proof fn law_slug_shape(title: Seq<char>)
    ensures
        is_slug(slug_spec(title)),
{
    let raw = slug_state(title).0;
    lemma_slug_state(title);
    lemma_trim_dash_start(raw);
    let k1 = choose|k: int| 0 <= k <= raw.len() && #[trigger] trim_dash_start(raw) == raw.skip(k);
    let a = trim_dash_start(raw);
    lemma_slug_body_subrange(raw, k1, raw.len() as int);
    assert(raw.subrange(k1, raw.len() as int) == a);
    lemma_trim_dash_end(a);
    let k2 = choose|k: int| 0 <= k <= a.len() && #[trigger] trim_dash_end(a) == a.take(k);
    let b = trim_dash_end(a);
    lemma_slug_body_subrange(a, 0, k2);
    assert(a.subrange(0, k2) == b);
    if b.len() > 0 {
        assert(b[0] == a[0]);
    }
    let cut = if b.len() > max_slug_len() {
        b.take(max_slug_len() as int)
    } else {
        b
    };
    lemma_slug_body_subrange(b, 0, cut.len() as int);
    assert(b.subrange(0, cut.len() as int) == cut);
    if cut.len() > 0 {
        assert(cut[0] == b[0]);
    }
    lemma_trim_dash_end(cut);
    let k3 = choose|k: int| 0 <= k <= cut.len() && #[trigger] trim_dash_end(cut) == cut.take(k);
    let s = trim_dash_end(cut);
    lemma_slug_body_subrange(cut, 0, k3);
    assert(cut.subrange(0, k3) == s);
    if s.len() > 0 {
        assert(s[0] == cut[0]);
    } else {
        let f = fallback_slug();
        assert(is_lower_alnum(f[0]) && is_lower_alnum(f[1]) && is_lower_alnum(f[2])
            && is_lower_alnum(f[3]) && is_lower_alnum(f[4]));
        assert(forall|i: int| 0 <= i < f.len() ==> is_lower_alnum(#[trigger] f[i]));
    }
}

/// A slug is its own slug.
pub proof fn law_slug_fixed_point(s: Seq<char>)
    requires
        is_slug(s),
    ensures
        slug_spec(s) == s,
{
    lemma_slug_prefix_state(s, s.len() as int);
    assert(s.take(s.len() as int) == s);
}

/// Slugging a slug changes nothing: `slugify(slugify(t)) == slugify(t)`.
pub proof fn law_slug_idempotent(title: Seq<char>)
    ensures
        slug_spec(slug_spec(title)) == slug_spec(title),
{
    law_slug_shape(title);
    law_slug_fixed_point(slug_spec(title));
}

/// `char::to_ascii_uppercase`: ASCII small letters become capitals.
pub open spec fn ascii_upper(c: char) -> char {
    let u = c as u32;
    if 0x61 <= u <= 0x7A {
        (u - 32) as char
    } else {
        c
    }
}

/// `str::to_ascii_uppercase`: the text with its ASCII letters in capitals.
pub open spec fn upper_text(t: Seq<char>) -> Seq<char> {
    t.map_values(|c: char| ascii_upper(c))
}

/// Upper-casing a title changes none of the slug's steps.
proof fn lemma_slug_state_upper(t: Seq<char>)
    ensures
        slug_state(upper_text(t)) == slug_state(t),
    decreases t.len(),
{
    if t.len() > 0 {
        lemma_slug_state_upper(t.drop_last());
        assert(upper_text(t).drop_last() =~= upper_text(t.drop_last()));
        let c = t.last();
        assert(upper_text(t).last() == ascii_upper(c));
        let u = c as u32;
        if 0x61 <= u <= 0x7A {
            assert(((u - 32) as char) as u32 == u - 32);
        }
    }
}

/// Upper-casing a title leaves its slug unchanged:
/// `slugify(&t.to_ascii_uppercase()) == slugify(t)`.
pub proof fn law_slug_ignores_case(title: Seq<char>)
    ensures
        slug_spec(upper_text(title)) == slug_spec(title),
{
    lemma_slug_state_upper(title);
}

/// Reading a prefix of a slug rebuilds that prefix.
proof fn lemma_slug_prefix_state(s: Seq<char>, n: int)
    requires
        is_slug(s),
        0 <= n <= s.len(),
    ensures
        slug_state(s.take(n)) == (s.take(n), n == 0 || s[n - 1] == '-'),
    decreases n,
{
    if n > 0 {
        lemma_slug_prefix_state(s, n - 1);
        assert(s.take(n).drop_last() == s.take(n - 1));
        let c = s[n - 1];
        assert(s.take(n).last() == c);
        if c == '-' {
            assert(n - 1 > 0);
            assert(s[n - 2] != '-');
        }
        assert(s.take(n - 1).push(c) == s.take(n));
    }
}

/// Whether `c` is an ASCII letter or digit.
pub fn is_ascii_alphanumeric(c: char) -> (r: bool)
    ensures
        r == is_ascii_alnum(c),
{
    let u = c as u32;
    (0x30 <= u && u <= 0x39) || (0x41 <= u && u <= 0x5A) || (0x61 <= u && u <= 0x7A)
}

/// `c` with ASCII capitals made small.
pub fn to_ascii_lowercase(c: char) -> (r: char)
    ensures
        r == ascii_lower(c),
{
    if 'A' <= c && c <= 'Z' {
        let u = (c as u32) + 32;
        let b = u as u8;
        b as char
    } else {
        c
    }
}

/// Turn an arbitrary title into a lowercase, hyphen-separated slug.
pub fn slugify(title: &str) -> (slug: String)
    ensures
        slug@ == slug_spec(title@),
{
    let cs = chars_of(title);
    let mut out: Vec<char> = Vec::new();
    let mut prev_dash = true;
    let mut i: usize = 0;
    while i < cs.len()
        invariant
            i <= cs.len(),
            cs@ == title@,
            (out@, prev_dash) == slug_state(cs@.take(i as int)),
        decreases cs.len() - i,
    {
        assert(cs@.take(i + 1).drop_last() == cs@.take(i as int));
        let ch = cs[i];
        if is_ascii_alphanumeric(ch) {
            out.push(to_ascii_lowercase(ch));
            prev_dash = false;
        } else if !prev_dash {
            out.push('-');
            prev_dash = true;
        }
        i = i + 1;
    }
    assert(cs@.take(cs.len() as int) == cs@);
    // Trim dashes at both ends.
    let mut lo: usize = 0;
    assert(out@.skip(0) == out@);
    while lo < out.len() && out[lo] == '-'
        invariant
            lo <= out.len(),
            trim_dash_start(out@) == trim_dash_start(out@.skip(lo as int)),
        decreases out.len() - lo,
    {
        assert(out@.skip(lo as int).skip(1) == out@.skip(lo + 1));
        lo = lo + 1;
    }
    let ghost a = out@.skip(lo as int);
    let mut hi: usize = out.len();
    assert(a.take(hi - lo) == a);
    while hi > lo && out[hi - 1] == '-'
        invariant
            lo <= hi <= out.len(),
            a == out@.skip(lo as int),
            trim_dash_end(a) == trim_dash_end(a.take(hi - lo)),
        decreases hi,
    {
        assert(a.take(hi - lo).drop_last() == a.take(hi - 1 - lo));
        hi = hi - 1;
    }
    let ghost b = a.take(hi - lo);
    // Keep at most the maximum number of characters.
    let end = if hi - lo > 40 {
        lo + 40
    } else {
        hi
    };
    let ghost cut = b.take(end - lo);
    assert(b.len() > max_slug_len() ==> cut == b.take(max_slug_len() as int));
    assert(b.len() <= max_slug_len() ==> cut == b);
    let mut stop: usize = end;
    assert(cut.take(stop - lo) == cut);
    while stop > lo && out[stop - 1] == '-'
        invariant
            lo <= stop <= end <= hi <= out.len(),
            a == out@.skip(lo as int),
            b == a.take(hi - lo),
            cut == b.take(end - lo),
            trim_dash_end(cut) == trim_dash_end(cut.take(stop - lo)),
        decreases stop,
    {
        assert(cut.take(stop - lo).drop_last() == cut.take(stop - 1 - lo));
        stop = stop - 1;
    }
    let mut slug = String::new();
    if stop == lo {
        push_char(&mut slug, 'i');
        push_char(&mut slug, 's');
        push_char(&mut slug, 's');
        push_char(&mut slug, 'u');
        push_char(&mut slug, 'e');
        assert(slug@ =~= fallback_slug());
    } else {
        let mut j: usize = lo;
        while j < stop
            invariant
                lo <= j <= stop <= out.len(),
                slug@ == out@.subrange(lo as int, j as int),
            decreases stop - j,
        {
            push_char(&mut slug, out[j]);
            j = j + 1;
            assert(slug@ =~= out@.subrange(lo as int, j as int));
        }
        assert(slug@ =~= cut.take(stop - lo));
    }
    slug
}

// ---------------------------------------------------------------------------
// Issue IDs
// ---------------------------------------------------------------------------

/// The characters random suffixes are drawn from: `a`–`z` then `0`–`9`.
pub const ALPHABET: [char; 36] = [
    'a', 'b', 'c', 'd', 'e', 'f', 'g', 'h', 'i', 'j', 'k', 'l', 'm', 'n', 'o', 'p', 'q', 'r', 's',
    't', 'u', 'v', 'w', 'x', 'y', 'z', '0', '1', '2', '3', '4', '5', '6', '7', '8', '9',
];

/// The thread-local random number generator of `rand`.
#[verifier::external_type_specification]
#[verifier::external_body]
pub struct ExThreadRng(rand::rngs::ThreadRng);

/// `rand::thread_rng`: the lazily seeded thread-local generator.
#[verifier::external_body]
fn thread_rng() -> rand::rngs::ThreadRng {
    rand::thread_rng()
}

/// `Rng::gen_range(0..n)`: a random index below `n` (it panics on an empty
/// range, so `n` must be positive). Which index comes out is chance.
#[verifier::external_body]
fn gen_index(rng: &mut rand::rngs::ThreadRng, n: usize) -> (r: usize)
    requires
        n > 0,
    ensures
        r < n,
{
    rng.gen_range(0..n)
}

/// Length of the random part of an issue ID.
pub open spec fn suffix_len() -> nat {
    4
}

/// A random suffix: four small letters or digits.
pub open spec fn is_suffix(s: Seq<char>) -> bool {
    s.len() == suffix_len() && forall|i: int| 0 <= i < s.len() ==> is_lower_alnum(#[trigger] s[i])
}

/// Draws fit for a suffix: four indices into the alphabet.
pub open spec fn valid_draws(draws: Seq<usize>) -> bool {
    draws.len() == suffix_len() && forall|i: int| 0 <= i < draws.len() ==> #[trigger] draws[i] < 36
}

/// The suffix the given indices pick from the alphabet.
pub open spec fn suffix_of(draws: Seq<usize>) -> Seq<char> {
    draws.map_values(|d: usize| ALPHABET@[d as int])
}

/// Four random indices into the alphabet, the random part of an issue ID that
/// keeps IDs unique across machines without any shared counter. Which ones
/// come out is chance.
fn random_draws() -> (draws: Vec<usize>)
    ensures
        valid_draws(draws@),
{
    let mut rng = thread_rng();
    let mut out: Vec<usize> = Vec::new();
    let mut k: usize = 0;
    while k < 4
        invariant
            k <= 4,
            out@.len() == k,
            forall|i: int| 0 <= i < out@.len() ==> #[trigger] out@[i] < 36,
        decreases 4 - k,
    {
        let idx = gen_index(&mut rng, 36);
        out.push(idx);
        k = k + 1;
    }
    out
}

/// The issue ID for `title` with the suffix that `draws` pick from the
/// alphabet: `<slug>-<suffix>`.
pub fn id_from_draws(title: &str, draws: &[usize]) -> (id: String)
    requires
        valid_draws(draws@),
    ensures
        id@ == id_spec(title@, suffix_of(draws@)),
        is_suffix(suffix_of(draws@)),
{
    assert(forall|i: int| 0 <= i < 36 ==> is_lower_alnum(#[trigger] ALPHABET@[i]));
    let mut id = slugify(title);
    push_char(&mut id, '-');
    let ghost start = id@;
    let mut k: usize = 0;
    while k < draws.len()
        invariant
            valid_draws(draws@),
            k <= draws.len(),
            id@ == start + suffix_of(draws@.take(k as int)),
        decreases draws.len() - k,
    {
        let c = ALPHABET[draws[k]];
        push_char(&mut id, c);
        assert(suffix_of(draws@.take(k + 1)) =~= suffix_of(draws@.take(k as int)).push(c));
        k = k + 1;
    }
    assert(draws@.take(draws.len() as int) =~= draws@);
    let ghost sfx = suffix_of(draws@);
    assert forall|i: int| 0 <= i < sfx.len() implies is_lower_alnum(#[trigger] sfx[i]) by {
        assert(draws@[i] < 36);
    }
    id
}

/// An issue ID for `title` made of its slug, a dash and the given suffix.
pub open spec fn id_spec(title: Seq<char>, suffix: Seq<char>) -> Seq<char> {
    slug_spec(title) + seq!['-'] + suffix
}

/// Every issue ID is a slug, a dash and four small letters or digits, so it
/// holds only small letters, digits and dashes (no whitespace).
pub proof fn law_id_shape(title: Seq<char>, suffix: Seq<char>)
    requires
        is_suffix(suffix),
    ensures
        is_slug(id_spec(title, suffix).take(slug_spec(title).len() as int)),
        id_spec(title, suffix)[slug_spec(title).len() as int] == '-',
        id_spec(title, suffix).len() == slug_spec(title).len() + 5,
        forall|i: int|
            0 <= i < id_spec(title, suffix).len() ==> is_lower_alnum(#[trigger] id_spec(title, suffix)[i])
                || id_spec(title, suffix)[i] == '-',
{
    law_slug_shape(title);
    let s = slug_spec(title);
    let id = id_spec(title, suffix);
    assert(id.take(s.len() as int) == s);
    assert forall|i: int| 0 <= i < id.len() implies is_lower_alnum(#[trigger] id[i]) || id[i] == '-' by {
        if i < s.len() {
            assert(id[i] == s[i]);
        } else if i > s.len() {
            assert(id[i] == suffix[i - s.len() - 1]);
        }
    }
}

/// Build an issue ID from a title: `<slug>-<random4>`.
pub fn make_id(title: &str) -> (id: String)
    ensures
        exists|draws: Seq<usize>| #[trigger] valid_draws(draws) && id@ == id_spec(title@, suffix_of(draws)),
        exists|suffix: Seq<char>| #[trigger] is_suffix(suffix) && id@ == id_spec(title@, suffix),
{
    let draws = random_draws();
    let id = id_from_draws(title, draws.as_slice());
    assert(is_suffix(suffix_of(draws@)));
    id
}

// ---------------------------------------------------------------------------
// Timestamps
// ---------------------------------------------------------------------------

/// The decimal digit for `n` in `0..10`.
pub open spec fn digit(n: int) -> char {
    (48 + n) as char
}

/// `n` in `0..100` as two digits.
pub open spec fn two_digits(n: int) -> Seq<char> {
    seq![digit(n / 10), digit(n % 10)]
}

/// `n` in decimal, without leading zeros.
pub open spec fn decimal(n: nat) -> Seq<char>
    decreases n,
{
    if n < 10 {
        seq![digit(n as int)]
    } else {
        decimal(n / 10).push(digit((n % 10) as int))
    }
}

/// chrono's `%Y` for a year from 1970 on: four digits up to 9999, and a `+`
/// before the full number above that.
pub open spec fn year_text(y: int) -> Seq<char> {
    if y <= 9999 {
        seq![digit(y / 1000), digit(y / 100 % 10), digit(y / 10 % 10), digit(y % 10)]
    } else {
        seq!['+'] + decimal(y as nat)
    }
}

/// The text `%Y-%m-%dT%H:%M:%SZ` gives for the given date and time.
pub open spec fn timestamp_text(y: int, mo: int, d: int, h: int, mi: int, s: int) -> Seq<char> {
    year_text(y) + seq!['-'] + two_digits(mo) + seq!['-'] + two_digits(d) + seq!['T'] + two_digits(
        h,
    ) + seq![':'] + two_digits(mi) + seq![':'] + two_digits(s) + seq!['Z']
}

/// An ISO-8601 UTC timestamp such as `2026-07-02T12:34:56Z`, for some date
/// and time from the Unix epoch on.
pub open spec fn is_utc_timestamp(t: Seq<char>) -> bool {
    exists|y: int, mo: int, d: int, h: int, mi: int, s: int|
        1970 <= y && 1 <= mo <= 12 && 1 <= d <= 31 && 0 <= h < 24 && 0 <= mi < 60 && 0
            <= s <= 60 && t == #[trigger] timestamp_text(y, mo, d, h, mi, s)
}

/// The chrono format string of an ISO-8601 UTC timestamp.
pub open spec fn timestamp_format() -> Seq<char> {
    seq!['%', 'Y', '-', '%', 'm', '-', '%', 'd', 'T', '%', 'H', ':', '%', 'M', ':', '%', 'S', 'Z']
}

/// The seconds from the Unix epoch to the last instant chrono can hold,
/// 31 December 262142, 23:59:59 UTC.
pub open spec fn max_timestamp() -> int {
    8210266876799
}

/// chrono's `Utc::now().timestamp()`: the whole seconds since the Unix epoch
/// on the system clock. Which instant depends on the clock. `Utc::now`
/// panics when the clock is set before 1970 and returns only instants that
/// chrono can hold, so what comes back lies between 0 and the last of them;
/// the panic itself depends on no argument.
#[verifier::external_body]
fn now_seconds() -> (secs: i64)
    ensures
        0 <= secs <= max_timestamp(),
{
    chrono::Utc::now().timestamp()
}

/// A leap year of the Gregorian calendar.
pub open spec fn is_leap(y: int) -> bool {
    (y % 4 == 0 && y % 100 != 0) || y % 400 == 0
}

/// The days of year `y`.
pub open spec fn year_days(y: int) -> int {
    if is_leap(y) {
        366
    } else {
        365
    }
}

/// The days of month `m` (1 to 12) of year `y`.
pub open spec fn month_days(y: int, m: int) -> int {
    if m == 2 {
        if is_leap(y) {
            29
        } else {
            28
        }
    } else if m == 4 || m == 6 || m == 9 || m == 11 {
        30
    } else {
        31
    }
}

/// The days of year `y` from month `m` to the end of the year.
pub open spec fn rest_days(y: int, m: int) -> int
    decreases 13 - m,
{
    if m > 12 {
        0
    } else {
        month_days(y, m) + rest_days(y, m + 1)
    }
}

/// The month and day of the day `days` days (from 0) after the first of
/// month `m` of year `y`.
pub open spec fn month_day(y: int, m: int, days: int) -> (int, int)
    decreases 13 - m,
{
    if m >= 12 || days < month_days(y, m) {
        (m, days + 1)
    } else {
        month_day(y, m + 1, days - month_days(y, m))
    }
}

/// The date (year, month, day) `days` days after 1 January of year `y`.
pub open spec fn date_from(y: int, days: int) -> (int, int, int)
    decreases days,
{
    if days < year_days(y) || days < 0 {
        let (m, d) = month_day(y, 1, days);
        (y, m, d)
    } else {
        date_from(y + 1, days - year_days(y))
    }
}

/// The text of the instant `secs` seconds after the Unix epoch (UTC, whose
/// days all have 86400 seconds) in the timestamp format: its Gregorian date
/// and its time of day.
pub open spec fn utc_text(secs: int) -> Seq<char> {
    let (y, mo, d) = date_from(1970, secs / 86400);
    let r = secs % 86400;
    timestamp_text(y, mo, d, r / 3600, r % 3600 / 60, r % 60)
}

/// A year's months add up to the year.
proof fn lemma_rest_days_year(y: int)
    ensures
        rest_days(y, 1) == year_days(y),
        rest_days(y, 12) == month_days(y, 12),
{
    reveal_with_fuel(rest_days, 13);
}

/// A day within the months from `m` on falls in one of them.
proof fn lemma_month_day(y: int, m: int, days: int)
    requires
        1 <= m <= 12,
        0 <= days < rest_days(y, m),
    ensures
        m <= month_day(y, m, days).0 <= 12,
        1 <= month_day(y, m, days).1 <= month_days(y, month_day(y, m, days).0) <= 31,
    decreases 13 - m,
{
    lemma_rest_days_year(y);
    if m < 12 && days >= month_days(y, m) {
        lemma_month_day(y, m + 1, days - month_days(y, m));
    }
}

/// Every day from 1 January of year `y` on has a date in a year from `y` on.
proof fn lemma_date_from(y: int, days: int)
    requires
        0 <= days,
    ensures
        y <= date_from(y, days).0,
        1 <= date_from(y, days).1 <= 12,
        1 <= date_from(y, days).2 <= 31,
    decreases days,
{
    if days < year_days(y) {
        lemma_rest_days_year(y);
        lemma_month_day(y, 1, days);
    } else {
        lemma_date_from(y + 1, days - year_days(y));
    }
}

/// The text of an instant from the Unix epoch on is a timestamp.
proof fn lemma_utc_text_is_timestamp(secs: int)
    requires
        0 <= secs,
    ensures
        is_utc_timestamp(utc_text(secs)),
{
    let (y, mo, d) = date_from(1970, secs / 86400);
    lemma_date_from(1970, secs / 86400);
    let r = secs % 86400;
    assert(0 <= r / 3600 < 24);
    assert(0 <= r % 3600 / 60 < 60);
    assert(utc_text(secs) == timestamp_text(y, mo, d, r / 3600, r % 3600 / 60, r % 60));
}

/// chrono's `DateTime::<Utc>::from_timestamp(secs, 0)` formatted with `fmt`
/// and turned into a string. For an instant chrono can hold
/// `from_timestamp` gives its date in the (proleptic) Gregorian calendar and
/// its time of day, and the timestamp format writes them as
/// `%Y-%m-%dT%H:%M:%SZ` describes.
#[verifier::external_body]
fn format_timestamp(secs: i64, fmt: &str) -> (t: String)
    requires
        0 <= secs <= max_timestamp(),
        fmt@ == timestamp_format(),
    ensures
        t@ == utc_text(secs as int),
{
    chrono::DateTime::<chrono::Utc>::from_timestamp(secs, 0).unwrap().format(fmt).to_string()
}

/// The ISO-8601 UTC timestamp of an instant, given in seconds since the Unix
/// epoch, e.g. `2026-07-02T12:34:56Z` for 1782995696.
pub fn timestamp_at(secs: i64) -> (t: String)
    requires
        0 <= secs <= max_timestamp(),
    ensures
        t@ == utc_text(secs as int),
        is_utc_timestamp(t@),
{
    let fmt = "%Y-%m-%dT%H:%M:%SZ";
    proof {
        reveal_strlit("%Y-%m-%dT%H:%M:%SZ");
        assert(fmt@ =~= timestamp_format());
    }
    proof {
        lemma_utc_text_is_timestamp(secs as int);
    }
    format_timestamp(secs, fmt)
}

/// The current time as an ISO-8601 UTC timestamp, e.g. `2026-07-02T12:34:56Z`:
/// the timestamp of the clock's instant, which is at or after the Unix epoch.
pub fn utc_now() -> (t: String)
    ensures
        exists|secs: int| 0 <= secs <= max_timestamp() && t@ == #[trigger] utc_text(secs),
        is_utc_timestamp(t@),
{
    let secs = now_seconds();
    let t = timestamp_at(secs);
    assert(utc_text(secs as int) == t@);
    t
}

} // verus!

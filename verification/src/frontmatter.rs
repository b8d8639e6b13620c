//! A deliberately tiny front-matter format: `key: value` lines fenced by `---`.
//!
//! This is not YAML: only flat string fields are supported, which is all an
//! issue needs.

use vstd::prelude::*;
use crate::text::{
    chars_eq, chars_of, first_index, has_char, has_crlf, is_ws, join, lemma_first_index_at,
    lemma_join_lines_newline, lemma_line_state_append, lemma_line_state_one_line, lemma_trim_end,
    lemma_trim_space_prefix, lemma_trimmed_ends, line_state, lines_chars, lines_of, push_char,
    push_chars, push_str, split_once, split_once_chars, str_eq, string_of, strip_cr, trim,
    trim_chars, trim_end, trim_end_chars,
};

verus! {

/// The model of a field list: (key, value) pairs as character sequences.
pub type FieldsModel = Seq<(Seq<char>, Seq<char>)>;

/// An issue document: an ordered list of front-matter fields plus the body.
pub struct Document {
    /// (key, value) pairs, order preserved.
    pub fields: Vec<(String, String)>,
    /// Everything after the closing `---`.
    pub body: String,
}

impl View for Document {
    type V = (FieldsModel, Seq<char>);

    open spec fn view(&self) -> (FieldsModel, Seq<char>) {
        (fields_model(self.fields@), self.body@)
    }
}

/// The character-sequence model of a list of string pairs.
pub open spec fn fields_model(fields: Seq<(String, String)>) -> FieldsModel {
    fields.map_values(|p: (String, String)| (p.0@, p.1@))
}

// ---------------------------------------------------------------------------
// Specification of the format
// ---------------------------------------------------------------------------

/// The fence line `---`.
pub open spec fn fence() -> Seq<char> {
    seq!['-', '-', '-']
}

/// A line that opens or closes the front-matter (trailing whitespace ignored).
pub open spec fn is_fence(line: Seq<char>) -> bool {
    trim_end(line) == fence()
}

/// Position of the first fence line in `ls`.
pub open spec fn first_fence(ls: Seq<Seq<char>>) -> Option<int>
    decreases ls.len(),
{
    if ls.len() == 0 {
        None
    } else {
        match first_fence(ls.drop_last()) {
            Some(i) => Some(i),
            None => if is_fence(ls.last()) {
                Some(ls.len() - 1)
            } else {
                None
            },
        }
    }
}

/// The fields read from front-matter lines: every line holding a `:` gives
/// its trimmed key and value; other lines are ignored.
pub open spec fn fields_of_lines(ls: Seq<Seq<char>>) -> FieldsModel
    decreases ls.len(),
{
    if ls.len() == 0 {
        seq![]
    } else {
        let prev = fields_of_lines(ls.drop_last());
        match split_once(ls.last(), ':') {
            Some((k, v)) => prev.push((trim(k), trim(v))),
            None => prev,
        }
    }
}

/// The body lines after the closing fence, without one leading blank line.
pub open spec fn body_lines(rest: Seq<Seq<char>>) -> Seq<Seq<char>> {
    if rest.len() > 0 && trim(rest[0]).len() == 0 {
        rest.skip(1)
    } else {
        rest
    }
}

/// What `Document::parse` reads from `raw`: (fields, body).
pub open spec fn parse_spec(raw: Seq<char>) -> (FieldsModel, Seq<char>) {
    let ls = lines_of(raw);
    if ls.len() == 0 || !is_fence(ls[0]) {
        (seq![], raw)
    } else {
        match first_fence(ls.skip(1)) {
            None => (seq![], raw),
            Some(j) => {
                let close = j + 1;
                (
                    fields_of_lines(ls.subrange(1, close)),
                    join(body_lines(ls.skip(close + 1)), seq!['\n']),
                )
            },
        }
    }
}

/// Position of the first field with key `key`.
pub open spec fn key_index(fields: FieldsModel, key: Seq<char>) -> Option<int>
    decreases fields.len(),
{
    if fields.len() == 0 {
        None
    } else {
        match key_index(fields.drop_last(), key) {
            Some(i) => Some(i),
            None => if fields.last().0 == key {
                Some(fields.len() - 1)
            } else {
                None
            },
        }
    }
}

/// The value of the first field named `key`.
pub open spec fn lookup(fields: FieldsModel, key: Seq<char>) -> Option<Seq<char>> {
    match key_index(fields, key) {
        Some(i) => Some(fields[i].1),
        None => None,
    }
}

/// The fields after setting `key` to `value`: the first field with that key
/// changes its value in place; without one, the field is appended.
pub open spec fn set_field(fields: FieldsModel, key: Seq<char>, value: Seq<char>) -> FieldsModel {
    match key_index(fields, key) {
        Some(i) => fields.update(i, (key, value)),
        None => fields.push((key, value)),
    }
}

/// One rendered field line, without its newline.
pub open spec fn field_line(p: (Seq<char>, Seq<char>)) -> Seq<char> {
    p.0 + seq![':', ' '] + p.1
}

/// All rendered field lines, each followed by a newline.
pub open spec fn render_fields(fields: FieldsModel) -> Seq<char>
    decreases fields.len(),
{
    if fields.len() == 0 {
        seq![]
    } else {
        render_fields(fields.drop_last()) + field_line(fields.last()) + seq!['\n']
    }
}

/// The on-disk text of a document.
pub open spec fn render_spec(fields: FieldsModel, body: Seq<char>) -> Seq<char> {
    seq!['-', '-', '-', '\n'] + render_fields(fields) + seq!['-', '-', '-', '\n', '\n'] + trim_end(
        body,
    ) + seq!['\n']
}

// ---------------------------------------------------------------------------
// Lemmas on the specification
// ---------------------------------------------------------------------------

/// `first_fence` finds the first fence line.
pub proof fn lemma_first_fence(ls: Seq<Seq<char>>)
    ensures
        match first_fence(ls) {
            Some(i) => 0 <= i < ls.len() && is_fence(ls[i]) && forall|j: int|
                0 <= j < i ==> !is_fence(#[trigger] ls[j]),
            None => forall|j: int| 0 <= j < ls.len() ==> !is_fence(#[trigger] ls[j]),
        },
    decreases ls.len(),
{
    if ls.len() > 0 {
        let t = ls.drop_last();
        lemma_first_fence(t);
        match first_fence(t) {
            Some(i) => {
                assert forall|j: int| 0 <= j < i implies !is_fence(#[trigger] ls[j]) by {
                    assert(ls[j] == t[j]);
                }
            },
            None => {
                assert forall|j: int| 0 <= j < ls.len() - 1 implies !is_fence(#[trigger] ls[j]) by {
                    assert(ls[j] == t[j]);
                }
            },
        }
    }
}

/// `key_index` finds the first field with the key.
pub proof fn lemma_key_index(fields: FieldsModel, key: Seq<char>)
    ensures
        match key_index(fields, key) {
            Some(i) => 0 <= i < fields.len() && fields[i].0 == key && forall|j: int|
                0 <= j < i ==> (#[trigger] fields[j]).0 != key,
            None => forall|j: int| 0 <= j < fields.len() ==> (#[trigger] fields[j]).0 != key,
        },
    decreases fields.len(),
{
    if fields.len() > 0 {
        let t = fields.drop_last();
        lemma_key_index(t, key);
        match key_index(t, key) {
            Some(i) => {
                assert forall|j: int| 0 <= j < i implies (#[trigger] fields[j]).0 != key by {
                    assert(fields[j] == t[j]);
                }
            },
            None => {
                assert forall|j: int| 0 <= j < fields.len() - 1 implies (
                #[trigger] fields[j]).0 != key by {
                    assert(fields[j] == t[j]);
                }
            },
        }
    }
}

/// A first occurrence, once characterised, is what `key_index` returns.
pub proof fn lemma_key_index_unique(fields: FieldsModel, key: Seq<char>, i: int)
    requires
        0 <= i <= fields.len(),
        forall|j: int| 0 <= j < i ==> (#[trigger] fields[j]).0 != key,
        i < fields.len() ==> fields[i].0 == key,
    ensures
        key_index(fields, key) == (if i < fields.len() {
            Some(i)
        } else {
            None::<int>
        }),
{
    lemma_key_index(fields, key);
    match key_index(fields, key) {
        Some(m) => {
            if m < i {
                assert(fields[m].0 != key);
            }
            if i < m {
                assert(fields[i].0 != key);
            }
        },
        None => {
            if i < fields.len() {
                assert(fields[i].0 != key);
            }
        },
    }
}

/// A field that survives rendering and parsing unchanged: key and value are
/// already trimmed, the key holds no `:`, and neither holds a line break.
pub open spec fn well_formed_field(p: (Seq<char>, Seq<char>)) -> bool {
    &&& trim(p.0) == p.0
    &&& trim(p.1) == p.1
    &&& !has_char(p.0, ':')
    &&& !has_char(p.0, '\n')
    &&& !has_char(p.1, '\n')
}

/// Every field is well formed.
pub open spec fn well_formed_fields(fields: FieldsModel) -> bool {
    forall|i: int| 0 <= i < fields.len() ==> well_formed_field(#[trigger] fields[i])
}

/// The rendered lines of the fields.
pub open spec fn field_lines(fields: FieldsModel) -> Seq<Seq<char>> {
    fields.map_values(|p: (Seq<char>, Seq<char>)| field_line(p))
}

/// A position holding the first fence is what `first_fence` returns.
proof fn lemma_first_fence_at(ls: Seq<Seq<char>>, i: int)
    requires
        0 <= i < ls.len(),
        is_fence(ls[i]),
        forall|j: int| 0 <= j < i ==> !is_fence(#[trigger] ls[j]),
    ensures
        first_fence(ls) == Some(i),
{
    lemma_first_fence(ls);
    match first_fence(ls) {
        Some(m) => {
            if m < i {
                assert(is_fence(ls[m]));
            }
        },
        None => {
            assert(is_fence(ls[i]));
        },
    }
}

/// What a well-formed field line looks like to the parser.
proof fn lemma_field_line(p: (Seq<char>, Seq<char>))
    requires
        well_formed_field(p),
    ensures
        !has_char(field_line(p), '\n'),
        strip_cr(field_line(p)) == field_line(p),
        split_once(field_line(p), ':') == Some((p.0, seq![' '] + p.1)),
        !is_fence(field_line(p)),
{
    let (k, v) = p;
    let line = field_line(p);
    let n = k.len() as int;
    assert(line[n] == ':');
    assert(line[n + 1] == ' ');
    assert forall|i: int| 0 <= i < line.len() implies line[i] != '\n' by {
        if i < n {
            assert(line[i] == k[i]);
        } else if i > n + 1 {
            assert(line[i] == v[i - n - 2]);
        }
    }
    lemma_trimmed_ends(v);
    lemma_trim_end(v);
    if v.len() > 0 {
        assert(line.last() == v.last());
    } else {
        assert(line.last() == ' ');
    }
    assert forall|j: int| 0 <= j < n implies line[j] != ':' by {
        assert(line[j] == k[j]);
    }
    lemma_first_index_at(line, ':', n);
    assert(line.take(n) == k);
    assert(line.skip(n + 1) == seq![' '] + v);
    lemma_trim_end(line);
    let m = choose|m: int|
        0 <= m <= line.len() && trim_end(line) == line.take(m) && forall|j: int|
            m <= j < line.len() ==> is_ws(#[trigger] line[j]);
    if m <= n {
        assert(is_ws(line[n]));
    }
    if is_fence(line) {
        if n < 3 {
            assert(trim_end(line)[n] == fence()[n]);
        }
    }
}

/// The rendered fields read back as their lines.
proof fn lemma_render_fields_lines(fields: FieldsModel)
    requires
        well_formed_fields(fields),
    ensures
        line_state(render_fields(fields)) == (field_lines(fields), Seq::<char>::empty()),
    decreases fields.len(),
{
    if fields.len() > 0 {
        let t = fields.drop_last();
        assert(well_formed_fields(t)) by {
            assert forall|i: int| 0 <= i < t.len() implies well_formed_field(#[trigger] t[i]) by {
                assert(t[i] == fields[i]);
            }
        }
        lemma_render_fields_lines(t);
        let p = fields.last();
        assert(well_formed_field(fields[fields.len() - 1]));
        lemma_field_line(p);
        lemma_line_state_append(render_fields(t), field_line(p).push('\n'));
        lemma_line_state_one_line(field_line(p));
        assert(render_fields(t) + field_line(p) + seq!['\n'] == render_fields(t) + field_line(
            p,
        ).push('\n'));
        assert(field_lines(fields) =~= field_lines(t).push(field_line(p)));
    }
}

/// The field lines parse back to the fields.
proof fn lemma_fields_of_field_lines(fields: FieldsModel)
    requires
        well_formed_fields(fields),
    ensures
        fields_of_lines(field_lines(fields)) == fields,
    decreases fields.len(),
{
    if fields.len() > 0 {
        let t = fields.drop_last();
        assert(well_formed_fields(t)) by {
            assert forall|i: int| 0 <= i < t.len() implies well_formed_field(#[trigger] t[i]) by {
                assert(t[i] == fields[i]);
            }
        }
        lemma_fields_of_field_lines(t);
        let p = fields.last();
        assert(well_formed_field(fields[fields.len() - 1]));
        lemma_field_line(p);
        lemma_trim_space_prefix(p.1);
        let fl = field_lines(fields);
        assert(fl.drop_last() =~= field_lines(t));
        assert(fl.last() == field_line(p));
        assert(t.push((p.0, p.1)) =~= fields);
    } else {
        assert(field_lines(fields) =~= seq![]);
    }
}

/// Rendering a document and parsing the text gives back its fields and its
/// body without trailing whitespace, provided each field is well formed and
/// the body (trailing whitespace aside) holds no `"\r\n"`.
pub proof fn law_parse_render(fields: FieldsModel, body: Seq<char>)
    requires
        well_formed_fields(fields),
        !has_crlf(trim_end(body)),
    ensures
        parse_spec(render_spec(fields, body)) == (fields, trim_end(body)),
{
    let dash3 = fence();
    let h = dash3.push('\n');
    let r = render_fields(fields);
    let m = dash3.push('\n').push('\n');
    let t = trim_end(body);
    let raw = render_spec(fields, body);
    let fl = field_lines(fields);
    let e = Seq::<char>::empty();
    assert(!has_char(dash3, '\n'));
    assert(!has_char(e, '\n'));
    assert(strip_cr(dash3) == dash3);
    assert(strip_cr(e) == e);
    // The header line.
    lemma_line_state_one_line(dash3);
    // The field lines.
    lemma_render_fields_lines(fields);
    lemma_line_state_append(h, r);
    // The closing fence and the blank separator line.
    lemma_line_state_one_line(e);
    lemma_line_state_append(h, e.push('\n'));
    assert(h + e.push('\n') == m);
    lemma_line_state_append(h + r, m);
    // The body lines.
    lemma_trim_end(body);
    lemma_join_lines_newline(t);
    lemma_line_state_append(h + r + m, t.push('\n'));
    assert(raw == h + r + m + t.push('\n'));
    let lt = line_state(t.push('\n')).0;
    let ls = lines_of(raw);
    assert(ls == seq![dash3] + fl + seq![dash3] + seq![e] + lt);
    let n = fields.len() as int;
    assert(is_fence(dash3));
    assert(ls[0] == dash3);
    let tail = ls.skip(1);
    assert(tail == fl + seq![dash3] + seq![e] + lt);
    assert forall|j: int| 0 <= j < n implies !is_fence(#[trigger] tail[j]) by {
        assert(tail[j] == fl[j]);
        assert(well_formed_field(fields[j]));
        lemma_field_line(fields[j]);
    }
    assert(tail[n] == dash3);
    lemma_first_fence_at(tail, n);
    assert(ls.subrange(1, n + 1) == fl);
    lemma_fields_of_field_lines(fields);
    let rest = ls.skip(n + 2);
    assert(rest == seq![e] + lt);
    assert(rest[0] == e);
    assert(trim(e).len() == 0);
    assert(body_lines(rest) == lt);
}

/// Reading a key right after setting it gives the value that was set.
pub proof fn law_get_after_set(fields: FieldsModel, key: Seq<char>, value: Seq<char>)
    ensures
        lookup(set_field(fields, key, value), key) == Some(value),
{
    let g = set_field(fields, key, value);
    lemma_key_index(fields, key);
    match key_index(fields, key) {
        Some(i) => {
            assert forall|j: int| 0 <= j < i implies (#[trigger] g[j]).0 != key by {
                assert(g[j] == fields[j]);
            }
            lemma_key_index_unique(g, key, i);
        },
        None => {
            assert forall|j: int| 0 <= j < fields.len() implies (#[trigger] g[j]).0 != key by {
                assert(g[j] == fields[j]);
            }
            lemma_key_index_unique(g, key, fields.len() as int);
        },
    }
}

/// Setting one key leaves every other key's value as it was.
pub proof fn law_set_keeps_other_keys(
    fields: FieldsModel,
    key: Seq<char>,
    value: Seq<char>,
    other: Seq<char>,
)
    requires
        other != key,
    ensures
        lookup(set_field(fields, key, value), other) == lookup(fields, other),
{
    let g = set_field(fields, key, value);
    lemma_key_index(fields, other);
    lemma_key_index(fields, key);
    let stop = match key_index(fields, other) {
        Some(i) => i,
        None => fields.len() as int,
    };
    let stop2 = if stop < fields.len() {
        stop
    } else {
        g.len() as int
    };
    assert forall|j: int| 0 <= j < stop2 implies (#[trigger] g[j]).0 != other by {
        if j < fields.len() {
            assert(fields[j].0 != other);
        }
    }
    if stop < fields.len() {
        assert(g[stop].0 == fields[stop].0);
        assert(g[stop] == fields[stop]);
    }
    lemma_key_index_unique(g, other, stop2);
}

/// Setting a key keeps every existing field where it was and changes the
/// length only when the key was new, by appending one field.
pub proof fn law_set_keeps_positions(fields: FieldsModel, key: Seq<char>, value: Seq<char>)
    ensures
        set_field(fields, key, value).len() == fields.len() + (if lookup(fields, key) is Some {
            0int
        } else {
            1int
        }),
        forall|i: int|
            0 <= i < fields.len() ==> (#[trigger] set_field(fields, key, value)[i]).0 == fields[i].0,
{
    lemma_key_index(fields, key);
}

/// Setting the same key to the same value twice is the same as once.
pub proof fn law_set_idempotent(fields: FieldsModel, key: Seq<char>, value: Seq<char>)
    ensures
        set_field(set_field(fields, key, value), key, value) == set_field(fields, key, value),
{
    let g = set_field(fields, key, value);
    lemma_key_index(fields, key);
    match key_index(fields, key) {
        Some(i) => {
            assert forall|j: int| 0 <= j < i implies (#[trigger] g[j]).0 != key by {
                assert(g[j] == fields[j]);
            }
            lemma_key_index_unique(g, key, i);
            assert(g.update(i, (key, value)) =~= g);
        },
        None => {
            assert forall|j: int| 0 <= j < fields.len() implies (#[trigger] g[j]).0 != key by {
                assert(g[j] == fields[j]);
            }
            lemma_key_index_unique(g, key, fields.len() as int);
            assert(g.update(fields.len() as int, (key, value)) =~= g);
        },
    }
}

/// Text that does not open with a `---` line is all body, with no fields.
pub proof fn law_parse_without_opening_fence(raw: Seq<char>)
    requires
        lines_of(raw).len() == 0 || !is_fence(lines_of(raw)[0]),
    ensures
        parse_spec(raw) == (FieldsModel::empty(), raw),
{
}

/// Text whose opening `---` is never closed is all body, with no fields.
pub proof fn law_parse_without_closing_fence(raw: Seq<char>)
    requires
        lines_of(raw).len() > 0,
        forall|j: int| 1 <= j < lines_of(raw).len() ==> !is_fence(#[trigger] lines_of(raw)[j]),
    ensures
        parse_spec(raw) == (FieldsModel::empty(), raw),
{
    let ls = lines_of(raw);
    if is_fence(ls[0]) {
        let tail = ls.skip(1);
        lemma_first_fence(tail);
        if let Some(j) = first_fence(tail) {
            assert(tail[j] == ls[j + 1]);
        }
    }
}

// ---------------------------------------------------------------------------
// Executable code
// ---------------------------------------------------------------------------

/// Whether a line is a `---` fence.
fn is_fence_line(line: &[char]) -> (r: bool)
    ensures
        r == is_fence(line@),
{
    let t = trim_end_chars(line);
    let f: [char; 3] = ['-', '-', '-'];
    let r = chars_eq(t.as_slice(), f.as_slice());
    assert(f@ == fence());
    r
}

/// The character model of a vector of character vectors.
pub open spec fn lines_model(ls: Seq<Vec<char>>) -> Seq<Seq<char>> {
    ls.map_values(|v: Vec<char>| v@)
}

/// Index of the closing fence: the first fence line at `from` or later.
fn find_fence(ls: &Vec<Vec<char>>, from: usize) -> (r: Option<usize>)
    requires
        from <= ls.len(),
    ensures
        match r {
            Some(i) => from <= i < ls.len() && first_fence(lines_model(ls@).skip(from as int)) == Some(
                i - from,
            ),
            None => first_fence(lines_model(ls@).skip(from as int)) is None,
        },
{
    let ghost lm = lines_model(ls@).skip(from as int);
    let mut i: usize = from;
    while i < ls.len()
        invariant
            from <= i <= ls.len(),
            lm == lines_model(ls@).skip(from as int),
            forall|j: int| 0 <= j < i - from ==> !is_fence(#[trigger] lm[j]),
        decreases ls.len() - i,
    {
        if is_fence_line(ls[i].as_slice()) {
            proof {
                lemma_first_fence(lm);
                assert(lm[i - from] == ls@[i as int]@);
                match first_fence(lm) {
                    Some(m) => {
                        if m < i - from {
                            assert(!is_fence(lm[m]));
                        }
                        if i - from < m {
                            assert(!is_fence(lm[i - from]));
                        }
                    },
                    None => {
                        assert(!is_fence(lm[i - from]));
                    },
                }
            }
            return Some(i);
        }
        assert(lm[i - from] == ls@[i as int]@);
        i = i + 1;
    }
    proof {
        lemma_first_fence(lm);
        match first_fence(lm) {
            Some(m) => {
                assert(!is_fence(lm[m]));
            },
            None => {},
        }
    }
    None
}

/// Appends `parts` to `out`, separated by newlines.
fn push_joined_lines(out: &mut String, ls: &Vec<Vec<char>>, from: usize)
    requires
        from <= ls.len(),
    ensures
        final(out)@ == old(out)@ + join(lines_model(ls@).skip(from as int), seq!['\n']),
{
    let ghost parts = lines_model(ls@).skip(from as int);
    let ghost start = out@;
    let mut i: usize = from;
    while i < ls.len()
        invariant
            from <= i <= ls.len(),
            parts == lines_model(ls@).skip(from as int),
            out@ == start + join(parts.take(i - from), seq!['\n']),
        decreases ls.len() - i,
    {
        let ghost before = out@;
        if i > from {
            push_char(out, '\n');
        }
        push_chars(out, ls[i].as_slice());
        proof {
            let t = parts.take(i + 1 - from);
            assert(t.drop_last() == parts.take(i - from));
            assert(t.last() == ls@[i as int]@);
        }
        i = i + 1;
    }
    assert(parts.take(ls.len() - from) == parts);
}

impl Document {
    /// Parse a raw file. If it has no leading `---` fence, or no closing one,
    /// the whole text is the body and there are no fields.
    pub fn parse(raw: &str) -> (doc: Document)
        ensures
            doc@ == parse_spec(raw@),
    {
        let cs = chars_of(raw);
        let ls = lines_chars(cs.as_slice());
        let ghost lm = lines_model(ls@);
        assert(lm =~= lines_of(raw@));
        if ls.len() == 0 || !is_fence_line(ls[0].as_slice()) {
            let body = raw.to_owned();
            let doc = Document { fields: Vec::new(), body };
            assert(doc@.0 =~= seq![]);
            return doc;
        }
        let close = match find_fence(&ls, 1) {
            Some(c) => c,
            None => {
                let body = raw.to_owned();
                let doc = Document { fields: Vec::new(), body };
                assert(doc@.0 =~= seq![]);
                return doc;
            },
        };
        let mut fields: Vec<(String, String)> = Vec::new();
        let mut i: usize = 1;
        while i < close
            invariant
                1 <= i <= close < ls.len(),
                lm == lines_model(ls@),
                fields_model(fields@) == fields_of_lines(lm.subrange(1, i as int)),
            decreases close - i,
        {
            let ghost prev = fields_model(fields@);
            match split_once_chars(ls[i].as_slice(), ':') {
                Some((k, v)) => {
                    let kt = trim_chars(k.as_slice());
                    let vt = trim_chars(v.as_slice());
                    let ks = string_of(kt.as_slice());
                    let vs = string_of(vt.as_slice());
                    fields.push((ks, vs));
                    assert(fields_model(fields@) =~= prev.push((trim(k@), trim(v@))));
                },
                None => {},
            }
            assert(lm.subrange(1, i + 1).drop_last() =~= lm.subrange(1, i as int));
            assert(lm.subrange(1, i + 1).last() == ls@[i as int]@);
            i = i + 1;
        }
        let mut from = close + 1;
        proof {
            assert(lm.skip(close + 1) =~= lines_model(ls@).skip(close + 1));
        }
        if from < ls.len() {
            let t = trim_chars(ls[from].as_slice());
            if t.len() == 0 {
                assert(lm.skip(close + 1).skip(1) =~= lm.skip(close + 2));
                from = from + 1;
            }
        }
        let mut body = String::new();
        push_joined_lines(&mut body, &ls, from);
        let doc = Document { fields, body };
        proof {
            assert(body_lines(lm.skip(close + 1)) =~= lm.skip(from as int));
        }
        doc
    }

    /// The value of the first field named `key`.
    pub fn get(&self, key: &str) -> (r: Option<&str>)
        ensures
            match r {
                Some(v) => lookup(self@.0, key@) == Some(v@),
                None => lookup(self@.0, key@) is None,
            },
    {
        match self.key_position(key) {
            Some(i) => Some(self.fields[i].1.as_str()),
            None => None,
        }
    }

    /// Position of the first field named `key`.
    fn key_position(&self, key: &str) -> (r: Option<usize>)
        ensures
            match r {
                Some(i) => i < self.fields.len() && key_index(self@.0, key@) == Some(i as int),
                None => key_index(self@.0, key@) is None,
            },
    {
        let ghost f = self@.0;
        let mut i: usize = 0;
        while i < self.fields.len()
            invariant
                i <= self.fields.len(),
                f == self@.0,
                f.len() == self.fields.len(),
                forall|j: int| 0 <= j < i ==> (#[trigger] f[j]).0 != key@,
            decreases self.fields.len() - i,
        {
            assert(f[i as int] == (self.fields@[i as int].0@, self.fields@[i as int].1@));
            if str_eq(self.fields[i].0.as_str(), key) {
                proof {
                    lemma_key_index_unique(f, key@, i as int);
                }
                return Some(i);
            }
            i = i + 1;
        }
        proof {
            lemma_key_index_unique(f, key@, i as int);
        }
        None
    }

    /// Set (or insert) a field value, preserving the position of an existing
    /// key.
    pub fn set(&mut self, key: &str, value: &str)
        ensures
            final(self)@ == (set_field(old(self)@.0, key@, value@), old(self)@.1),
    {
        match self.key_position(key) {
            Some(i) => {
                let k = key.to_owned();
                let v = value.to_owned();
                self.fields.set(i, (k, v));
                assert(self@.0 =~= set_field(old(self)@.0, key@, value@));
            },
            None => {
                let k = key.to_owned();
                let v = value.to_owned();
                self.fields.push((k, v));
                assert(self@.0 =~= set_field(old(self)@.0, key@, value@));
            },
        }
    }

    /// Render back to the on-disk representation.
    pub fn render(&self) -> (out: String)
        ensures
            out@ == render_spec(self@.0, self@.1),
    {
        let ghost f = self@.0;
        let mut out = String::new();
        push_char(&mut out, '-');
        push_char(&mut out, '-');
        push_char(&mut out, '-');
        push_char(&mut out, '\n');
        let ghost head = out@;
        assert(head =~= seq!['-', '-', '-', '\n']);
        let mut i: usize = 0;
        while i < self.fields.len()
            invariant
                i <= self.fields.len(),
                f == self@.0,
                f.len() == self.fields.len(),
                out@ == head + render_fields(f.take(i as int)),
            decreases self.fields.len() - i,
        {
            let ghost before = out@;
            push_str(&mut out, self.fields[i].0.as_str());
            push_char(&mut out, ':');
            push_char(&mut out, ' ');
            push_str(&mut out, self.fields[i].1.as_str());
            push_char(&mut out, '\n');
            proof {
                let t = f.take(i + 1);
                assert(t.drop_last() =~= f.take(i as int));
                assert(t.last() == (self.fields@[i as int].0@, self.fields@[i as int].1@));
                assert(out@ =~= head + render_fields(t));
            }
            i = i + 1;
        }
        assert(f.take(self.fields.len() as int) =~= f);
        let ghost mid = out@;
        push_char(&mut out, '-');
        push_char(&mut out, '-');
        push_char(&mut out, '-');
        push_char(&mut out, '\n');
        push_char(&mut out, '\n');
        let bc = chars_of(self.body.as_str());
        let bt = trim_end_chars(bc.as_slice());
        push_chars(&mut out, bt.as_slice());
        push_char(&mut out, '\n');
        assert(out@ =~= render_spec(f, self@.1));
        out
    }
}

} // verus!

//! The rows of `list`: which issues show, in what order, and how they line up.

use vstd::prelude::*;
use crate::frontmatter::{Document, FieldsModel, lookup};
use crate::git::strs;
use crate::path::stem_of;
use crate::text::{chars_of, is_ws, push_char, push_str, string_of, trim, trim_chars, chars_eq};

verus! {

broadcast use vstd::seq_lib::group_to_multiset_ensures;

/// One row of the listing: ID, status, title.
pub type Row = (String, String, String);

/// The character model of a row.
pub type RowModel = (Seq<char>, Seq<char>, Seq<char>);

/// The model of a row.
pub open spec fn row_model(r: Row) -> RowModel {
    (r.0@, r.1@, r.2@)
}

/// The model of a list of rows.
pub open spec fn rows_model(rs: Seq<Row>) -> Seq<RowModel> {
    rs.map_values(|r: Row| row_model(r))
}

// ---------------------------------------------------------------------------
// Which issues show
// ---------------------------------------------------------------------------

/// A field's value, or the empty text when the field is absent.
pub open spec fn field_or_empty(fields: FieldsModel, key: Seq<char>) -> Seq<char> {
    match lookup(fields, key) {
        Some(v) => v,
        None => seq![],
    }
}

/// The row of an issue file named `name`: its `id` field (else the file's
/// stem), its `status` and its `title` (else empty).
pub open spec fn row_spec(fields: FieldsModel, name: Seq<char>) -> RowModel {
    let id = match lookup(fields, "id"@) {
        Some(v) => v,
        None => stem_of(name),
    };
    (id, field_or_empty(fields, "status"@), field_or_empty(fields, "title"@))
}

/// A separator in a label list.
pub open spec fn is_label_sep(c: char) -> bool {
    c == ',' || c == ' '
}

/// The finished pieces and the piece being read, after reading `s`.
pub open spec fn piece_state(s: Seq<char>) -> (Seq<Seq<char>>, Seq<char>)
    decreases s.len(),
{
    if s.len() == 0 {
        (seq![], seq![])
    } else {
        let (done, cur) = piece_state(s.drop_last());
        if is_label_sep(s.last()) {
            (done.push(cur), seq![])
        } else {
            (done, cur.push(s.last()))
        }
    }
}

/// `str::split([',', ' '])`: the pieces between separators, empty ones too.
pub open spec fn label_pieces(s: Seq<char>) -> Seq<Seq<char>> {
    piece_state(s).0.push(piece_state(s).1)
}

/// Whether a label list names `want` (each piece trimmed).
pub open spec fn has_label(labels: Seq<char>, want: Seq<char>) -> bool {
    exists|i: int| 0 <= i < label_pieces(labels).len() && trim(#[trigger] label_pieces(labels)[i]) == want
}

/// Whether an issue passes the filters: the exact status, if one is wanted,
/// and the label among its labels, if one is wanted.
pub open spec fn selected(
    fields: FieldsModel,
    want_status: Option<Seq<char>>,
    want_label: Option<Seq<char>>,
) -> bool {
    &&& match want_status {
        Some(w) => field_or_empty(fields, "status"@) == w,
        None => true,
    }
    &&& match want_label {
        Some(w) => has_label(field_or_empty(fields, "labels"@), w),
        None => true,
    }
}

/// A field's value, or an empty string.
fn field_or_empty_string(doc: &Document, key: &str) -> (r: String)
    ensures
        r@ == field_or_empty(doc@.0, key@),
{
    match doc.get(key) {
        Some(v) => v.to_owned(),
        None => String::new(),
    }
}

/// The row of the issue file `name` holding `doc`.
pub fn issue_row(doc: &Document, name: &str) -> (r: Row)
    ensures
        row_model(r) == row_spec(doc@.0, name@),
{
    let id = match doc.get("id") {
        Some(v) => v.to_owned(),
        None => crate::path::file_stem(name),
    };
    let status = field_or_empty_string(doc, "status");
    let title = field_or_empty_string(doc, "title");
    (id, status, title)
}

/// Whether the comma- or space-separated `labels` names `want`.
pub fn labels_contain(labels: &str, want: &str) -> (r: bool)
    ensures
        r == has_label(labels@, want@),
{
    let cs = chars_of(labels);
    let wc = chars_of(want);
    let mut cur: Vec<char> = Vec::new();
    let mut i: usize = 0;
    while i < cs.len()
        invariant
            i <= cs.len(),
            cs@ == labels@,
            wc@ == want@,
            cur@ == piece_state(cs@.take(i as int)).1,
            forall|j: int|
                0 <= j < piece_state(cs@.take(i as int)).0.len() ==> trim(
                    #[trigger] piece_state(cs@.take(i as int)).0[j],
                ) != want@,
        decreases cs.len() - i,
    {
        assert(cs@.take(i + 1).drop_last() == cs@.take(i as int));
        let c = cs[i];
        if c == ',' || c == ' ' {
            let t = trim_chars(cur.as_slice());
            if chars_eq(t.as_slice(), wc.as_slice()) {
                proof {
                    let (d, cu) = piece_state(cs@.take(i + 1));
                    let ps = label_pieces(labels@);
                    lemma_pieces_prefix(cs@, i + 1);
                    assert(d[d.len() - 1] == cur@);
                    assert(ps[d.len() - 1] == cur@);
                }
                return true;
            }
            cur = Vec::new();
        } else {
            cur.push(c);
        }
        i = i + 1;
    }
    assert(cs@.take(cs.len() as int) == cs@);
    let t = trim_chars(cur.as_slice());
    let found = chars_eq(t.as_slice(), wc.as_slice());
    proof {
        let ps = label_pieces(labels@);
        let d = piece_state(labels@).0;
        if !found {
            assert forall|j: int| 0 <= j < ps.len() implies trim(#[trigger] ps[j]) != want@ by {
                if j < d.len() {
                    assert(ps[j] == d[j]);
                }
            }
        } else {
            assert(ps[d.len() as int] == cur@);
        }
    }
    found
}

/// The pieces finished after a prefix stay finished.
proof fn lemma_pieces_prefix(s: Seq<char>, n: int)
    requires
        0 <= n <= s.len(),
    ensures
        piece_state(s.take(n)).0.len() <= label_pieces(s).len() - 1,
        forall|j: int|
            0 <= j < piece_state(s.take(n)).0.len() ==> #[trigger] label_pieces(s)[j]
                == piece_state(s.take(n)).0[j],
    decreases s.len() - n,
{
    if n < s.len() {
        lemma_pieces_prefix(s, n + 1);
        assert(s.take(n + 1).drop_last() == s.take(n));
        let (d, c) = piece_state(s.take(n));
        let (d2, c2) = piece_state(s.take(n + 1));
        assert forall|j: int| 0 <= j < d.len() implies #[trigger] label_pieces(s)[j] == d[j] by {
            assert(d2[j] == d[j]);
        }
    } else {
        assert(s.take(n) == s);
    }
}

/// A plain label: no comma and no whitespace in it.
pub open spec fn is_plain_label(a: Seq<char>) -> bool {
    forall|i: int| 0 <= i < a.len() ==> #[trigger] a[i] != ',' && !is_ws(a[i])
}

/// Reading a plain label extends the piece being read.
proof fn lemma_piece_state_plain(p: Seq<char>, x: Seq<char>)
    requires
        is_plain_label(x),
    ensures
        piece_state(p + x) == (piece_state(p).0, piece_state(p).1 + x),
    decreases x.len(),
{
    if x.len() == 0 {
        assert(p + x =~= p);
        assert(piece_state(p).1 + x =~= piece_state(p).1);
    } else {
        let y = x.drop_last();
        assert(is_plain_label(y)) by {
            assert forall|i: int| 0 <= i < y.len() implies #[trigger] y[i] != ',' && !is_ws(y[i]) by {
                assert(y[i] == x[i]);
            }
        }
        lemma_piece_state_plain(p, y);
        assert((p + x).drop_last() =~= p + y);
        assert((p + x).last() == x.last());
        let c = x.last();
        assert(c != ',' && !is_ws(c)) by {
            assert(x[x.len() - 1] == c);
        }
        assert((piece_state(p).1 + y).push(c) =~= piece_state(p).1 + x);
    }
}

/// A plain label trims to itself.
proof fn lemma_trim_plain(a: Seq<char>)
    requires
        is_plain_label(a),
    ensures
        trim(a) == a,
{
    if a.len() > 0 {
        assert(!is_ws(a[0]));
        assert(!is_ws(a.last())) by {
            assert(a.last() == a[a.len() - 1]);
        }
    }
}

/// Two plain labels with a separator between them are both found.
proof fn lemma_two_labels(a: Seq<char>, b: Seq<char>, c: char)
    requires
        is_plain_label(a),
        is_plain_label(b),
        is_label_sep(c),
    ensures
        has_label(a + seq![c] + b, a),
        has_label(a + seq![c] + b, b),
{
    lemma_trim_plain(a);
    lemma_trim_plain(b);
    lemma_piece_state_plain(Seq::empty(), a);
    assert(Seq::<char>::empty() + a =~= a);
    assert(piece_state(Seq::<char>::empty()) == (Seq::<Seq<char>>::empty(), Seq::<char>::empty()));
    let pre = a + seq![c];
    assert(pre.drop_last() =~= a);
    assert(pre.last() == c);
    assert(piece_state(pre) == (seq![a], Seq::<char>::empty()));
    lemma_piece_state_plain(pre, b);
    assert(Seq::<char>::empty() + b =~= b);
    let l = a + seq![c] + b;
    assert(l == pre + b);
    let ps = label_pieces(l);
    assert(ps =~= seq![a, b]);
    assert(trim(ps[0]) == a);
    assert(trim(ps[1]) == b);
}

/// Labels are separated by commas and by spaces alike: in the label lists
/// `a b` and `a,b` both `a` and `b` are found.
pub proof fn law_labels_split_on_commas_and_spaces(a: Seq<char>, b: Seq<char>)
    requires
        is_plain_label(a),
        is_plain_label(b),
    ensures
        has_label(a + seq![' '] + b, a),
        has_label(a + seq![' '] + b, b),
        has_label(a + seq![','] + b, a),
        has_label(a + seq![','] + b, b),
{
    lemma_two_labels(a, b, ' ');
    lemma_two_labels(a, b, ',');
}

/// `list --status <w>` keeps exactly the issues whose status is `w` (an
/// issue without a `status` field has the empty status), and without
/// filters every issue is kept.
pub proof fn law_status_filter(fields: FieldsModel, w: Seq<char>)
    ensures
        selected(fields, Some(w), None) <==> (lookup(fields, "status"@) == Some(w) || (lookup(
            fields,
            "status"@,
        ) is None && w.len() == 0)),
        selected(fields, None, None),
{
    if lookup(fields, "status"@) is None && w.len() == 0 {
        assert(field_or_empty(fields, "status"@) =~= w);
    }
}

/// Whether the issue `doc` passes the filters.
pub fn is_selected(doc: &Document, want_status: &Option<String>, want_label: &Option<String>) -> (r: bool)
    ensures
        r == selected(doc@.0, crate::config::opt_model(*want_status), crate::config::opt_model(*want_label)),
{
    match want_status {
        Some(w) => {
            let st = field_or_empty_string(doc, "status");
            if !crate::text::str_eq(st.as_str(), w.as_str()) {
                return false;
            }
        },
        None => {},
    }
    match want_label {
        Some(w) => {
            let labels = field_or_empty_string(doc, "labels");
            labels_contain(labels.as_str(), w.as_str())
        },
        None => true,
    }
}

// ---------------------------------------------------------------------------
// Order
// ---------------------------------------------------------------------------

/// Lexicographic order on texts by code point (`str`'s `Ord`, which compares
/// UTF-8 bytes, orders the same way).
pub open spec fn text_lt(a: Seq<char>, b: Seq<char>) -> bool
    decreases a.len(),
{
    if a.len() == 0 {
        b.len() > 0
    } else if b.len() == 0 {
        false
    } else if a[0] != b[0] {
        (a[0] as int) < (b[0] as int)
    } else {
        text_lt(a.skip(1), b.skip(1))
    }
}

/// Rows ordered by ID, then status, then title (the tuple order).
pub open spec fn row_lt(a: RowModel, b: RowModel) -> bool {
    ||| text_lt(a.0, b.0)
    ||| a.0 == b.0 && text_lt(a.1, b.1)
    ||| a.0 == b.0 && a.1 == b.1 && text_lt(a.2, b.2)
}

/// No row comes before an earlier one.
pub open spec fn rows_sorted(rs: Seq<RowModel>) -> bool {
    forall|i: int, j: int| 0 <= i < j < rs.len() ==> !row_lt(#[trigger] rs[j], #[trigger] rs[i])
}

/// The order of IDs, and of rows by ID, is code-point order: a text comes
/// before every longer text that begins with it, and two texts that first
/// differ at some character are ordered by that character.
pub proof fn law_text_order(p: Seq<char>, x: Seq<char>, c1: char, c2: char, y1: Seq<char>, y2: Seq<char>)
    ensures
        x.len() > 0 ==> text_lt(p, p + x),
        !text_lt(p + x, p),
        (c1 as int) < (c2 as int) ==> text_lt(p + seq![c1] + y1, p + seq![c2] + y2),
    decreases p.len(),
{
    if p.len() > 0 {
        law_text_order(p.skip(1), x, c1, c2, y1, y2);
        assert((p + x).skip(1) =~= p.skip(1) + x);
        assert((p + x)[0] == p[0]);
        assert((p + seq![c1] + y1).skip(1) =~= p.skip(1) + seq![c1] + y1);
        assert((p + seq![c2] + y2).skip(1) =~= p.skip(1) + seq![c2] + y2);
        assert((p + seq![c1] + y1)[0] == p[0]);
        assert((p + seq![c2] + y2)[0] == p[0]);
    } else {
        assert(p + x =~= x);
        assert(p + seq![c1] + y1 =~= seq![c1] + y1);
        assert(p + seq![c2] + y2 =~= seq![c2] + y2);
    }
}

proof fn lemma_text_lt_irreflexive(a: Seq<char>)
    ensures
        !text_lt(a, a),
    decreases a.len(),
{
    if a.len() > 0 {
        lemma_text_lt_irreflexive(a.skip(1));
    }
}

proof fn lemma_text_lt_asymmetric(a: Seq<char>, b: Seq<char>)
    ensures
        text_lt(a, b) ==> !text_lt(b, a),
    decreases a.len(),
{
    if a.len() > 0 && b.len() > 0 && a[0] == b[0] {
        lemma_text_lt_asymmetric(a.skip(1), b.skip(1));
    }
}

proof fn lemma_text_lt_transitive(a: Seq<char>, b: Seq<char>, c: Seq<char>)
    ensures
        text_lt(a, b) && text_lt(b, c) ==> text_lt(a, c),
    decreases a.len(),
{
    if a.len() > 0 && b.len() > 0 && c.len() > 0 {
        lemma_text_lt_transitive(a.skip(1), b.skip(1), c.skip(1));
    }
}

/// Texts are ordered one way or the other unless equal.
pub proof fn lemma_text_lt_total(a: Seq<char>, b: Seq<char>)
    ensures
        a == b || text_lt(a, b) || text_lt(b, a),
    decreases a.len(),
{
    if a.len() > 0 && b.len() > 0 && a[0] == b[0] {
        lemma_text_lt_total(a.skip(1), b.skip(1));
        if a.skip(1) == b.skip(1) {
            assert(a == seq![a[0]] + a.skip(1));
            assert(b == seq![b[0]] + b.skip(1));
        }
    } else if a.len() > 0 && b.len() > 0 {
        assert((a[0] as int) != (b[0] as int));
    } else if a.len() == 0 && b.len() == 0 {
        assert(a == b);
    }
}

proof fn lemma_row_lt_asymmetric(a: RowModel, b: RowModel)
    ensures
        row_lt(a, b) ==> !row_lt(b, a),
{
    lemma_text_lt_asymmetric(a.0, b.0);
    lemma_text_lt_asymmetric(a.1, b.1);
    lemma_text_lt_asymmetric(a.2, b.2);
    lemma_text_lt_irreflexive(a.0);
    lemma_text_lt_irreflexive(a.1);
}

proof fn lemma_row_lt_transitive(a: RowModel, b: RowModel, c: RowModel)
    ensures
        row_lt(a, b) && row_lt(b, c) ==> row_lt(a, c),
{
    lemma_text_lt_transitive(a.0, b.0, c.0);
    lemma_text_lt_transitive(a.1, b.1, c.1);
    lemma_text_lt_transitive(a.2, b.2, c.2);
}

/// Rows are ordered one way or the other unless equal.
proof fn lemma_row_lt_total(a: RowModel, b: RowModel)
    ensures
        a == b || row_lt(a, b) || row_lt(b, a),
{
    lemma_text_lt_total(a.0, b.0);
    lemma_text_lt_total(a.1, b.1);
    lemma_text_lt_total(a.2, b.2);
}

/// There is only one way to put rows in order: two ordered sequences of the
/// same rows are equal. So what `list` prints is determined by the rows.
pub proof fn law_sorted_rows_unique(a: Seq<RowModel>, b: Seq<RowModel>)
    requires
        rows_sorted(a),
        rows_sorted(b),
        a.to_multiset() == b.to_multiset(),
    ensures
        a == b,
    decreases a.len(),
{
    vstd::seq_lib::to_multiset_len(a);
    vstd::seq_lib::to_multiset_len(b);
    if a.len() == 0 {
        assert(b.len() == 0);
        assert(a =~= b);
    } else {
        let x = a[0];
        let y = b[0];
        vstd::seq_lib::to_multiset_contains(a, y);
        vstd::seq_lib::to_multiset_contains(b, y);
        vstd::seq_lib::to_multiset_contains(a, x);
        vstd::seq_lib::to_multiset_contains(b, x);
        assert(b.contains(y));
        assert(a.contains(x));
        let j = choose|j: int| 0 <= j < a.len() && a[j] == y;
        let k = choose|k: int| 0 <= k < b.len() && b[k] == x;
        if j > 0 {
            assert(!row_lt(a[j], a[0]));
        }
        if k > 0 {
            assert(!row_lt(b[k], b[0]));
        }
        lemma_row_lt_total(x, y);
        assert(x == y);
        vstd::seq_lib::to_multiset_remove(a, 0);
        vstd::seq_lib::to_multiset_remove(b, 0);
        let a2 = a.remove(0);
        let b2 = b.remove(0);
        assert(a2 =~= a.drop_first());
        assert(b2 =~= b.drop_first());
        assert(rows_sorted(a2)) by {
            assert forall|i: int, l: int| 0 <= i < l < a2.len() implies !row_lt(#[trigger] a2[l], #[trigger] a2[i]) by {
                assert(a2[l] == a[l + 1] && a2[i] == a[i + 1]);
            }
        }
        assert(rows_sorted(b2)) by {
            assert forall|i: int, l: int| 0 <= i < l < b2.len() implies !row_lt(#[trigger] b2[l], #[trigger] b2[i]) by {
                assert(b2[l] == b[l + 1] && b2[i] == b[i + 1]);
            }
        }
        law_sorted_rows_unique(a2, b2);
        assert(a =~= seq![x] + a2);
        assert(b =~= seq![y] + b2);
    }
}

/// Whether `a` comes before `b`.
fn text_less(a: &[char], b: &[char]) -> (r: bool)
    ensures
        r == text_lt(a@, b@),
{
    let mut i: usize = 0;
    assert(a@.skip(0) == a@ && b@.skip(0) == b@);
    while i < a.len() && i < b.len() && a[i] == b[i]
        invariant
            i <= a.len(),
            i <= b.len(),
            text_lt(a@, b@) == text_lt(a@.skip(i as int), b@.skip(i as int)),
        decreases a.len() - i,
    {
        assert(a@.skip(i as int).skip(1) == a@.skip(i + 1));
        assert(b@.skip(i as int).skip(1) == b@.skip(i + 1));
        i = i + 1;
    }
    if i == a.len() {
        i < b.len()
    } else if i == b.len() {
        false
    } else {
        a[i] < b[i]
    }
}

/// A row as characters, for comparing.
fn row_chars(r: &Row) -> (c: (Vec<char>, Vec<char>, Vec<char>))
    ensures
        (c.0@, c.1@, c.2@) == row_model(*r),
{
    (chars_of(r.0.as_str()), chars_of(r.1.as_str()), chars_of(r.2.as_str()))
}

/// Whether row `a` comes before row `b`.
fn row_less(a: &(Vec<char>, Vec<char>, Vec<char>), b: &(Vec<char>, Vec<char>, Vec<char>)) -> (r: bool)
    ensures
        r == row_lt((a.0@, a.1@, a.2@), (b.0@, b.1@, b.2@)),
{
    if text_less(a.0.as_slice(), b.0.as_slice()) {
        return true;
    }
    if !chars_eq(a.0.as_slice(), b.0.as_slice()) {
        return false;
    }
    if text_less(a.1.as_slice(), b.1.as_slice()) {
        return true;
    }
    if !chars_eq(a.1.as_slice(), b.1.as_slice()) {
        return false;
    }
    text_less(a.2.as_slice(), b.2.as_slice())
}

/// The rows in order (`Vec::sort` on the tuples): the same rows, none
/// before an earlier one.
pub fn sort_rows(rows: Vec<Row>) -> (out: Vec<Row>)
    ensures
        rows_model(out@).to_multiset() == rows_model(rows@).to_multiset(),
        rows_sorted(rows_model(out@)),
{
    let mut out: Vec<Row> = Vec::new();
    let mut keys: Vec<(Vec<char>, Vec<char>, Vec<char>)> = Vec::new();
    let mut rest = rows;
    let ghost all = rows_model(rest@);
    let mut i: usize = 0;
    let n = rest.len();
    while i < n
        invariant
            n == rest.len(),
            i <= n,
            all == rows_model(rest@),
            keys@.len() == out@.len(),
            forall|k: int| 0 <= k < keys@.len() ==> (keys@[k].0@, keys@[k].1@, keys@[k].2@) == row_model(
                #[trigger] out@[k],
            ),
            rows_model(out@).to_multiset() == all.take(i as int).to_multiset(),
            rows_sorted(rows_model(out@)),
        decreases n - i,
    {
        let x = (rest[i].0.clone(), rest[i].1.clone(), rest[i].2.clone());
        assert(row_model(x) == row_model(rest@[i as int]));
        let kx = row_chars(&x);
        let ghost xm = row_model(x);
        assert(xm == all[i as int]);
        let mut p: usize = 0;
        while p < out.len() && !row_less(&kx, &keys[p])
            invariant
                p <= out@.len(),
                keys@.len() == out@.len(),
                forall|k: int| 0 <= k < keys@.len() ==> (keys@[k].0@, keys@[k].1@, keys@[k].2@) == row_model(
                    #[trigger] out@[k],
                ),
                (kx.0@, kx.1@, kx.2@) == xm,
                forall|k: int| 0 <= k < p ==> !row_lt(xm, #[trigger] rows_model(out@)[k]),
            decreases out@.len() - p,
        {
            assert(rows_model(out@)[p as int] == row_model(out@[p as int]));
            p = p + 1;
        }
        let ghost old_out = rows_model(out@);
        proof {
            if p < out@.len() {
                assert(old_out[p as int] == row_model(out@[p as int]));
                assert(row_lt(xm, old_out[p as int]));
            }
        }
        out.insert(p, x);
        keys.insert(p, kx);
        let ghost new_out = rows_model(out@);
        assert(new_out =~= old_out.insert(p as int, xm));
        proof {
            assert(all.take(i + 1) =~= all.take(i as int).push(xm));
            assert forall|a: int, b: int| 0 <= a < b < new_out.len() implies !row_lt(
                #[trigger] new_out[b],
                #[trigger] new_out[a],
            ) by {
                if a < p && b == p {
                } else if a == p && b > p {
                    let y = old_out[b - 1];
                    assert(new_out[b] == y);
                    lemma_row_lt_asymmetric(xm, old_out[p as int]);
                    if b - 1 > p {
                        assert(!row_lt(old_out[b - 1], old_out[p as int]));
                        lemma_row_lt_transitive(y, xm, old_out[p as int]);
                    }
                } else if a < p && b > p {
                    assert(new_out[a] == old_out[a]);
                    assert(new_out[b] == old_out[b - 1]);
                } else if b < p {
                    assert(new_out[a] == old_out[a]);
                    assert(new_out[b] == old_out[b]);
                } else {
                    assert(new_out[a] == old_out[a - 1]);
                    assert(new_out[b] == old_out[b - 1]);
                }
            }
            assert forall|k: int| 0 <= k < keys@.len() implies (keys@[k].0@, keys@[k].1@, keys@[k].2@)
                == row_model(#[trigger] out@[k]) by {
                assert(new_out[k] == row_model(out@[k]));
            }
        }
        i = i + 1;
    }
    assert(all.take(n as int) =~= all);
    out
}

/// No text comes before an earlier one.
pub open spec fn texts_sorted(ts: Seq<Seq<char>>) -> bool {
    forall|i: int, j: int| 0 <= i < j < ts.len() ==> !text_lt(#[trigger] ts[j], #[trigger] ts[i])
}

/// The texts in order (`Vec::sort` on strings): the same texts, none before
/// an earlier one.
pub fn sort_texts(texts: Vec<String>) -> (out: Vec<String>)
    ensures
        strs(out@).to_multiset() == strs(texts@).to_multiset(),
        texts_sorted(strs(out@)),
{
    let mut out: Vec<String> = Vec::new();
    let mut keys: Vec<Vec<char>> = Vec::new();
    let ghost all = strs(texts@);
    let n = texts.len();
    let mut i: usize = 0;
    while i < n
        invariant
            n == texts.len(),
            i <= n,
            all == strs(texts@),
            keys@.len() == out@.len(),
            forall|k: int| 0 <= k < keys@.len() ==> keys@[k]@ == (#[trigger] out@[k])@,
            strs(out@).to_multiset() == all.take(i as int).to_multiset(),
            texts_sorted(strs(out@)),
        decreases n - i,
    {
        let x = texts[i].clone();
        let kx = chars_of(x.as_str());
        let ghost xm = x@;
        assert(xm == all[i as int]);
        let mut p: usize = 0;
        while p < out.len() && !text_less(kx.as_slice(), keys[p].as_slice())
            invariant
                p <= out@.len(),
                keys@.len() == out@.len(),
                forall|k: int| 0 <= k < keys@.len() ==> keys@[k]@ == (#[trigger] out@[k])@,
                kx@ == xm,
                forall|k: int| 0 <= k < p ==> !text_lt(xm, #[trigger] strs(out@)[k]),
            decreases out@.len() - p,
        {
            assert(strs(out@)[p as int] == out@[p as int]@);
            p = p + 1;
        }
        let ghost old_out = strs(out@);
        proof {
            if p < out@.len() {
                assert(old_out[p as int] == out@[p as int]@);
                assert(text_lt(xm, old_out[p as int]));
            }
        }
        out.insert(p, x);
        keys.insert(p, kx);
        let ghost new_out = strs(out@);
        assert(new_out =~= old_out.insert(p as int, xm));
        proof {
            assert(all.take(i + 1) =~= all.take(i as int).push(xm));
            assert forall|a: int, b: int| 0 <= a < b < new_out.len() implies !text_lt(
                #[trigger] new_out[b],
                #[trigger] new_out[a],
            ) by {
                if a < p && b == p {
                } else if a == p && b > p {
                    let y = old_out[b - 1];
                    assert(new_out[b] == y);
                    lemma_text_lt_asymmetric(xm, old_out[p as int]);
                    if b - 1 > p {
                        assert(!text_lt(old_out[b - 1], old_out[p as int]));
                        lemma_text_lt_transitive(y, xm, old_out[p as int]);
                    }
                } else if a < p && b > p {
                    assert(new_out[a] == old_out[a]);
                    assert(new_out[b] == old_out[b - 1]);
                } else if b < p {
                    assert(new_out[a] == old_out[a]);
                    assert(new_out[b] == old_out[b]);
                } else {
                    assert(new_out[a] == old_out[a - 1]);
                    assert(new_out[b] == old_out[b - 1]);
                }
            }
            assert forall|k: int| 0 <= k < keys@.len() implies keys@[k]@ == (#[trigger] out@[k])@ by {
                assert(new_out[k] == out@[k]@);
            }
        }
        i = i + 1;
    }
    assert(all.take(n as int) =~= all);
    out
}

// ---------------------------------------------------------------------------
// Layout
// ---------------------------------------------------------------------------

/// The length of a text in UTF-8 bytes, as `str::len` returns it.
pub open spec fn byte_len(s: Seq<char>) -> nat {
    (vstd::utf8::encode_utf8(s).len() as usize) as nat
}

/// The widest ID, in bytes.
pub open spec fn id_width(rows: Seq<RowModel>) -> nat
    decreases rows.len(),
{
    if rows.len() == 0 {
        0
    } else {
        let w = id_width(rows.drop_last());
        let x = byte_len(rows.last().0);
        if x > w {
            x
        } else {
            w
        }
    }
}

/// The widest status, in bytes.
pub open spec fn status_width(rows: Seq<RowModel>) -> nat
    decreases rows.len(),
{
    if rows.len() == 0 {
        0
    } else {
        let w = status_width(rows.drop_last());
        let x = byte_len(rows.last().1);
        if x > w {
            x
        } else {
            w
        }
    }
}

/// `format!("{s:<w$}")`: `s` padded with spaces to `w` characters.
pub open spec fn padded(s: Seq<char>, w: nat) -> Seq<char> {
    if w > s.len() {
        s + Seq::new((w - s.len()) as nat, |i: int| ' ')
    } else {
        s
    }
}

/// One printed line: ID and status padded to their columns, two spaces
/// between columns.
pub open spec fn row_line(r: RowModel, iw: nat, sw: nat) -> Seq<char> {
    padded(r.0, iw) + "  "@ + padded(r.1, sw) + "  "@ + r.2
}

/// The printed lines of the (sorted) rows.
pub open spec fn list_lines(rows: Seq<RowModel>) -> Seq<Seq<char>> {
    rows.map_values(|r: RowModel| row_line(r, id_width(rows), status_width(rows)))
}

/// `s` padded to `w` characters.
fn push_padded(out: &mut String, s: &str, w: usize)
    ensures
        final(out)@ == old(out)@ + padded(s@, w as nat),
{
    let cs = chars_of(s);
    crate::text::push_chars(out, cs.as_slice());
    let ghost base = out@;
    if w > cs.len() {
        let k = w - cs.len();
        let mut j: usize = 0;
        while j < k
            invariant
                j <= k,
                out@ == base + Seq::new(j as nat, |i: int| ' '),
            decreases k - j,
        {
            push_char(out, ' ');
            j = j + 1;
            assert(out@ =~= base + Seq::new(j as nat, |i: int| ' '));
        }
    }
    assert(out@ =~= old(out)@ + padded(s@, w as nat));
}

/// The lines `list` prints for the rows.
pub fn format_rows(rows: &Vec<Row>) -> (lines: Vec<String>)
    ensures
        lines@.len() == rows@.len(),
        forall|i: int| 0 <= i < lines@.len() ==> (#[trigger] lines@[i])@ == list_lines(
            rows_model(rows@),
        )[i],
{
    let ghost m = rows_model(rows@);
    let mut iw: usize = 0;
    let mut sw: usize = 0;
    let mut k: usize = 0;
    while k < rows.len()
        invariant
            k <= rows.len(),
            m == rows_model(rows@),
            iw == id_width(m.take(k as int)),
            sw == status_width(m.take(k as int)),
        decreases rows.len() - k,
    {
        assert(m.take(k + 1).drop_last() =~= m.take(k as int));
        assert(m.take(k + 1).last() == row_model(rows@[k as int]));
        let a = rows[k].0.as_str().len();
        let b = rows[k].1.as_str().len();
        if a > iw {
            iw = a;
        }
        if b > sw {
            sw = b;
        }
        k = k + 1;
    }
    assert(m.take(rows.len() as int) =~= m);
    let mut lines: Vec<String> = Vec::new();
    let mut i: usize = 0;
    while i < rows.len()
        invariant
            i <= rows.len(),
            m == rows_model(rows@),
            iw == id_width(m),
            sw == status_width(m),
            lines@.len() == i,
            forall|j: int| 0 <= j < i ==> (#[trigger] lines@[j])@ == list_lines(m)[j],
        decreases rows.len() - i,
    {
        let mut line = String::new();
        push_padded(&mut line, rows[i].0.as_str(), iw);
        push_str(&mut line, "  ");
        push_padded(&mut line, rows[i].1.as_str(), sw);
        push_str(&mut line, "  ");
        push_str(&mut line, rows[i].2.as_str());
        assert(m[i as int] == row_model(rows@[i as int]));
        lines.push(line);
        i = i + 1;
    }
    lines
}

} // verus!

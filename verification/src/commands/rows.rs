//! Result rows of stored-graph queries, and the text layout the commands share.
use vstd::prelude::*;
use crate::symbol::{opt_view, copy_opt};
use crate::text::{chars_of, append_chars, seq_lt, chars_lt, eq_chars};

verus! {

/// One result row of a stored-graph query. A field the row does not carry,
/// or carries with another type, is `None`.
pub struct Row {
    pub id: Option<String>,
    pub name: Option<String>,
    pub kind: Option<String>,
    pub file_path: Option<String>,
    pub signature: Option<String>,
    pub visibility: Option<String>,
    pub line_start: Option<i64>,
    pub line_end: Option<i64>,
    pub line: Option<i64>,
    pub depth: Option<i64>,
    pub call_line: Option<i64>,
    pub call_site_line: Option<i64>,
    pub language: Option<String>,
    pub outgoing: Option<i64>,
    pub incoming: Option<i64>,
    pub connections: Option<i64>,
    pub count: Option<i64>,
}

/// The mathematical value of a row.
pub struct RowView {
    pub id: Option<Seq<char>>,
    pub name: Option<Seq<char>>,
    pub kind: Option<Seq<char>>,
    pub file_path: Option<Seq<char>>,
    pub signature: Option<Seq<char>>,
    pub visibility: Option<Seq<char>>,
    pub line_start: Option<i64>,
    pub line_end: Option<i64>,
    pub line: Option<i64>,
    pub depth: Option<i64>,
    pub call_line: Option<i64>,
    pub call_site_line: Option<i64>,
    pub language: Option<Seq<char>>,
    pub outgoing: Option<i64>,
    pub incoming: Option<i64>,
    pub connections: Option<i64>,
    pub count: Option<i64>,
}

impl View for Row {
    type V = RowView;

    open spec fn view(&self) -> RowView {
        RowView {
            id: opt_view(self.id),
            name: opt_view(self.name),
            kind: opt_view(self.kind),
            file_path: opt_view(self.file_path),
            signature: opt_view(self.signature),
            visibility: opt_view(self.visibility),
            line_start: self.line_start,
            line_end: self.line_end,
            line: self.line,
            depth: self.depth,
            call_line: self.call_line,
            call_site_line: self.call_site_line,
            language: opt_view(self.language),
            outgoing: self.outgoing,
            incoming: self.incoming,
            connections: self.connections,
            count: self.count,
        }
    }
}

impl Row {
    /// A row with no field set.
    pub fn empty() -> (r: Row)
        ensures
            r@.id is None && r@.name is None && r@.kind is None && r@.file_path is None,
            r@.signature is None && r@.visibility is None,
            r@.line_start is None && r@.line_end is None && r@.line is None,
            r@.depth is None && r@.call_line is None && r@.call_site_line is None,
    {
        Row {
            id: None,
            name: None,
            kind: None,
            file_path: None,
            signature: None,
            visibility: None,
            line_start: None,
            line_end: None,
            line: None,
            depth: None,
            call_line: None,
            call_site_line: None,
            language: None,
            outgoing: None,
            incoming: None,
            connections: None,
            count: None,
        }
    }

    /// A copy of this row.
    pub fn duplicate(&self) -> (r: Row)
        ensures
            r@ == self@,
    {
        Row {
            id: copy_opt(&self.id),
            name: copy_opt(&self.name),
            kind: copy_opt(&self.kind),
            file_path: copy_opt(&self.file_path),
            signature: copy_opt(&self.signature),
            visibility: copy_opt(&self.visibility),
            line_start: self.line_start,
            line_end: self.line_end,
            line: self.line,
            depth: self.depth,
            call_line: self.call_line,
            call_site_line: self.call_site_line,
            language: copy_opt(&self.language),
            outgoing: self.outgoing,
            incoming: self.incoming,
            connections: self.connections,
            count: self.count,
        }
    }
}

/// The symbol a command reports on, picked among the matches of a name.
pub struct Target {
    /// Text shown before the report.
    pub preamble: String,
    pub id: String,
    pub name: String,
}

pub open spec fn row_views(rows: Seq<Row>) -> Seq<RowView> {
    rows.map_values(|r: Row| r@)
}

/// The text of a field, or `d` where the row lacks it.
pub open spec fn text_or(o: Option<Seq<char>>, d: Seq<char>) -> Seq<char> {
    match o {
        Some(s) => s,
        None => d,
    }
}

/// The number in a field, or zero where the row lacks it.
pub open spec fn int_or_zero(o: Option<i64>) -> int {
    match o {
        Some(v) => v as int,
        None => 0,
    }
}

/// The characters of a text field, or of `d` where the row lacks it.
pub fn text_or_chars(o: &Option<String>, d: &str) -> (r: Vec<char>)
    ensures
        r@ == text_or(opt_view(*o), d@),
{
    match o {
        Some(s) => chars_of(s.as_str()),
        None => chars_of(d),
    }
}

/// How a JSON number field reads: its digits, or `null` where the row lacks it.
pub open spec fn json_number(o: Option<i64>) -> Seq<char> {
    match o {
        Some(v) => crate::num::dec_int(v as int),
        None => "null"@,
    }
}

/// The text of a JSON number field (see `json_number`).
pub fn json_number_chars(o: Option<i64>) -> (r: Vec<char>)
    ensures
        r@ == json_number(o),
{
    match o {
        Some(v) => crate::num::fmt_i64(v),
        None => chars_of("null"),
    }
}

/// `n` spaces.
pub open spec fn spaces(n: nat) -> Seq<char> {
    Seq::new(n, |i: int| ' ')
}

/// `s` followed by spaces up to `w` characters (`{:<w}`).
pub open spec fn pad_right(s: Seq<char>, w: nat) -> Seq<char> {
    if s.len() < w {
        s + spaces((w - s.len()) as nat)
    } else {
        s
    }
}

/// `s` preceded by spaces up to `w` characters (`{:>w}`).
pub open spec fn pad_left(s: Seq<char>, w: nat) -> Seq<char> {
    if s.len() < w {
        spaces((w - s.len()) as nat) + s
    } else {
        s
    }
}

fn push_spaces(out: &mut Vec<char>, n: usize)
    ensures
        final(out)@ == old(out)@ + spaces(n as nat),
{
    let mut i: usize = 0;
    while i < n
        invariant
            i <= n,
            out@ == old(out)@ + spaces(i as nat),
        decreases n - i,
    {
        out.push(' ');
        proof {
            assert(out@ =~= old(out)@ + spaces(i as nat + 1));
        }
        i = i + 1;
    }
}

/// Appends `s` padded on the right to `w` characters.
pub fn append_padded_right(out: &mut Vec<char>, s: &[char], w: usize)
    ensures
        final(out)@ == old(out)@ + pad_right(s@, w as nat),
{
    append_chars(out, s);
    if s.len() < w {
        push_spaces(out, w - s.len());
    }
    proof {
        assert(final(out)@ =~= old(out)@ + pad_right(s@, w as nat));
    }
}

/// Appends `s` padded on the left to `w` characters.
pub fn append_padded_left(out: &mut Vec<char>, s: &[char], w: usize)
    ensures
        final(out)@ == old(out)@ + pad_left(s@, w as nat),
{
    if s.len() < w {
        push_spaces(out, w - s.len());
    }
    append_chars(out, s);
    proof {
        assert(final(out)@ =~= old(out)@ + pad_left(s@, w as nat));
    }
}

/// `s` with `x` added at its place in ascending order, unless `s` holds it.
pub open spec fn insert_distinct_sorted(s: Seq<Seq<char>>, x: Seq<char>) -> Seq<Seq<char>>
    decreases s.len(),
{
    if s.len() == 0 {
        seq![x]
    } else if x == s[0] {
        s
    } else if seq_lt(x, s[0]) {
        seq![x] + s
    } else {
        seq![s[0]] + insert_distinct_sorted(s.drop_first(), x)
    }
}

proof fn lemma_insert_distinct_sorted_at(s: Seq<Seq<char>>, x: Seq<char>, k: int)
    requires
        0 <= k <= s.len(),
        forall|j: int| 0 <= j < k ==> x != #[trigger] s[j] && !seq_lt(x, s[j]),
        k == s.len() || x == s[k] || seq_lt(x, s[k]),
    ensures
        insert_distinct_sorted(s, x) == if k < s.len() && x == s[k] {
            s
        } else {
            s.take(k).push(x) + s.skip(k)
        },
    decreases k,
{
    if k == 0 {
        assert(s.take(k).push(x) + s.skip(k) =~= seq![x] + s);
    } else {
        let t = s.drop_first();
        assert forall|j: int| 0 <= j < k - 1 implies x != #[trigger] t[j] && !seq_lt(x, t[j]) by {
            assert(t[j] == s[j + 1]);
        }
        assert(k - 1 == t.len() || t[k - 1] == s[k]);
        lemma_insert_distinct_sorted_at(t, x, k - 1);
        assert(x != s[0]);
        if k < s.len() && x == s[k] {
            assert(seq![s[0]] + t =~= s);
        } else {
            assert(seq![s[0]] + (t.take(k - 1).push(x) + t.skip(k - 1)) =~= s.take(k).push(x)
                + s.skip(k));
        }
    }
}

/// Adds `x` to the ascending list `v` unless it holds it already.
pub fn add_distinct_sorted(v: &mut Vec<Vec<char>>, x: &[char])
    ensures
        final(v)@.map_values(|c: Vec<char>| c@) == insert_distinct_sorted(
            old(v)@.map_values(|c: Vec<char>| c@),
            x@,
        ),
{
    let ghost cur = v@.map_values(|c: Vec<char>| c@);
    let mut k: usize = 0;
    loop
        invariant
            k <= v@.len(),
            v@ == old(v)@,
            cur == v@.map_values(|c: Vec<char>| c@),
            forall|j: int| 0 <= j < k ==> x@ != #[trigger] cur[j] && !seq_lt(x@, cur[j]),
        ensures
            k <= v@.len(),
            v@ == old(v)@,
            k == v@.len() || x@ == cur[k as int] || seq_lt(x@, cur[k as int]),
        decreases v@.len() - k,
    {
        if k == v.len() {
            break;
        }
        if eq_chars(x, &v[k]) || chars_lt(x, &v[k]) {
            break;
        }
        k = k + 1;
    }
    proof {
        lemma_insert_distinct_sorted_at(cur, x@, k as int);
    }
    if k < v.len() && eq_chars(x, &v[k]) {
        return;
    }
    let mut xv: Vec<char> = Vec::new();
    append_chars(&mut xv, x);
    v.insert(k, xv);
    proof {
        assert(v@.map_values(|c: Vec<char>| c@) =~= cur.take(k as int).push(x@) + cur.skip(
            k as int,
        ));
    }
}

/// The strings of `s`, each once, in ascending order.
pub open spec fn sorted_distinct(s: Seq<Seq<char>>) -> Seq<Seq<char>>
    decreases s.len(),
{
    if s.len() == 0 {
        seq![]
    } else {
        insert_distinct_sorted(sorted_distinct(s.drop_last()), s.last())
    }
}

/// Each string comes strictly before the next ones.
pub open spec fn ascending(s: Seq<Seq<char>>) -> bool {
    forall|i: int, j: int| 0 <= i < j < s.len() ==> seq_lt(#[trigger] s[i], #[trigger] s[j])
}

proof fn lemma_seq_lt_irreflexive(a: Seq<char>)
    ensures
        !seq_lt(a, a),
    decreases a.len(),
{
    if a.len() > 0 {
        lemma_seq_lt_irreflexive(a.drop_first());
    }
}

proof fn lemma_seq_lt_transitive(a: Seq<char>, b: Seq<char>, c: Seq<char>)
    requires
        seq_lt(a, b),
        seq_lt(b, c),
    ensures
        seq_lt(a, c),
    decreases a.len(),
{
    if a.len() > 0 && b.len() > 0 && c.len() > 0 && a[0] == b[0] && b[0] == c[0] {
        lemma_seq_lt_transitive(a.drop_first(), b.drop_first(), c.drop_first());
    }
}

proof fn lemma_seq_lt_total(a: Seq<char>, b: Seq<char>)
    requires
        a != b,
    ensures
        seq_lt(a, b) || seq_lt(b, a),
    decreases a.len(),
{
    if a.len() > 0 && b.len() > 0 && a[0] == b[0] {
        if a.drop_first() == b.drop_first() {
            assert(a =~= seq![a[0]] + a.drop_first());
            assert(b =~= seq![b[0]] + b.drop_first());
        }
        lemma_seq_lt_total(a.drop_first(), b.drop_first());
    } else if a.len() > 0 && b.len() > 0 {
        let x = a[0];
        let y = b[0];
        vstd::utf8::char_u32_cast(x, x as u32);
        vstd::utf8::char_u32_cast(y, y as u32);
        assert((x as u32) != (y as u32));
    } else if a.len() == 0 && b.len() == 0 {
        assert(a =~= b);
    }
}

proof fn lemma_insert_distinct_sorted_keeps(s: Seq<Seq<char>>, x: Seq<char>)
    requires
        ascending(s),
    ensures
        ascending(insert_distinct_sorted(s, x)),
        forall|y: Seq<char>| #[trigger] insert_distinct_sorted(s, x).contains(y) <==> (s.contains(y)
            || y == x),
    decreases s.len(),
{
    let r = insert_distinct_sorted(s, x);
    if s.len() == 0 {
        assert forall|y: Seq<char>| #[trigger] r.contains(y) <==> (s.contains(y) || y == x) by {
            if r.contains(y) {
                assert(r[0] == y);
            }
            if y == x {
                assert(r[0] == y);
            }
        }
    } else if x == s[0] {
        assert forall|y: Seq<char>| #[trigger] r.contains(y) <==> (s.contains(y) || y == x) by {
            if y == x {
                assert(s[0] == y);
            }
        }
    } else if seq_lt(x, s[0]) {
        assert forall|i: int, j: int| 0 <= i < j < r.len() implies seq_lt(#[trigger] r[i], #[trigger] r[j]) by {
            if i == 0 {
                assert(r[j] == s[j - 1]);
                if j - 1 > 0 {
                    assert(seq_lt(s[0], s[j - 1]));
                    lemma_seq_lt_transitive(x, s[0], s[j - 1]);
                }
            } else {
                assert(r[i] == s[i - 1] && r[j] == s[j - 1]);
            }
        }
        assert forall|y: Seq<char>| #[trigger] r.contains(y) <==> (s.contains(y) || y == x) by {
            if r.contains(y) {
                let k = choose|k: int| 0 <= k < r.len() && r[k] == y;
                if k > 0 {
                    assert(s[k - 1] == y);
                }
            }
            if s.contains(y) {
                let k = choose|k: int| 0 <= k < s.len() && s[k] == y;
                assert(r[k + 1] == y);
            }
            if y == x {
                assert(r[0] == y);
            }
        }
    } else {
        let t = s.drop_first();
        assert forall|i: int, j: int| 0 <= i < j < t.len() implies seq_lt(#[trigger] t[i], #[trigger] t[j]) by {
            assert(t[i] == s[i + 1] && t[j] == s[j + 1]);
        }
        lemma_insert_distinct_sorted_keeps(t, x);
        let q = insert_distinct_sorted(t, x);
        assert(r == seq![s[0]] + q);
        lemma_seq_lt_total(x, s[0]);
        assert forall|i: int, j: int| 0 <= i < j < r.len() implies seq_lt(#[trigger] r[i], #[trigger] r[j]) by {
            if i == 0 {
                assert(r[j] == q[j - 1]);
                assert(q.contains(q[j - 1]));
                if t.contains(q[j - 1]) {
                    let k = choose|k: int| 0 <= k < t.len() && t[k] == q[j - 1];
                    assert(s[k + 1] == q[j - 1]);
                } else {
                    assert(q[j - 1] == x);
                }
            } else {
                assert(r[i] == q[i - 1] && r[j] == q[j - 1]);
            }
        }
        assert forall|y: Seq<char>| #[trigger] r.contains(y) <==> (s.contains(y) || y == x) by {
            if r.contains(y) {
                let k = choose|k: int| 0 <= k < r.len() && r[k] == y;
                if k > 0 {
                    assert(q[k - 1] == y);
                    assert(q.contains(y));
                    if t.contains(y) {
                        let m = choose|m: int| 0 <= m < t.len() && t[m] == y;
                        assert(s[m + 1] == y);
                    }
                } else {
                    assert(s[0] == y);
                }
            }
            if s.contains(y) {
                let k = choose|k: int| 0 <= k < s.len() && s[k] == y;
                if k == 0 {
                    assert(r[0] == y);
                } else {
                    assert(t[k - 1] == y);
                    assert(t.contains(y));
                    assert(q.contains(y));
                    let m = choose|m: int| 0 <= m < q.len() && q[m] == y;
                    assert(r[m + 1] == y);
                }
            }
            if y == x {
                assert(q.contains(y));
                let m = choose|m: int| 0 <= m < q.len() && q[m] == y;
                assert(r[m + 1] == y);
            }
        }
    }
}

/// Keys gathered with `sorted_distinct` come out each once, in ascending
/// order, and are exactly the keys given: the order in which a `BTreeMap` or
/// `BTreeSet` of them is walked.
pub proof fn lemma_sorted_distinct_ascending(s: Seq<Seq<char>>)
    ensures
        ascending(sorted_distinct(s)),
        forall|y: Seq<char>| #[trigger] sorted_distinct(s).contains(y) <==> s.contains(y),
    decreases s.len(),
{
    if s.len() > 0 {
        let p = s.drop_last();
        lemma_sorted_distinct_ascending(p);
        lemma_insert_distinct_sorted_keeps(sorted_distinct(p), s.last());
        assert forall|y: Seq<char>| #[trigger] sorted_distinct(s).contains(y) <==> s.contains(y) by {
            if p.contains(y) {
                let k = choose|k: int| 0 <= k < p.len() && p[k] == y;
                assert(s[k] == y);
            }
            if s.contains(y) {
                let k = choose|k: int| 0 <= k < s.len() && s[k] == y;
                if k < s.len() - 1 {
                    assert(p[k] == y);
                }
            }
            assert(s[s.len() - 1] == s.last());
        }
    } else {
        assert(sorted_distinct(s) =~= Seq::<Seq<char>>::empty());
    }
}

} // verus!

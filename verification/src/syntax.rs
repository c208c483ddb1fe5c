//! A concrete syntax tree held as plain values: one entry per node (its kind,
//! the field it fills in its parent, its rows and byte range) with
//! first-child / next-sibling links, and the source bytes the ranges refer to.
use vstd::prelude::*;
use crate::text::{chars_of, str_eq, decode_utf8_bytes};
use crate::symbol::{opt_view, copy_opt};

verus! {

broadcast use vstd::seq_lib::group_seq_properties;

/// A syntax tree; node 0 is the root.
pub struct SyntaxTree {
    pub source: Vec<u8>,
    pub kinds: Vec<String>,
    pub fields: Vec<Option<String>>,
    pub named: Vec<bool>,
    pub start_rows: Vec<u32>,
    pub end_rows: Vec<u32>,
    pub start_bytes: Vec<usize>,
    pub end_bytes: Vec<usize>,
    pub first_child: Vec<Option<usize>>,
    pub next_sibling: Vec<Option<usize>>,
}

impl SyntaxTree {
    pub open spec fn size(&self) -> int {
        self.kinds@.len() as int
    }

    /// The columns agree in length, there is a root, byte ranges lie in the
    /// source, and every link points to a later node.
    pub open spec fn wf(&self) -> bool {
        let n = self.kinds@.len();
        &&& n >= 1
        &&& self.fields@.len() == n
        &&& self.named@.len() == n
        &&& self.start_rows@.len() == n
        &&& self.end_rows@.len() == n
        &&& self.start_bytes@.len() == n
        &&& self.end_bytes@.len() == n
        &&& self.first_child@.len() == n
        &&& self.next_sibling@.len() == n
        &&& forall|i: int|
            0 <= i < n ==> #[trigger] self.start_bytes@[i] <= self.end_bytes@[i] <= self.source@.len()
        &&& forall|i: int|
            0 <= i < n ==> (#[trigger] self.first_child@[i] matches Some(j) ==> i < j < n)
        &&& forall|i: int|
            0 <= i < n ==> (#[trigger] self.next_sibling@[i] matches Some(j) ==> i < j < n)
    }

    pub open spec fn kind_of(&self, i: int) -> Seq<char> {
        self.kinds@[i]@
    }

    pub open spec fn field_of(&self, i: int) -> Option<Seq<char>> {
        opt_view(self.fields@[i])
    }

    /// The node's source text: its bytes decoded, or nothing when they are not UTF-8.
    pub open spec fn text_of(&self, i: int) -> Seq<char> {
        let b = self.source@.subrange(self.start_bytes@[i] as int, self.end_bytes@[i] as int);
        if vstd::utf8::valid_utf8(b) {
            vstd::utf8::decode_utf8(b)
        } else {
            seq![]
        }
    }

    /// `j` and the siblings that follow it.
    pub open spec fn chain(&self, j: int) -> Seq<int>
        decreases self.kinds@.len() - j,
    {
        if 0 <= j < self.kinds@.len() {
            match self.next_sibling@[j] {
                Some(k) => if j < k < self.kinds@.len() {
                    seq![j] + self.chain(k as int)
                } else {
                    seq![j]
                },
                None => seq![j],
            }
        } else {
            seq![]
        }
    }

    /// The children of node `i`, in order.
    pub open spec fn children_of(&self, i: int) -> Seq<int> {
        match self.first_child@[i] {
            Some(j) => self.chain(j as int),
            None => seq![],
        }
    }

    /// The first of `ids` whose field name is `f`.
    pub open spec fn first_with_field(&self, ids: Seq<int>, f: Seq<char>) -> Option<int>
        decreases ids.len(),
    {
        if ids.len() == 0 {
            None
        } else if self.field_of(ids[0]) == Some(f) {
            Some(ids[0])
        } else {
            self.first_with_field(ids.drop_first(), f)
        }
    }

    /// The first of `ids` whose kind is `k`.
    pub open spec fn first_with_kind(&self, ids: Seq<int>, k: Seq<char>) -> Option<int>
        decreases ids.len(),
    {
        if ids.len() == 0 {
            None
        } else if self.kind_of(ids[0]) == k {
            Some(ids[0])
        } else {
            self.first_with_kind(ids.drop_first(), k)
        }
    }

    /// Number of nodes.
    pub fn len(&self) -> (r: usize)
        ensures
            r == self.size(),
    {
        self.kinds.len()
    }

    /// The grammar kind of node `i`.
    pub fn kind(&self, i: usize) -> (r: &str)
        requires
            self.wf(),
            i < self.size(),
        ensures
            r@ == self.kind_of(i as int),
    {
        self.kinds[i].as_str()
    }

    /// Whether node `i` has kind `k`.
    pub fn is_kind(&self, i: usize, k: &str) -> (r: bool)
        requires
            self.wf(),
            i < self.size(),
        ensures
            r == (self.kind_of(i as int) == k@),
    {
        str_eq(self.kinds[i].as_str(), k)
    }

    /// Whether node `i` is a named node of the grammar (not an anonymous token).
    pub fn is_named(&self, i: usize) -> (r: bool)
        requires
            self.wf(),
            i < self.size(),
        ensures
            r == self.named@[i as int],
    {
        self.named[i]
    }

    /// First row of node `i` (0-based).
    pub fn start_row(&self, i: usize) -> (r: u32)
        requires
            self.wf(),
            i < self.size(),
        ensures
            r == self.start_rows@[i as int],
    {
        self.start_rows[i]
    }

    /// Last row of node `i` (0-based).
    pub fn end_row(&self, i: usize) -> (r: u32)
        requires
            self.wf(),
            i < self.size(),
        ensures
            r == self.end_rows@[i as int],
    {
        self.end_rows[i]
    }

    /// The source text of node `i` (empty when its bytes are not UTF-8).
    pub fn text(&self, i: usize) -> (r: String)
        requires
            self.wf(),
            i < self.size(),
        ensures
            r@ == self.text_of(i as int),
    {
        let b = vstd::slice::slice_subrange(
            self.source.as_slice(),
            self.start_bytes[i],
            self.end_bytes[i],
        );
        match decode_utf8_bytes(b) {
            Some(s) => s,
            None => String::new(),
        }
    }

    /// The text of node `i` as characters.
    pub fn text_chars(&self, i: usize) -> (r: Vec<char>)
        requires
            self.wf(),
            i < self.size(),
        ensures
            r@ == self.text_of(i as int),
    {
        let s = self.text(i);
        chars_of(s.as_str())
    }

    /// The children of node `i`, in order.
    pub fn children(&self, i: usize) -> (r: Vec<usize>)
        requires
            self.wf(),
            i < self.size(),
        ensures
            r@.map_values(|x: usize| x as int) == self.children_of(i as int),
            forall|k: int| 0 <= k < r@.len() ==> i < #[trigger] r@[k] < self.size(),
    {
        let mut r: Vec<usize> = Vec::new();
        let mut cur = self.first_child[i];
        proof {
            assert(r@.map_values(|x: usize| x as int) =~= Seq::<int>::empty());
        }
        loop
            invariant
                self.wf(),
                i < self.size(),
                cur matches Some(c) ==> i < c < self.size(),
                forall|k: int| 0 <= k < r@.len() ==> i < #[trigger] r@[k] < self.size(),
                self.children_of(i as int) == r@.map_values(|x: usize| x as int) + (match cur {
                    Some(c) => self.chain(c as int),
                    None => Seq::<int>::empty(),
                }),
            decreases (match cur {
                Some(c) => self.size() - c,
                None => 0,
            }),
        {
            match cur {
                Some(c) => {
                    let ghost before = r@.map_values(|x: usize| x as int);
                    r.push(c);
                    proof {
                        assert(r@.map_values(|x: usize| x as int) =~= before.push(c as int));
                    }
                    let nx = self.next_sibling[c];
                    proof {
                        match nx {
                            Some(k) => {
                                assert(self.chain(c as int) =~= seq![c as int] + self.chain(k as int));
                            },
                            None => {
                                assert(self.chain(c as int) =~= seq![c as int]);
                            },
                        }
                    }
                    cur = nx;
                },
                None => {
                    proof {
                        assert(self.children_of(i as int) =~= r@.map_values(|x: usize| x as int));
                    }
                    return r;
                },
            }
        }
    }

    /// The first child of node `i` that fills the field `f`.
    pub fn child_by_field(&self, i: usize, f: &str) -> (r: Option<usize>)
        requires
            self.wf(),
            i < self.size(),
        ensures
            r matches Some(c) ==> i < c < self.size() && self.first_with_field(
                self.children_of(i as int),
                f@,
            ) == Some(c as int),
            r is None ==> self.first_with_field(self.children_of(i as int), f@) is None,
    {
        let kids = self.children(i);
        let ghost ks = kids@.map_values(|x: usize| x as int);
        let mut k: usize = 0;
        proof {
            assert(ks.subrange(0, ks.len() as int) =~= ks);
        }
        while k < kids.len()
            invariant
                self.wf(),
                k <= kids@.len(),
                ks == kids@.map_values(|x: usize| x as int),
                ks == self.children_of(i as int),
                forall|m: int| 0 <= m < kids@.len() ==> i < #[trigger] kids@[m] < self.size(),
                self.first_with_field(ks, f@) == self.first_with_field(
                    ks.subrange(k as int, ks.len() as int),
                    f@,
                ),
            decreases kids@.len() - k,
        {
            let c = kids[k];
            let ghost rest = ks.subrange(k as int, ks.len() as int);
            proof {
                assert(rest[0] == c as int);
                assert(rest.drop_first() =~= ks.subrange(k as int + 1, ks.len() as int));
            }
            let matched = match &self.fields[c] {
                Some(name) => str_eq(name.as_str(), f),
                None => false,
            };
            if matched {
                return Some(c);
            }
            k = k + 1;
        }
        None
    }

    /// The first of `ids` whose kind is one of `kinds`.
    pub open spec fn first_with_any_kind(&self, ids: Seq<int>, kinds: Seq<Seq<char>>) -> Option<int>
        decreases ids.len(),
    {
        if ids.len() == 0 {
            None
        } else if kinds.contains(self.kind_of(ids[0])) {
            Some(ids[0])
        } else {
            self.first_with_any_kind(ids.drop_first(), kinds)
        }
    }

    /// The first child of node `i` whose kind is one of `kinds`.
    pub fn find_child_by_any_kind(&self, i: usize, kinds: &[&str]) -> (r: Option<usize>)
        requires
            self.wf(),
            i < self.size(),
        ensures
            r matches Some(c) ==> i < c < self.size(),
            self.first_with_any_kind(self.children_of(i as int), kinds@.map_values(|k: &str| k@))
                == (match r {
                Some(c) => Some(c as int),
                None => None,
            }),
    {
        let ghost kv = kinds@.map_values(|k: &str| k@);
        let kids = self.children(i);
        let ghost ks = kids@.map_values(|x: usize| x as int);
        let mut k: usize = 0;
        proof {
            assert(ks.subrange(0, ks.len() as int) =~= ks);
        }
        while k < kids.len()
            invariant
                self.wf(),
                k <= kids@.len(),
                ks == kids@.map_values(|x: usize| x as int),
                ks == self.children_of(i as int),
                kv == kinds@.map_values(|k: &str| k@),
                forall|m: int| 0 <= m < kids@.len() ==> i < #[trigger] kids@[m] < self.size(),
                self.first_with_any_kind(ks, kv) == self.first_with_any_kind(
                    ks.subrange(k as int, ks.len() as int),
                    kv,
                ),
            decreases kids@.len() - k,
        {
            let c = kids[k];
            let ghost rest = ks.subrange(k as int, ks.len() as int);
            proof {
                assert(rest[0] == c as int);
                assert(rest.drop_first() =~= ks.subrange(k as int + 1, ks.len() as int));
            }
            let mut j: usize = 0;
            while j < kinds.len()
                invariant
                    self.wf(),
                    i < c < self.size(),
                    j <= kinds@.len(),
                    kv == kinds@.map_values(|k: &str| k@),
                    k < ks.len(),
                    ks[k as int] == c as int,
                    ks == self.children_of(i as int),
                    self.first_with_any_kind(ks, kv) == self.first_with_any_kind(
                        ks.subrange(k as int, ks.len() as int),
                        kv,
                    ),
                    forall|m: int| 0 <= m < j ==> kv[m] != self.kind_of(c as int),
                decreases kinds@.len() - j,
            {
                if self.is_kind(c, kinds[j]) {
                    proof {
                        assert(kv[j as int] == self.kind_of(c as int));
                        assert(kv.contains(self.kind_of(c as int)));
                    }
                    return Some(c);
                }
                j = j + 1;
            }
            proof {
                assert(!kv.contains(self.kind_of(c as int)));
            }
            k = k + 1;
        }
        proof {
            assert(ks.subrange(k as int, ks.len() as int).len() == 0);
        }
        None
    }

    /// The first child of node `i` whose kind is `kind`.
    pub fn find_child_by_kind(&self, i: usize, kind: &str) -> (r: Option<usize>)
        requires
            self.wf(),
            i < self.size(),
        ensures
            r matches Some(c) ==> i < c < self.size() && self.kind_of(c as int) == kind@
                && self.first_with_kind(self.children_of(i as int), kind@) == Some(c as int),
            r is None ==> self.first_with_kind(self.children_of(i as int), kind@) is None,
    {
        let kids = self.children(i);
        let ghost ks = kids@.map_values(|x: usize| x as int);
        let mut k: usize = 0;
        proof {
            assert(ks.subrange(0, ks.len() as int) =~= ks);
        }
        while k < kids.len()
            invariant
                self.wf(),
                k <= kids@.len(),
                ks == kids@.map_values(|x: usize| x as int),
                ks == self.children_of(i as int),
                forall|m: int| 0 <= m < kids@.len() ==> i < #[trigger] kids@[m] < self.size(),
                self.first_with_kind(ks, kind@) == self.first_with_kind(
                    ks.subrange(k as int, ks.len() as int),
                    kind@,
                ),
            decreases kids@.len() - k,
        {
            let c = kids[k];
            let ghost rest = ks.subrange(k as int, ks.len() as int);
            proof {
                assert(rest[0] == c as int);
                assert(rest.drop_first() =~= ks.subrange(k as int + 1, ks.len() as int));
            }
            if self.is_kind(c, kind) {
                return Some(c);
            }
            k = k + 1;
        }
        None
    }
}


/// One node of a parsed tree as plain values. A parser lists the nodes of a
/// tree in preorder, the root first, each with its depth below the root.
pub struct NodeRecord {
    pub kind: String,
    pub named: bool,
    /// The field the node fills in its parent, if any.
    pub field: Option<String>,
    pub start_row: u32,
    pub end_row: u32,
    pub start_byte: usize,
    pub end_byte: usize,
    pub depth: u32,
}

/// The mathematical value of a node record.
pub struct NodeRecordView {
    pub kind: Seq<char>,
    pub named: bool,
    pub field: Option<Seq<char>>,
    pub start_row: u32,
    pub end_row: u32,
    pub start_byte: usize,
    pub end_byte: usize,
    pub depth: u32,
}

impl View for NodeRecord {
    type V = NodeRecordView;

    open spec fn view(&self) -> NodeRecordView {
        NodeRecordView {
            kind: self.kind@,
            named: self.named,
            field: opt_view(self.field),
            start_row: self.start_row,
            end_row: self.end_row,
            start_byte: self.start_byte,
            end_byte: self.end_byte,
            depth: self.depth,
        }
    }
}

/// The values of a sequence of node records.
pub open spec fn record_views(rs: Seq<NodeRecord>) -> Seq<NodeRecordView> {
    rs.map_values(|r: NodeRecord| r@)
}

/// The first child of node `k` of a preorder listing: the next node, when it
/// lies one level deeper.
pub open spec fn first_child_in(recs: Seq<NodeRecordView>, k: int) -> Option<usize> {
    if k + 1 < recs.len() && recs[k + 1].depth == recs[k].depth + 1 {
        Some((k + 1) as usize)
    } else {
        None
    }
}

/// The first node from `j` on that lies no deeper than node `k` (where the
/// subtree of `k` has ended), or the length of the listing.
pub open spec fn subtree_end(recs: Seq<NodeRecordView>, k: int, j: int) -> int
    decreases recs.len() - j,
{
    if j < 0 || j >= recs.len() {
        recs.len() as int
    } else if recs[j].depth <= recs[k].depth {
        j
    } else {
        subtree_end(recs, k, j + 1)
    }
}

/// The next sibling of node `k` of a preorder listing: the node where its
/// subtree ends, when that node lies at the depth of `k`.
pub open spec fn next_sibling_in(recs: Seq<NodeRecordView>, k: int) -> Option<usize> {
    let j = subtree_end(recs, k, k + 1);
    if j < recs.len() && recs[j].depth == recs[k].depth {
        Some(j as usize)
    } else {
        None
    }
}

/// The end of a node's byte range, cut to a source of `len` bytes.
pub open spec fn clamped_end(r: NodeRecordView, len: int) -> usize {
    if r.end_byte > len {
        len as usize
    } else {
        r.end_byte
    }
}

/// The start of a node's byte range, cut to its clamped end.
pub open spec fn clamped_start(r: NodeRecordView, len: int) -> usize {
    let e = clamped_end(r, len);
    if r.start_byte > e {
        e
    } else {
        r.start_byte
    }
}

/// Node `i` of `t` is record `i` of `recs`, with its byte range cut to the
/// source and its links read from the depths.
pub open spec fn node_from(t: SyntaxTree, recs: Seq<NodeRecordView>, i: int) -> bool {
    let len = t.source@.len() as int;
    &&& t.kind_of(i) == recs[i].kind
    &&& t.named@[i] == recs[i].named
    &&& t.field_of(i) == recs[i].field
    &&& t.start_rows@[i] == recs[i].start_row
    &&& t.end_rows@[i] == recs[i].end_row
    &&& t.start_bytes@[i] == clamped_start(recs[i], len)
    &&& t.end_bytes@[i] == clamped_end(recs[i], len)
    &&& t.first_child@[i] == first_child_in(recs, i)
    &&& t.next_sibling@[i] == next_sibling_in(recs, i)
}

/// `t` is the tree over `source` whose nodes are `recs`, node `i` being record `i`.
pub open spec fn built_from(t: SyntaxTree, source: Seq<u8>, recs: Seq<NodeRecordView>) -> bool {
    &&& t.source@ == source
    &&& t.size() == recs.len()
    &&& forall|i: int| 0 <= i < recs.len() ==> #[trigger] node_from(t, recs, i)
}

/// The first child of record `k`, read from the depths.
fn first_child_at(records: &Vec<NodeRecord>, k: usize) -> (r: Option<usize>)
    requires
        k < records@.len(),
    ensures
        r == first_child_in(record_views(records@), k as int),
{
    let n = records.len();
    if k + 1 < n && records[k + 1].depth > records[k].depth && records[k + 1].depth
        - records[k].depth == 1 {
        Some(k + 1)
    } else {
        None
    }
}

/// The next sibling of record `k`: scans past the records of its subtree.
fn next_sibling_at(records: &Vec<NodeRecord>, k: usize) -> (r: Option<usize>)
    requires
        k < records@.len(),
    ensures
        r == next_sibling_in(record_views(records@), k as int),
{
    let ghost recs = record_views(records@);
    let n = records.len();
    let d = records[k].depth;
    let mut j = k + 1;
    while j < n && records[j].depth > d
        invariant
            k < j <= records@.len(),
            n == records@.len(),
            recs == record_views(records@),
            d == recs[k as int].depth,
            subtree_end(recs, k as int, j as int) == subtree_end(recs, k as int, k + 1),
        decreases records@.len() - j,
    {
        j = j + 1;
    }
    if j < n && records[j].depth == d {
        Some(j)
    } else {
        None
    }
}

/// The tree over `source` whose nodes are `records`, listed in preorder with
/// their depths: each node's first child is the next record when it lies one
/// level deeper, its next sibling the record where its subtree ends when that
/// lies at its own depth, and its byte range is cut to the source.
pub fn syntax_from_records(source: &[u8], records: &Vec<NodeRecord>) -> (t: SyntaxTree)
    requires
        records@.len() >= 1,
    ensures
        t.wf(),
        built_from(t, source@, record_views(records@)),
{
    let ghost recs = record_views(records@);
    let n = records.len();
    let len = source.len();
    let mut t = SyntaxTree {
        source: vstd::slice::slice_to_vec(source),
        kinds: Vec::new(),
        fields: Vec::new(),
        named: Vec::new(),
        start_rows: Vec::new(),
        end_rows: Vec::new(),
        start_bytes: Vec::new(),
        end_bytes: Vec::new(),
        first_child: Vec::new(),
        next_sibling: Vec::new(),
    };
    let mut i: usize = 0;
    while i < n
        invariant
            i <= n,
            n == records@.len(),
            recs == record_views(records@),
            len == source@.len(),
            t.source@ == source@,
            t.kinds@.len() == i,
            t.fields@.len() == i,
            t.named@.len() == i,
            t.start_rows@.len() == i,
            t.end_rows@.len() == i,
            t.start_bytes@.len() == i,
            t.end_bytes@.len() == i,
            t.first_child@.len() == i,
            t.next_sibling@.len() == i,
            forall|k: int| 0 <= k < i ==> #[trigger] node_from(t, recs, k),
        decreases n - i,
    {
        let r = &records[i];
        let eb = if r.end_byte > len {
            len
        } else {
            r.end_byte
        };
        let sb = if r.start_byte > eb {
            eb
        } else {
            r.start_byte
        };
        let fc = first_child_at(records, i);
        let ns = next_sibling_at(records, i);
        let ghost t0 = t;
        t.kinds.push(r.kind.clone());
        t.fields.push(copy_opt(&r.field));
        t.named.push(r.named);
        t.start_rows.push(r.start_row);
        t.end_rows.push(r.end_row);
        t.start_bytes.push(sb);
        t.end_bytes.push(eb);
        t.first_child.push(fc);
        t.next_sibling.push(ns);
        proof {
            assert forall|k: int| 0 <= k < i + 1 implies #[trigger] node_from(t, recs, k) by {
                if k < i {
                    assert(node_from(t0, recs, k));
                }
            }
        }
        i = i + 1;
    }
    proof {
        assert forall|k: int| 0 <= k < n implies #[trigger] t.start_bytes@[k] <= t.end_bytes@[k]
            <= t.source@.len() by {
            assert(node_from(t, recs, k));
        }
        assert forall|k: int| 0 <= k < n implies (#[trigger] t.first_child@[k] matches Some(j)
            ==> k < j < n) by {
            assert(node_from(t, recs, k));
        }
        assert forall|k: int| 0 <= k < n implies (#[trigger] t.next_sibling@[k] matches Some(j)
            ==> k < j < n) by {
            assert(node_from(t, recs, k));
            lemma_subtree_end_after(recs, k, k + 1);
        }
    }
    t
}

/// The node where a subtree ends lies at or after the node the search starts from.
proof fn lemma_subtree_end_after(recs: Seq<NodeRecordView>, k: int, j: int)
    requires
        0 <= j <= recs.len(),
    ensures
        j <= subtree_end(recs, k, j) <= recs.len(),
    decreases recs.len() - j,
{
    if j < recs.len() && recs[j].depth > recs[k].depth {
        lemma_subtree_end_after(recs, k, j + 1);
    }
}

} // verus!

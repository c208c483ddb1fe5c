//! What the language extractors share: the result they fill, the invariant it
//! keeps (every symbol belongs to the file and language being read, parents
//! come before their children, raw edges leave extracted symbols), and the
//! helpers that build symbols and edges.
use vstd::prelude::*;
use crate::text::{
    chars_of, string_of, append_chars, append_str, strip_prefix, strip_prefix_chars, contains,
    has_char, is_prefix, trim_ws,
};
use crate::symbol::{SymbolNode, SymbolView, SymbolKind, Language, Visibility, NodeId, node_id_of, opt_view};
use crate::relation::{RawEdge, RawEdgeView, EdgeKind};
use crate::graph::{views, raw_views, has_id};
use crate::syntax::SyntaxTree;

verus! {

broadcast use vstd::seq_lib::group_seq_properties;

/// The symbols and raw (unresolved) edges extracted from one file.
pub struct ExtractResult {
    pub symbols: Vec<SymbolNode>,
    pub raw_edges: Vec<RawEdge>,
}

/// Every symbol belongs to the file `path` and the language `lang`.
pub open spec fn placed(syms: Seq<SymbolView>, path: Seq<char>, lang: Language) -> bool {
    forall|i: int|
        0 <= i < syms.len() ==> (#[trigger] syms[i]).file_path == path && syms[i].language
            == lang
}

/// Every parent is a symbol extracted before its child.
pub open spec fn parents_precede(syms: Seq<SymbolView>) -> bool {
    forall|i: int|
        0 <= i < syms.len() ==> ((#[trigger] syms[i]).parent matches Some(p) ==> has_id(
            syms.take(i),
            p,
        ))
}

/// Raw edges that leave no extracted symbol: in Rust, a trait implementation
/// is recorded from the implementing type's name, not from a symbol.
pub open spec fn loose_edge(lang: Language, kind: EdgeKind) -> bool {
    lang == Language::Rust && kind == EdgeKind::Implements
}

/// Every raw edge (but the loose ones of the language) leaves an extracted symbol.
pub open spec fn anchored(syms: Seq<SymbolView>, raws: Seq<RawEdgeView>, lang: Language) -> bool {
    forall|k: int|
        0 <= k < raws.len() ==> loose_edge(lang, (#[trigger] raws[k]).kind) || has_id(
            syms,
            raws[k].source,
        )
}

/// All identifiers of `a` are still present in `b`.
pub open spec fn keeps_ids(a: Seq<SymbolView>, b: Seq<SymbolView>) -> bool {
    forall|x: NodeId| has_id(a, x) ==> #[trigger] has_id(b, x)
}

impl ExtractResult {
    pub open spec fn syms(&self) -> Seq<SymbolView> {
        views(self.symbols@)
    }

    pub open spec fn raws(&self) -> Seq<RawEdgeView> {
        raw_views(self.raw_edges@)
    }

    /// The extraction invariant for the file `path` in the language `lang`.
    pub open spec fn ok(&self, path: Seq<char>, lang: Language) -> bool {
        &&& placed(self.syms(), path, lang)
        &&& parents_precede(self.syms())
        &&& anchored(self.syms(), self.raws(), lang)
    }

    /// An empty result.
    pub fn new() -> (r: ExtractResult)
        ensures
            r.symbols@.len() == 0,
            r.raw_edges@.len() == 0,
            forall|p: Seq<char>, l: Language| r.ok(p, l),
    {
        let r = ExtractResult { symbols: Vec::new(), raw_edges: Vec::new() };
        proof {
            assert(r.syms() =~= Seq::<SymbolView>::empty());
            assert(r.raws() =~= Seq::<RawEdgeView>::empty());
        }
        r
    }

    /// Appends a symbol of the file, whose parent (if any) is already present.
    pub fn add_symbol(&mut self, s: SymbolNode, path: &str, lang: Language)
        requires
            old(self).ok(path@, lang),
            s.file_path@ == path@,
            s.language == lang,
            s.parent matches Some(p) ==> has_id(old(self).syms(), p),
        ensures
            final(self).ok(path@, lang),
            final(self).syms() == old(self).syms().push(s@),
            final(self).raw_edges@ == old(self).raw_edges@,
            keeps_ids(old(self).syms(), final(self).syms()),
            has_id(final(self).syms(), s.id),
    {
        let ghost a = self.syms();
        let ghost sv = s@;
        self.symbols.push(s);
        proof {
            let b = self.syms();
            assert(b =~= a.push(sv));
            assert(b.take(a.len() as int) =~= a);
            assert(b[a.len() as int].id == sv.id);
            assert forall|x: NodeId| has_id(a, x) implies #[trigger] has_id(b, x) by {
                let i = choose|i: int| 0 <= i < a.len() && #[trigger] a[i].id == x;
                assert(b[i].id == x);
            }
            assert forall|i: int| 0 <= i < b.len() implies ((#[trigger] b[i]).parent matches Some(p)
                ==> has_id(b.take(i), p)) by {
                if i < a.len() {
                    assert(b.take(i) =~= a.take(i));
                    assert(b[i] == a[i]);
                }
            }
            assert forall|k: int| 0 <= k < self.raws().len() implies loose_edge(
                lang,
                (#[trigger] self.raws()[k]).kind,
            ) || has_id(b, self.raws()[k].source) by {
                if !loose_edge(lang, self.raws()[k].kind) {
                    assert(has_id(a, self.raws()[k].source));
                }
            }
        }
    }

    /// Appends a raw edge that leaves a symbol already present (or is loose).
    pub fn add_edge(&mut self, e: RawEdge, Ghost(path): Ghost<Seq<char>>, Ghost(lang): Ghost<Language>)
        requires
            old(self).ok(path, lang),
            has_id(old(self).syms(), e.source) || loose_edge(lang, e.kind),
        ensures
            final(self).ok(path, lang),
            final(self).symbols@ == old(self).symbols@,
            final(self).raws() == old(self).raws().push(e@),
    {
        let ghost ev = e@;
        self.raw_edges.push(e);
        proof {
            assert(self.raws() =~= old(self).raws().push(ev));
        }
    }
}

/// The first child of `n` with the field name `f`.
pub open spec fn field_child(t: SyntaxTree, n: int, f: Seq<char>) -> Option<int> {
    t.first_with_field(t.children_of(n), f)
}

/// The first and last row of `n`.
pub open spec fn node_rows(t: SyntaxTree, n: int) -> (u32, u32) {
    (t.start_rows@[n], t.end_rows@[n])
}

/// A symbol whose identifier is derived from its file, name, kind and first row.
pub open spec fn symbol_at(
    path: Seq<char>,
    name: Seq<char>,
    kind: SymbolKind,
    rows: (u32, u32),
    signature: Option<Seq<char>>,
    visibility: Visibility,
    lang: Language,
    parent: Option<NodeId>,
) -> SymbolView {
    SymbolView {
        id: node_id_of(path, name, kind, rows.0),
        name: name,
        kind: kind,
        file_path: path,
        line_range: rows,
        signature: signature,
        doc_comment: None,
        visibility: visibility,
        language: lang,
        parent: parent,
    }
}

/// Builds a symbol whose identifier is `NodeId::new(path, name, kind, rows.0)`.
pub fn make_symbol(
    path: &str,
    name: String,
    kind: SymbolKind,
    rows: (u32, u32),
    signature: Option<String>,
    visibility: Visibility,
    lang: Language,
    parent: Option<NodeId>,
) -> (r: SymbolNode)
    ensures
        r@ == symbol_at(
            path@,
            name@,
            kind,
            rows,
            crate::symbol::opt_view(signature),
            visibility,
            lang,
            parent,
        ),
{
    let id = NodeId::new(path, name.as_str(), kind, rows.0);
    SymbolNode {
        id,
        name,
        kind,
        file_path: path.to_string(),
        line_range: rows,
        signature,
        doc_comment: None,
        visibility,
        language: lang,
        parent,
    }
}

/// A raw edge with no module hint.
pub fn make_edge(source: NodeId, kind: EdgeKind, target: String, line: u32) -> (r: RawEdge)
    ensures
        r@ == (RawEdgeView {
            source: source,
            kind: kind,
            target_name: target@,
            target_module: None,
            source_line: line,
        }),
{
    RawEdge { source, kind, target_name: target, target_module: None, source_line: line }
}

/// The last component of a path (`Path::file_name`, lossily as text), if any.
pub uninterp spec fn file_name_of(p: Seq<char>) -> Option<Seq<char>>;

/// The file name of a path, or nothing where it has none.
pub open spec fn file_name_or_empty(p: Seq<char>) -> Seq<char> {
    match file_name_of(p) {
        Some(n) => n,
        None => seq![],
    }
}

/// `Path::new(p).file_name()`, lossily converted; the contract names the result
/// and claims that a plain name without `/` (not `.` or `..`) is its own file name.
#[verifier::external_body]
pub(crate) fn file_name(p: &str) -> (r: Option<String>)
    ensures
        crate::symbol::opt_view(r) == file_name_of(p@),
        (!p@.contains('/') && p@.len() > 0 && p@ != "."@ && p@ != ".."@) ==> crate::symbol::opt_view(r) == Some(p@),
{
    match std::path::Path::new(p).file_name() {
        Some(n) => Some(n.to_string_lossy().into_owned()),
        None => None,
    }
}

/// The file name of a path, or the empty string where it has none.
pub(crate) fn file_name_text(p: &str) -> (r: String)
    ensures
        r@ == file_name_or_empty(p@),
{
    proof {
        reveal_strlit("");
    }
    match file_name(p) {
        Some(n) => n,
        None => String::new(),
    }
}

/// The number of newline bytes.
pub open spec fn newline_count(b: Seq<u8>) -> nat
    decreases b.len(),
{
    if b.len() == 0 {
        0
    } else {
        newline_count(b.drop_last()) + if b.last() == 10u8 {
            1nat
        } else {
            0nat
        }
    }
}

/// Counts the newline bytes of `b`.
pub fn count_newlines(b: &[u8]) -> (r: usize)
    ensures
        r == newline_count(b@),
{
    let mut n: usize = 0;
    let mut i: usize = 0;
    while i < b.len()
        invariant
            i <= b@.len(),
            n == newline_count(b@.take(i as int)),
            n <= i,
        decreases b@.len() - i,
    {
        proof {
            assert(b@.take(i as int + 1).drop_last() =~= b@.take(i as int));
        }
        if b[i] == 10u8 {
            n = n + 1;
        }
        i = i + 1;
    }
    proof {
        assert(b@.take(b@.len() as int) =~= b@);
    }
    n
}

/// The `File` symbol that opens every extraction.
pub open spec fn file_symbol(path: Seq<char>, lang: Language, source: Seq<u8>) -> SymbolView {
    SymbolView {
        id: node_id_of(path, path, SymbolKind::File, 0),
        name: file_name_or_empty(path),
        kind: SymbolKind::File,
        file_path: path,
        line_range: (0, newline_count(source) as u32),
        signature: None,
        doc_comment: None,
        visibility: Visibility::Public,
        language: lang,
        parent: None,
    }
}

/// Starts an extraction with the `File` symbol of `path`.
pub fn start_extraction(tree: &SyntaxTree, path: &str, lang: Language) -> (r: ExtractResult)
    ensures
        r.ok(path@, lang),
        r.syms() == seq![file_symbol(path@, lang, tree.source@)],
        r.symbols@.len() == 1,
        r.symbols@[0]@ == file_symbol(path@, lang, tree.source@),
        r.raw_edges@.len() == 0,
{
    let mut r = ExtractResult::new();
    let id = NodeId::new(path, path, SymbolKind::File, 0);
    let n = count_newlines(tree.source.as_slice());
    let s = SymbolNode {
        id,
        name: file_name_text(path),
        kind: SymbolKind::File,
        file_path: path.to_string(),
        line_range: (0, n as u32),
        signature: None,
        doc_comment: None,
        visibility: Visibility::Public,
        language: lang,
        parent: None,
    };
    r.add_symbol(s, path, lang);
    proof {
        assert(r.syms() =~= seq![file_symbol(path@, lang, tree.source@)]);
    }
    r
}

/// Extraction results for a whole file: the invariant, and the `File` symbol first.
pub open spec fn extraction_of(r: ExtractResult, path: Seq<char>, lang: Language, source: Seq<u8>) -> bool {
    &&& r.ok(path, lang)
    &&& r.syms().len() >= 1
    &&& r.syms()[0] == file_symbol(path, lang, source)
}

/// What the walkers over one file's tree need: a well-formed tree, a node of
/// it, the invariant, and a parent that is already extracted.
pub open spec fn walk_ready(
    tree: &SyntaxTree,
    node: usize,
    path: Seq<char>,
    lang: Language,
    out: &ExtractResult,
    parent: NodeId,
) -> bool {
    &&& tree.wf()
    &&& node < tree.size()
    &&& out.ok(path, lang)
    &&& has_id(out.syms(), parent)
}

/// What the walkers over one file's tree keep: the invariant, and every
/// symbol already extracted stays where it is.
pub open spec fn walk_kept(old_out: &ExtractResult, new_out: &ExtractResult, path: Seq<char>, lang: Language) -> bool {
    &&& new_out.ok(path, lang)
    &&& old_out.syms().len() <= new_out.syms().len()
    &&& forall|i: int|
        0 <= i < old_out.syms().len() ==> #[trigger] new_out.syms()[i] == old_out.syms()[i]
    &&& keeps_ids(old_out.syms(), new_out.syms())
}

/// First and last row of a node.
pub fn rows(tree: &SyntaxTree, n: usize) -> (r: (u32, u32))
    requires
        tree.wf(),
        n < tree.size(),
    ensures
        r == (tree.start_rows@[n as int], tree.end_rows@[n as int]),
{
    (tree.start_row(n), tree.end_row(n))
}

/// The directory part of a path (`Path::parent`), lossily as text.
pub uninterp spec fn parent_dir_of(p: Seq<char>) -> Option<Seq<char>>;

/// `Path::new(p).parent()`, lossily converted; the contract names the result.
#[verifier::external_body]
pub(crate) fn parent_dir(p: &str) -> (r: Option<String>)
    ensures
        crate::symbol::opt_view(r) == parent_dir_of(p@),
{
    match std::path::Path::new(p).parent() {
        Some(d) => Some(d.to_string_lossy().into_owned()),
        None => None,
    }
}

/// A path joined onto a directory as `Path::join` does on Unix: an absolute
/// path replaces the directory; otherwise a `/` goes between them unless the
/// directory is empty or already ends with one.
pub open spec fn joined_path(dir: Seq<char>, rel: Seq<char>) -> Seq<char> {
    if rel.len() > 0 && rel[0] == '/' {
        rel
    } else if dir.len() == 0 || dir.last() == '/' {
        dir + rel
    } else {
        dir + seq!['/'] + rel
    }
}

/// `Path::new(dir).join(rel)`, as text; on Unix (where text paths are their
/// bytes) its documentation gives `joined_path`.
#[verifier::external_body]
pub(crate) fn join_path(dir: &str, rel: &str) -> (r: String)
    ensures
        r@ == joined_path(dir@, rel@),
{
    std::path::Path::new(dir).join(rel).to_string_lossy().into_owned()
}

/// Whether a trimmed line is part of a documentation comment: `///`, `/**`,
/// or a `*` continuation line.
pub open spec fn doc_line(t: Seq<char>) -> bool {
    is_prefix("///"@, t) || is_prefix("/**"@, t) || is_prefix("*"@, t)
}

fn is_doc_line(t: &[char]) -> (r: bool)
    ensures
        r == doc_line(t@),
{
    crate::text::starts_with(t, &chars_of("///")) || crate::text::starts_with(t, &chars_of("/**"))
        || crate::text::starts_with(t, &chars_of("*"))
}

/// Where the line holding byte position `p` starts: just after the last
/// newline before `p`, or 0.
pub open spec fn line_start(src: Seq<u8>, p: int) -> int
    decreases p,
{
    if p <= 0 {
        0
    } else if src[p - 1] == 10u8 {
        p
    } else {
        line_start(src, p - 1)
    }
}

/// The start of a line lies between the beginning of the text and the position.
pub proof fn lemma_line_start_bounds(src: Seq<u8>, p: int)
    requires
        0 <= p,
    ensures
        0 <= line_start(src, p) <= p,
    decreases p,
{
    if p > 0 && src[p - 1] != 10u8 {
        lemma_line_start_bounds(src, p - 1);
    }
}

/// The trimmed documentation lines directly above the line that starts at
/// `pos`, nearest first: the run stops at the first line that is not valid
/// UTF-8 or not a documentation line. A line's trailing `\r` is dropped.
pub open spec fn doc_lines_above(src: Seq<u8>, pos: int) -> Seq<Seq<char>>
    decreases pos,
{
    if pos <= 0 || pos > src.len() {
        seq![]
    } else {
        let line_end = pos - 1;
        let start = line_start(src, line_end);
        proof {
            lemma_line_start_bounds(src, line_end);
        }
        let end = if line_end > start && src[line_end - 1] == 13u8 {
            line_end - 1
        } else {
            line_end
        };
        let b = src.subrange(start, end);
        if !vstd::utf8::valid_utf8(b) {
            seq![]
        } else {
            let t = trim_ws(vstd::utf8::decode_utf8(b));
            if !doc_line(t) {
                seq![]
            } else {
                seq![t] + doc_lines_above(src, start)
            }
        }
    }
}

/// The lines joined with newlines, the last of them first.
pub open spec fn join_reversed(lines: Seq<Seq<char>>) -> Seq<char>
    decreases lines.len(),
{
    if lines.len() == 0 {
        seq![]
    } else if lines.len() == 1 {
        lines[0]
    } else {
        join_reversed(lines.drop_first()) + seq!['\n'] + lines[0]
    }
}

/// The documentation comment above node `n`, in source order.
pub open spec fn doc_comment_of(t: SyntaxTree, n: int) -> Option<Seq<char>> {
    let lines = doc_lines_above(t.source@, line_start(t.source@, t.start_bytes@[n] as int));
    if lines.len() == 0 {
        None
    } else {
        Some(join_reversed(lines))
    }
}

/// The documentation comment written on the lines just above node `node`: the
/// run of `///`, `/**` and `*` lines that ends on the line before the one the
/// node starts on, each line trimmed, joined with newlines; `None` when there is
/// no such line (or a line in the run is not valid UTF-8).
pub fn preceding_doc_comment(tree: &SyntaxTree, node: usize) -> (r: Option<String>)
    requires
        tree.wf(),
        node < tree.size(),
    ensures
        opt_view(r) == doc_comment_of(*tree, node as int),
{
    let src = tree.source.as_slice();
    let ghost s = src@;
    let mut pos = tree.start_bytes[node];
    let ghost p0 = pos as int;
    while pos > 0 && src[pos - 1] != 10u8
        invariant
            pos <= src@.len(),
            s == src@,
            line_start(s, pos as int) == line_start(s, p0),
        decreases pos,
    {
        pos = pos - 1;
    }
    let ghost first = pos as int;
    let mut collected: Vec<Vec<char>> = Vec::new();
    let mut stop = false;
    while !stop && pos > 0
        invariant
            pos <= src@.len(),
            s == src@,
            collected@.map_values(|v: Vec<char>| v@) + (if stop { seq![] } else { doc_lines_above(s, pos as int) })
                == doc_lines_above(s, first),
        decreases 2 * pos + (if stop { 0int } else { 1int }),
    {
        let line_end = pos - 1;
        let mut start = line_end;
        while start > 0 && src[start - 1] != 10u8
            invariant
                start <= line_end < src@.len(),
                s == src@,
                line_start(s, start as int) == line_start(s, line_end as int),
            decreases start,
        {
            start = start - 1;
        }
        let mut end = line_end;
        if end > start && src[end - 1] == 13u8 {
            end = end - 1;
        }
        let bytes = vstd::slice::slice_subrange(src, start, end);
        match crate::text::decode_utf8_bytes(bytes) {
            Some(text) => {
                let tc = chars_of(text.as_str());
                let t = crate::text::trim_chars(&tc);
                if !is_doc_line(&t) {
                    stop = true;
                } else {
                    let ghost before = collected@.map_values(|v: Vec<char>| v@);
                    collected.push(t);
                    proof {
                        assert(collected@.map_values(|v: Vec<char>| v@) =~= before.push(t@));
                        assert(before.push(t@) + doc_lines_above(s, start as int) =~= before + (seq![t@]
                            + doc_lines_above(s, start as int)));
                    }
                    pos = start;
                }
            },
            None => {
                stop = true;
            },
        }
    }
    let ghost lines = collected@.map_values(|v: Vec<char>| v@);
    proof {
        assert(lines =~= doc_lines_above(s, first));
    }
    if collected.len() == 0 {
        return None;
    }
    let n = collected.len();
    let mut out: Vec<char> = Vec::new();
    let mut k = n;
    while k > 0
        invariant
            k <= n,
            n == collected@.len(),
            n > 0,
            lines == collected@.map_values(|v: Vec<char>| v@),
            k == n ==> out@ == Seq::<char>::empty(),
            k < n ==> out@ == join_reversed(lines.subrange(k as int, n as int)) + (if k > 0 {
                seq!['\n']
            } else {
                seq![]
            }),
        decreases k,
    {
        k = k - 1;
        let ghost prev = out@;
        append_chars(&mut out, &collected[k]);
        proof {
            let sub = lines.subrange(k as int, n as int);
            assert(sub.drop_first() =~= lines.subrange(k as int + 1, n as int));
            assert(sub[0] == collected@[k as int]@);
            if k + 1 < n {
                assert(out@ =~= join_reversed(sub));
            } else {
                assert(sub.len() == 1);
                assert(out@ =~= join_reversed(sub));
            }
        }
        if k > 0 {
            out.push('\n');
        }
    }
    proof {
        assert(lines.subrange(0, n as int) =~= lines);
    }
    Some(string_of(&out))
}

// ---------------------------------------------------------------------------
// Member calls.
// ---------------------------------------------------------------------------

/// `this.m` / `self.m` with a single-level `m` becomes `Class.m`; anything else
/// stays as it is.
pub open spec fn member_call_of(target: Seq<char>, class_name: Seq<char>) -> Seq<char> {
    let m = match strip_prefix(target, "this."@) {
        Some(m) => Some(m),
        None => strip_prefix(target, "self."@),
    };
    match m {
        None => target,
        Some(m) => if m.contains('.') {
            target
        } else {
            class_name + seq!['.'] + m
        },
    }
}

/// Qualifies a `this.method` or `self.method` call target with the enclosing
/// class name; multi-level targets (`this.a.b`) and other receivers are
/// returned unchanged.
pub fn qualify_member_call(target: &str, class_name: &str) -> (r: String)
    ensures
        r@ == member_call_of(target@, class_name@),
{
    let t = chars_of(target);
    let this_dot = chars_of("this.");
    let self_dot = chars_of("self.");
    let m = match strip_prefix_chars(&t, &this_dot) {
        Some(m) => m,
        None => match strip_prefix_chars(&t, &self_dot) {
            Some(m) => m,
            None => {
                return target.to_string();
            },
        },
    };
    if has_char(&m, '.') {
        return target.to_string();
    }
    let mut out = chars_of(class_name);
    out.push('.');
    append_chars(&mut out, &m);
    string_of(&out)
}

} // verus!

//! File-based route detection: Next.js App Router (`app/**/page.tsx`,
//! `app/**/route.ts`), Pages Router (`pages/**/*.tsx`), Remix (`routes/**`),
//! Nuxt 3 (`pages/**/*.vue`) and SvelteKit (`routes/**/+page.svelte`).
use vstd::prelude::*;
use crate::text::{
    chars_of, string_of, cat, append_chars, append_str, contains, contains_chars, is_suffix,
    ends_with, is_prefix, starts_with, after_last, after_last_chars, trim_end_pat,
    trim_end_pat_chars, trim_start_char, trim_end_char, trim_start_char_chars, trim_end_char_chars,
    trim_start_pat, trim_start_pat_chars, strip_prefix, strip_suffix, strip_prefix_chars,
    strip_suffix_chars, split_char, split_char_chars, rfind, rsplit_once_char, replace,
    replace_chars, to_ascii_lower, to_ascii_lower_chars, eq_chars, str_eq,
};
use crate::graph::{CodeGraph, views, raw_views, has_id, upsert_all, distinct_paths};
use crate::symbol::{SymbolNode, SymbolView, SymbolKind, Language, Visibility, NodeId, node_id_of, id_hex};
use crate::relation::{RawEdge, RawEdgeView, EdgeKind};

verus! {

broadcast use vstd::seq_lib::group_seq_properties;

// ---------------------------------------------------------------------------
// Route paths.
// ---------------------------------------------------------------------------

/// A `(group)` segment, which does not appear in the URL.
pub open spec fn is_group(seg: Seq<char>) -> bool {
    is_prefix("("@, seg) && is_suffix(")"@, seg)
}

/// `[...name]` → `:name*`, `[name]` → `:name`, anything else unchanged.
pub open spec fn next_segment(seg: Seq<char>) -> Seq<char> {
    match strip_prefix(seg, "[..."@) {
        Some(a) => match strip_suffix(a, "]"@) {
            Some(inner) => seq![':'] + inner + seq!['*'],
            None => plain_bracket(seg),
        },
        None => plain_bracket(seg),
    }
}

pub open spec fn plain_bracket(seg: Seq<char>) -> Seq<char> {
    match strip_prefix(seg, "["@) {
        Some(a) => match strip_suffix(a, "]"@) {
            Some(inner) => seq![':'] + inner,
            None => seg,
        },
        None => seg,
    }
}

/// `[name]` or `[...name]` → `:name`, anything else unchanged.
pub open spec fn svelte_segment(seg: Seq<char>) -> Seq<char> {
    match strip_prefix(seg, "["@) {
        Some(a) => match strip_suffix(a, "]"@) {
            Some(inner) => seq![':'] + trim_start_pat(inner, "..."@),
            None => seg,
        },
        None => seg,
    }
}

/// The rendered segments, `/`-separated, skipping groups.
pub open spec fn join_segments(segs: Seq<Seq<char>>, first: bool, svelte: bool) -> Seq<char>
    decreases segs.len(),
{
    if segs.len() == 0 {
        seq![]
    } else if is_group(segs[0]) {
        join_segments(segs.drop_first(), first, svelte)
    } else {
        (if first {
            seq![]
        } else {
            seq!['/']
        }) + (if svelte {
            svelte_segment(segs[0])
        } else {
            next_segment(segs[0])
        }) + join_segments(segs.drop_first(), false, svelte)
    }
}

/// A relative route directory rendered as a URL path.
pub open spec fn route_of(rel: Seq<char>, svelte: bool) -> Seq<char> {
    let trimmed = trim_end_char(trim_start_char(rel, '/'), '/');
    if trimmed.len() == 0 {
        "/"@
    } else {
        seq!['/'] + join_segments(split_char(trimmed, '/'), true, svelte)
    }
}

/// `s` without the suffix `p` (which it is known to end with).
pub open spec fn drop_suffix(s: Seq<char>, p: Seq<char>) -> Seq<char> {
    s.subrange(0, s.len() - p.len())
}

/// `s` without its first extension among `.tsx .ts .jsx .js .vue .svelte`.
pub open spec fn strip_ext_spec(s: Seq<char>) -> Seq<char> {
    if is_suffix(".tsx"@, s) {
        drop_suffix(s, ".tsx"@)
    } else if is_suffix(".ts"@, s) {
        drop_suffix(s, ".ts"@)
    } else if is_suffix(".jsx"@, s) {
        drop_suffix(s, ".jsx"@)
    } else if is_suffix(".js"@, s) {
        drop_suffix(s, ".js"@)
    } else if is_suffix(".vue"@, s) {
        drop_suffix(s, ".vue"@)
    } else if is_suffix(".svelte"@, s) {
        drop_suffix(s, ".svelte"@)
    } else {
        s
    }
}

pub open spec fn script_ext(lower: Seq<char>) -> bool {
    is_suffix(".tsx"@, lower) || is_suffix(".ts"@, lower) || is_suffix(".jsx"@, lower)
        || is_suffix(".js"@, lower)
}

/// The directory part before the last `/`, or nothing.
pub open spec fn dir_part(s: Seq<char>) -> Seq<char> {
    let r = rfind(s, seq!['/']);
    if 0 <= r < s.len() {
        s.subrange(0, r)
    } else {
        seq![]
    }
}

/// A page path without its `index` file name.
pub open spec fn without_index(no_ext: Seq<char>) -> Seq<char> {
    if no_ext == "index"@ {
        seq![]
    } else {
        trim_end_pat(no_ext, "/index"@)
    }
}

/// The route of a Remix file (path without extension, below `routes/`).
pub open spec fn remix_route(no_ext: Seq<char>) -> Seq<char> {
    let c = trim_end_char(
        replace(
            replace(replace(replace(no_ext, "._index"@, seq![]), "_index"@, seq![]), "."@, "/"@),
            "$"@,
            ":"@,
        ),
        '/',
    );
    if c.len() == 0 {
        "/"@
    } else {
        seq!['/'] + trim_start_char(c, '/')
    }
}

/// The route that a forward-slashed file path serves, if it follows one of the
/// file-based routing conventions.
pub open spec fn route_path_of(n: Seq<char>) -> Option<Seq<char>> {
    let lower = to_ascii_lower(n);
    if contains(lower, "/routes/"@) && is_suffix("/+page.svelte"@, lower) {
        Some(route_of(trim_end_pat(after_last(n, "/routes/"@), "/+page.svelte"@), true))
    } else if contains(lower, "/app/"@) && (is_suffix("/page.tsx"@, lower) || is_suffix(
        "/page.ts"@,
        lower,
    ) || is_suffix("/page.jsx"@, lower) || is_suffix("/page.js"@, lower)) {
        Some(route_of(dir_part(after_last(n, "/app/"@)), false))
    } else if contains(lower, "/app/"@) && (is_suffix("/route.ts"@, lower) || is_suffix(
        "/route.tsx"@,
        lower,
    ) || is_suffix("/route.js"@, lower)) {
        Some(route_of(dir_part(after_last(n, "/app/"@)), false))
    } else if contains(lower, "/pages/"@) && script_ext(lower) {
        let after = after_last(n, "/pages/"@);
        let la = to_ascii_lower(after);
        if is_prefix("_app."@, la) || is_prefix("_document."@, la) || is_prefix("_error."@, la)
            || is_prefix("api/"@, la) {
            None
        } else {
            Some(route_of(without_index(strip_ext_spec(after)), false))
        }
    } else if contains(lower, "/pages/"@) && is_suffix(".vue"@, lower) {
        Some(
            route_of(without_index(trim_end_pat(after_last(n, "/pages/"@), ".vue"@)), false),
        )
    } else if contains(lower, "/routes/"@) && script_ext(lower) {
        Some(remix_route(strip_ext_spec(after_last(n, "/routes/"@))))
    } else {
        None
    }
}

fn lit(s: &'static str) -> (r: Vec<char>)
    ensures
        r@ == s@,
{
    chars_of(s)
}

fn is_group_chars(seg: &[char]) -> (r: bool)
    ensures
        r == is_group(seg@),
{
    starts_with(seg, &lit("(")) && ends_with(seg, &lit(")"))
}

fn plain_bracket_chars(seg: &[char]) -> (r: Vec<char>)
    ensures
        r@ == plain_bracket(seg@),
{
    match strip_prefix_chars(seg, &lit("[")) {
        Some(a) => match strip_suffix_chars(&a, &lit("]")) {
            Some(inner) => {
                let mut r = vec![':'];
                proof {
                    assert(r@ =~= seq![':']);
                }
                append_chars(&mut r, &inner);
                r
            },
            None => crate::text::slice_range(seg, 0, seg.len()),
        },
        None => crate::text::slice_range(seg, 0, seg.len()),
    }
}

fn next_segment_chars(seg: &[char]) -> (r: Vec<char>)
    ensures
        r@ == next_segment(seg@),
{
    match strip_prefix_chars(seg, &lit("[...")) {
        Some(a) => match strip_suffix_chars(&a, &lit("]")) {
            Some(inner) => {
                let mut r = vec![':'];
                proof {
                    assert(r@ =~= seq![':']);
                }
                append_chars(&mut r, &inner);
                r.push('*');
                r
            },
            None => plain_bracket_chars(seg),
        },
        None => plain_bracket_chars(seg),
    }
}

fn svelte_segment_chars(seg: &[char]) -> (r: Vec<char>)
    ensures
        r@ == svelte_segment(seg@),
{
    match strip_prefix_chars(seg, &lit("[")) {
        Some(a) => match strip_suffix_chars(&a, &lit("]")) {
            Some(inner) => {
                let mut r = vec![':'];
                proof {
                    assert(r@ =~= seq![':']);
                }
                let t = trim_start_pat_chars(&inner, &lit("..."));
                append_chars(&mut r, &t);
                r
            },
            None => crate::text::slice_range(seg, 0, seg.len()),
        },
        None => crate::text::slice_range(seg, 0, seg.len()),
    }
}

fn route_of_chars(rel: &[char], svelte: bool) -> (r: Vec<char>)
    ensures
        r@ == route_of(rel@, svelte),
{
    let a = trim_start_char_chars(rel, '/');
    let trimmed = trim_end_char_chars(&a, '/');
    if trimmed.len() == 0 {
        return lit("/");
    }
    let segs = split_char_chars(&trimmed, '/');
    let ghost sv = segs@.map_values(|v: Vec<char>| v@);
    let mut out = vec!['/'];
    proof {
        assert(out@ =~= seq!['/']);
    }
    let mut first = true;
    let mut i: usize = 0;
    proof {
        assert(sv.subrange(0, sv.len() as int) =~= sv);
    }
    while i < segs.len()
        invariant
            i <= segs@.len(),
            sv == segs@.map_values(|v: Vec<char>| v@),
            sv == split_char(trimmed@, '/'),
            trimmed@ == trim_end_char(trim_start_char(rel@, '/'), '/'),
            seq!['/'] + join_segments(sv, true, svelte) == out@ + join_segments(
                sv.subrange(i as int, sv.len() as int),
                first,
                svelte,
            ),
        decreases segs@.len() - i,
    {
        let seg = &segs[i];
        let ghost rest = sv.subrange(i as int, sv.len() as int);
        proof {
            assert(rest[0] == seg@);
            assert(rest.drop_first() =~= sv.subrange(i as int + 1, sv.len() as int));
        }
        if !is_group_chars(seg) {
            let ghost before = out@;
            if !first {
                out.push('/');
            }
            let rendered = if svelte {
                svelte_segment_chars(seg)
            } else {
                next_segment_chars(seg)
            };
            append_chars(&mut out, &rendered);
            proof {
                assert((if first {
                    seq![]
                } else {
                    seq!['/']
                }) + rendered@ + join_segments(rest.drop_first(), false, svelte) =~= join_segments(
                    rest,
                    first,
                    svelte,
                ));
                assert(out@ =~= before + (if first {
                    seq![]
                } else {
                    seq!['/']
                }) + rendered@);
                assert(out@ + join_segments(rest.drop_first(), false, svelte) =~= before
                    + join_segments(rest, first, svelte));
            }
            first = false;
        }
        i = i + 1;
    }
    proof {
        assert(sv.subrange(sv.len() as int, sv.len() as int) =~= Seq::<Seq<char>>::empty());
        assert(out@ =~= out@ + join_segments(Seq::<Seq<char>>::empty(), first, svelte));
    }
    out
}

/// Renders a Next.js route directory: `[id]` → `:id`, `[...slug]` → `:slug*`,
/// `(group)` segments dropped; the empty directory is `/`.
pub fn nextjs_path(rel: &str) -> (r: String)
    ensures
        r@ == route_of(rel@, false),
{
    let v = chars_of(rel);
    string_of(&route_of_chars(&v, false))
}

/// Renders a SvelteKit route directory: `[id]` and `[...rest]` → `:id`, `:rest`,
/// `(group)` segments dropped; the empty directory is `/`.
pub fn svelte_path(rel: &str) -> (r: String)
    ensures
        r@ == route_of(rel@, true),
{
    let v = chars_of(rel);
    string_of(&route_of_chars(&v, true))
}

fn drop_suffix_chars(s: &[char], p: &[char]) -> (r: Vec<char>)
    requires
        is_suffix(p@, s@),
    ensures
        r@ == drop_suffix(s@, p@),
{
    crate::text::slice_range(s, 0, s.len() - p.len())
}

fn strip_ext_chars(s: &[char]) -> (r: Vec<char>)
    ensures
        r@ == strip_ext_spec(s@),
{
    let tsx = lit(".tsx");
    let ts = lit(".ts");
    let jsx = lit(".jsx");
    let js = lit(".js");
    let vue = lit(".vue");
    let svelte = lit(".svelte");
    if ends_with(s, &tsx) {
        drop_suffix_chars(s, &tsx)
    } else if ends_with(s, &ts) {
        drop_suffix_chars(s, &ts)
    } else if ends_with(s, &jsx) {
        drop_suffix_chars(s, &jsx)
    } else if ends_with(s, &js) {
        drop_suffix_chars(s, &js)
    } else if ends_with(s, &vue) {
        drop_suffix_chars(s, &vue)
    } else if ends_with(s, &svelte) {
        drop_suffix_chars(s, &svelte)
    } else {
        crate::text::slice_range(s, 0, s.len())
    }
}

/// `s` without its first extension among `.tsx .ts .jsx .js .vue .svelte`.
pub fn strip_ext(s: &str) -> (r: String)
    ensures
        r@ == strip_ext_spec(s@),
{
    let v = chars_of(s);
    string_of(&strip_ext_chars(&v))
}

fn dir_part_chars(s: &[char]) -> (r: Vec<char>)
    ensures
        r@ == dir_part(s@),
{
    match rsplit_once_char(s, '/') {
        Some((a, _b)) => a,
        None => Vec::new(),
    }
}

fn without_index_chars(no_ext: &[char]) -> (r: Vec<char>)
    ensures
        r@ == without_index(no_ext@),
{
    if eq_chars(no_ext, &lit("index")) {
        Vec::new()
    } else {
        trim_end_pat_chars(no_ext, &lit("/index"))
    }
}

fn script_ext_chars(lower: &[char]) -> (r: bool)
    ensures
        r == script_ext(lower@),
{
    ends_with(lower, &lit(".tsx")) || ends_with(lower, &lit(".ts")) || ends_with(lower, &lit(".jsx"))
        || ends_with(lower, &lit(".js"))
}

fn remix_route_chars(no_ext: &[char]) -> (r: Vec<char>)
    ensures
        r@ == remix_route(no_ext@),
{
    let empty: Vec<char> = Vec::new();
    proof {
        assert(empty@ =~= Seq::<char>::empty());
    }
    let a = replace_chars(no_ext, &lit("._index"), &empty);
    let b = replace_chars(&a, &lit("_index"), &empty);
    let c = replace_chars(&b, &lit("."), &lit("/"));
    let d = replace_chars(&c, &lit("$"), &lit(":"));
    let e = trim_end_char_chars(&d, '/');
    if e.len() == 0 {
        lit("/")
    } else {
        let mut r = vec!['/'];
        proof {
            assert(r@ =~= seq!['/']);
        }
        let t = trim_start_char_chars(&e, '/');
        append_chars(&mut r, &t);
        r
    }
}

/// The route that a forward-slashed file path serves, or `None` when the path
/// follows none of the file-based routing conventions (framework files such as
/// `_app` and `pages/api/` routes give `None` too).
pub fn derive_route_path(normalized: &str) -> (r: Option<String>)
    ensures
        r matches Some(s) ==> route_path_of(normalized@) == Some(s@),
        r is None ==> route_path_of(normalized@) is None,
{
    let n = chars_of(normalized);
    let lower = to_ascii_lower_chars(&n);
    if contains_chars(&lower, &lit("/routes/")) && ends_with(&lower, &lit("/+page.svelte")) {
        let after = after_last_chars(&n, &lit("/routes/"));
        let trimmed = trim_end_pat_chars(&after, &lit("/+page.svelte"));
        return Some(string_of(&route_of_chars(&trimmed, true)));
    }
    let has_app = contains_chars(&lower, &lit("/app/"));
    if has_app && (ends_with(&lower, &lit("/page.tsx")) || ends_with(&lower, &lit("/page.ts"))
        || ends_with(&lower, &lit("/page.jsx")) || ends_with(&lower, &lit("/page.js"))) {
        let after = after_last_chars(&n, &lit("/app/"));
        let dir = dir_part_chars(&after);
        return Some(string_of(&route_of_chars(&dir, false)));
    }
    if has_app && (ends_with(&lower, &lit("/route.ts")) || ends_with(&lower, &lit("/route.tsx"))
        || ends_with(&lower, &lit("/route.js"))) {
        let after = after_last_chars(&n, &lit("/app/"));
        let dir = dir_part_chars(&after);
        return Some(string_of(&route_of_chars(&dir, false)));
    }
    let has_pages = contains_chars(&lower, &lit("/pages/"));
    if has_pages && script_ext_chars(&lower) {
        let after = after_last_chars(&n, &lit("/pages/"));
        let la = to_ascii_lower_chars(&after);
        if starts_with(&la, &lit("_app.")) || starts_with(&la, &lit("_document.")) || starts_with(
            &la,
            &lit("_error."),
        ) || starts_with(&la, &lit("api/")) {
            return None;
        }
        let no_ext = strip_ext_chars(&after);
        let cleaned = without_index_chars(&no_ext);
        return Some(string_of(&route_of_chars(&cleaned, false)));
    }
    if has_pages && ends_with(&lower, &lit(".vue")) {
        let after = after_last_chars(&n, &lit("/pages/"));
        let no_ext = trim_end_pat_chars(&after, &lit(".vue"));
        let cleaned = without_index_chars(&no_ext);
        return Some(string_of(&route_of_chars(&cleaned, false)));
    }
    if contains_chars(&lower, &lit("/routes/")) && script_ext_chars(&lower) {
        let after = after_last_chars(&n, &lit("/routes/"));
        let no_ext = strip_ext_chars(&after);
        return Some(string_of(&remix_route_chars(&no_ext)));
    }
    None
}


// ---------------------------------------------------------------------------
// Route symbols over a graph.
// ---------------------------------------------------------------------------

/// The first symbol of `s` that satisfies `pred`.
pub open spec fn first_where(s: Seq<SymbolView>, pred: spec_fn(SymbolView) -> bool) -> Option<
    SymbolView,
>
    decreases s.len(),
{
    if s.len() == 0 {
        None
    } else {
        match first_where(s.drop_last(), pred) {
            Some(x) => Some(x),
            None => if pred(s.last()) {
                Some(s.last())
            } else {
                None
            },
        }
    }
}

/// The `File` symbol of the file `p`.
pub open spec fn file_symbol_of(p: Seq<char>) -> spec_fn(SymbolView) -> bool {
    |n: SymbolView| n.file_path == p && n.kind == SymbolKind::File
}

/// A symbol of the file `p` named after the HTTP verb `verb` (`GET` or `x.GET`).
pub open spec fn verb_handler_of(p: Seq<char>, verb: Seq<char>) -> spec_fn(SymbolView) -> bool {
    |n: SymbolView| n.file_path == p && (n.name == verb || is_suffix(seq!['.'] + verb, n.name))
}

/// Functions, methods and constructors handle page routes.
pub open spec fn is_callable(k: SymbolKind) -> bool {
    k == SymbolKind::Function || k == SymbolKind::Method || k == SymbolKind::Constructor
}

/// The callable symbol of the file `p` that starts on the lowest line (the first
/// such one on a tie).
pub open spec fn earliest_callable(s: Seq<SymbolView>, p: Seq<char>) -> Option<SymbolView>
    decreases s.len(),
{
    if s.len() == 0 {
        None
    } else {
        let best = earliest_callable(s.drop_last(), p);
        let n = s.last();
        if n.file_path == p && is_callable(n.kind) {
            match best {
                Some(b) => if n.line_range.0 < b.line_range.0 {
                    Some(n)
                } else {
                    best
                },
                None => Some(n),
            }
        } else {
            best
        }
    }
}

/// The HTTP verbs that a Next.js `route.ts` file can export, in the order tried.
pub open spec fn http_verbs() -> Seq<Seq<char>> {
    seq!["GET"@, "POST"@, "PUT"@, "DELETE"@, "PATCH"@, "HEAD"@, "OPTIONS"@]
}

/// A Next.js App Router server route file.
pub open spec fn is_app_route_file(norm: Seq<char>) -> bool {
    contains(norm, "/app/"@) && (is_suffix("/route.ts"@, norm) || is_suffix("/route.tsx"@, norm)
        || is_suffix("/route.js"@, norm))
}

/// The `Route` symbol named `name` for the file `path` (identified through its
/// forward-slashed form `norm`).
pub open spec fn route_node(path: Seq<char>, norm: Seq<char>, name: Seq<char>, lang: Language) -> SymbolView {
    SymbolView {
        id: node_id_of(norm, name, SymbolKind::Route, 0),
        name: name,
        kind: SymbolKind::Route,
        file_path: path,
        line_range: (0, 0),
        signature: Some("route "@ + name),
        doc_comment: None,
        visibility: Visibility::Public,
        language: lang,
        parent: None,
    }
}

/// The raw `HANDLES_ROUTE` edge from a handler to a route symbol.
pub open spec fn handles(source: NodeId, route: NodeId) -> RawEdgeView {
    RawEdgeView {
        source: source,
        kind: EdgeKind::HandlesRoute,
        target_name: id_hex(route),
        target_module: None,
        source_line: 0,
    }
}

/// Route symbols and edges for the verbs of a server route file; a route symbol
/// is only new when no symbol of `nodes` has its identifier.
pub open spec fn verb_routes(
    nodes: Seq<SymbolView>,
    p: Seq<char>,
    norm: Seq<char>,
    route: Seq<char>,
    lang: Language,
    verbs: Seq<Seq<char>>,
) -> (Seq<SymbolView>, Seq<RawEdgeView>)
    decreases verbs.len(),
{
    if verbs.len() == 0 {
        (seq![], seq![])
    } else {
        let prev = verb_routes(nodes, p, norm, route, lang, verbs.drop_last());
        let verb = verbs.last();
        match first_where(nodes, verb_handler_of(p, verb)) {
            Some(h) => {
                let node = route_node(p, norm, verb + " "@ + route, lang);
                (
                    if has_id(nodes, node.id) {
                        prev.0
                    } else {
                        prev.0.push(node)
                    },
                    prev.1.push(handles(h.id, node.id)),
                )
            },
            None => prev,
        }
    }
}

/// The single `GET` route of a page file, handled by its earliest callable.
pub open spec fn page_route(
    nodes: Seq<SymbolView>,
    p: Seq<char>,
    norm: Seq<char>,
    route: Seq<char>,
    lang: Language,
) -> (Seq<SymbolView>, Seq<RawEdgeView>) {
    let node = route_node(p, norm, "GET "@ + route, lang);
    let ns = if has_id(nodes, node.id) {
        seq![]
    } else {
        seq![node]
    };
    match earliest_callable(nodes, p) {
        Some(h) => (ns, seq![handles(h.id, node.id)]),
        None => (ns, seq![]),
    }
}

/// The route symbols and raw edges that the file `p` contributes.
pub open spec fn file_routes(nodes: Seq<SymbolView>, p: Seq<char>) -> (Seq<SymbolView>, Seq<RawEdgeView>) {
    let norm = replace(p, seq!['\\'], seq!['/']);
    match route_path_of(norm) {
        None => (seq![], seq![]),
        Some(route) => match first_where(nodes, file_symbol_of(p)) {
            None => (seq![], seq![]),
            Some(f) => {
                let v = verb_routes(nodes, p, norm, route, f.language, http_verbs());
                if is_app_route_file(norm) && v.1.len() > 0 {
                    v
                } else {
                    page_route(nodes, p, norm, route, f.language)
                }
            },
        },
    }
}

/// The route symbols and raw edges of several files, in file order.
pub open spec fn routes_over(nodes: Seq<SymbolView>, paths: Seq<Seq<char>>) -> (Seq<SymbolView>, Seq<RawEdgeView>)
    decreases paths.len(),
{
    if paths.len() == 0 {
        (seq![], seq![])
    } else {
        let a = routes_over(nodes, paths.drop_last());
        let b = file_routes(nodes, paths.last());
        (a.0 + b.0, a.1 + b.1)
    }
}

proof fn lemma_first_where_prefix(s: Seq<SymbolView>, k: int, pred: spec_fn(SymbolView) -> bool)
    requires
        0 <= k <= s.len(),
        first_where(s.take(k), pred) is Some,
    ensures
        first_where(s, pred) == first_where(s.take(k), pred),
    decreases s.len(),
{
    if k == s.len() {
        assert(s.take(k) =~= s);
    } else {
        assert(s.drop_last().take(k) =~= s.take(k));
        lemma_first_where_prefix(s.drop_last(), k, pred);
    }
}

fn first_file_symbol(nodes: &Vec<SymbolNode>, p: &str) -> (r: Option<usize>)
    ensures
        r matches Some(i) ==> i < nodes@.len() && first_where(views(nodes@), file_symbol_of(p@))
            == Some(nodes@[i as int]@),
        r is None ==> first_where(views(nodes@), file_symbol_of(p@)) is None,
{
    let ghost vs = views(nodes@);
    let mut i: usize = 0;
    while i < nodes.len()
        invariant
            i <= nodes@.len(),
            vs == views(nodes@),
            first_where(vs.take(i as int), file_symbol_of(p@)) is None,
        decreases nodes@.len() - i,
    {
        proof {
            assert(vs.take(i as int + 1).drop_last() =~= vs.take(i as int));
        }
        if matches!(nodes[i].kind, SymbolKind::File) && str_eq(nodes[i].file_path.as_str(), p) {
            proof {
                lemma_first_where_prefix(vs, i as int + 1, file_symbol_of(p@));
            }
            return Some(i);
        }
        i = i + 1;
    }
    proof {
        assert(vs.take(nodes@.len() as int) =~= vs);
    }
    None
}

fn verb_handler(nodes: &Vec<SymbolNode>, p: &str, verb: &str) -> (r: Option<usize>)
    ensures
        r matches Some(i) ==> i < nodes@.len() && first_where(
            views(nodes@),
            verb_handler_of(p@, verb@),
        ) == Some(nodes@[i as int]@),
        r is None ==> first_where(views(nodes@), verb_handler_of(p@, verb@)) is None,
{
    let ghost vs = views(nodes@);
    let mut dotted = vec!['.'];
    append_str(&mut dotted, verb);
    proof {
        assert(dotted@ =~= seq!['.'] + verb@);
    }
    let mut i: usize = 0;
    while i < nodes.len()
        invariant
            i <= nodes@.len(),
            vs == views(nodes@),
            dotted@ == seq!['.'] + verb@,
            first_where(vs.take(i as int), verb_handler_of(p@, verb@)) is None,
        decreases nodes@.len() - i,
    {
        proof {
            assert(vs.take(i as int + 1).drop_last() =~= vs.take(i as int));
        }
        let n = &nodes[i];
        if str_eq(n.file_path.as_str(), p) {
            let name = chars_of(n.name.as_str());
            if str_eq(n.name.as_str(), verb) || ends_with(&name, &dotted) {
                proof {
                    lemma_first_where_prefix(vs, i as int + 1, verb_handler_of(p@, verb@));
                }
                return Some(i);
            }
        }
        i = i + 1;
    }
    proof {
        assert(vs.take(nodes@.len() as int) =~= vs);
    }
    None
}

fn earliest_callable_index(nodes: &Vec<SymbolNode>, p: &str) -> (r: Option<usize>)
    ensures
        r matches Some(i) ==> i < nodes@.len() && earliest_callable(views(nodes@), p@) == Some(
            nodes@[i as int]@,
        ),
        r is None ==> earliest_callable(views(nodes@), p@) is None,
{
    let ghost vs = views(nodes@);
    let mut best: Option<usize> = None;
    let mut i: usize = 0;
    while i < nodes.len()
        invariant
            i <= nodes@.len(),
            vs == views(nodes@),
            best matches Some(b) ==> b < i && earliest_callable(vs.take(i as int), p@) == Some(
                vs[b as int],
            ),
            best is None ==> earliest_callable(vs.take(i as int), p@) is None,
        decreases nodes@.len() - i,
    {
        proof {
            assert(vs.take(i as int + 1).drop_last() =~= vs.take(i as int));
            assert(vs.take(i as int + 1).last() == vs[i as int]);
        }
        let n = &nodes[i];
        let callable = matches!(n.kind, SymbolKind::Function | SymbolKind::Method | SymbolKind::Constructor);
        if callable && str_eq(n.file_path.as_str(), p) {
            match best {
                Some(b) => {
                    if n.line_range.0 < nodes[b].line_range.0 {
                        best = Some(i);
                    }
                },
                None => {
                    best = Some(i);
                },
            }
        }
        i = i + 1;
    }
    proof {
        assert(vs.take(nodes@.len() as int) =~= vs);
    }
    best
}

fn verb_at(i: usize) -> (r: &'static str)
    requires
        i < 7,
    ensures
        r@ == http_verbs()[i as int],
{
    match i {
        0 => "GET",
        1 => "POST",
        2 => "PUT",
        3 => "DELETE",
        4 => "PATCH",
        5 => "HEAD",
        _ => "OPTIONS",
    }
}

/// A `Route` symbol for the file `path`.
fn make_route_node(path: &String, norm: &str, name: Vec<char>, lang: Language) -> (r: SymbolNode)
    ensures
        r@ == route_node(path@, norm@, name@, lang),
{
    let name_s = string_of(&name);
    let mut sig = chars_of("route ");
    append_chars(&mut sig, &name);
    let id = NodeId::new(norm, name_s.as_str(), SymbolKind::Route, 0);
    SymbolNode {
        id,
        name: name_s,
        kind: SymbolKind::Route,
        file_path: path.clone(),
        line_range: (0, 0),
        signature: Some(string_of(&sig)),
        doc_comment: None,
        visibility: Visibility::Public,
        language: lang,
        parent: None,
    }
}

fn make_handles(source: NodeId, route: NodeId) -> (r: RawEdge)
    ensures
        r@ == handles(source, route),
{
    RawEdge {
        source,
        kind: EdgeKind::HandlesRoute,
        target_name: route.to_hex(),
        target_module: None,
        source_line: 0,
    }
}

fn verb_routes_exec(
    graph: &CodeGraph,
    p: &String,
    norm: &String,
    route: &String,
    lang: Language,
) -> (r: (Vec<SymbolNode>, Vec<RawEdge>))
    ensures
        views(r.0@) == verb_routes(graph.node_views(), p@, norm@, route@, lang, http_verbs()).0,
        raw_views(r.1@) == verb_routes(graph.node_views(), p@, norm@, route@, lang, http_verbs()).1,
{
    let ghost nv = graph.node_views();
    let mut ns: Vec<SymbolNode> = Vec::new();
    let mut rs: Vec<RawEdge> = Vec::new();
    let mut i: usize = 0;
    while i < 7
        invariant
            i <= 7,
            nv == graph.node_views(),
            views(ns@) == verb_routes(nv, p@, norm@, route@, lang, http_verbs().take(i as int)).0,
            raw_views(rs@) == verb_routes(nv, p@, norm@, route@, lang, http_verbs().take(i as int)).1,
        decreases 7 - i,
    {
        let verb = verb_at(i);
        let ghost vt = http_verbs().take(i as int + 1);
        proof {
            assert(vt.drop_last() =~= http_verbs().take(i as int));
            assert(vt.last() == verb@);
        }
        match verb_handler(&graph.nodes, p.as_str(), verb) {
            Some(h) => {
                let mut name = chars_of(verb);
                name.push(' ');
                append_str(&mut name, route.as_str());
                proof {
                    assert(name@ =~= verb@ + " "@ + route@) by {
                        reveal_strlit(" ");
                    }
                }
                let node = make_route_node(p, norm.as_str(), name, lang);
                let id = node.id;
                let hid = graph.nodes[h].id;
                if !graph.contains_node(id) {
                    let ghost before = ns@;
                    ns.push(node);
                    proof {
                        assert(views(ns@) =~= views(before).push(ns@.last()@));
                    }
                }
                let ghost rbefore = rs@;
                rs.push(make_handles(hid, id));
                proof {
                    assert(raw_views(rs@) =~= raw_views(rbefore).push(rs@.last()@));
                }
            },
            None => {},
        }
        i = i + 1;
    }
    proof {
        assert(http_verbs().take(7) =~= http_verbs());
    }
    (ns, rs)
}

fn page_route_exec(
    graph: &CodeGraph,
    p: &String,
    norm: &String,
    route: &String,
    lang: Language,
) -> (r: (Vec<SymbolNode>, Vec<RawEdge>))
    ensures
        views(r.0@) == page_route(graph.node_views(), p@, norm@, route@, lang).0,
        raw_views(r.1@) == page_route(graph.node_views(), p@, norm@, route@, lang).1,
{
    let mut name = chars_of("GET ");
    append_str(&mut name, route.as_str());
    let node = make_route_node(p, norm.as_str(), name, lang);
    let id = node.id;
    let mut ns: Vec<SymbolNode> = Vec::new();
    if !graph.contains_node(id) {
        ns.push(node);
        proof {
            assert(views(ns@) =~= seq![ns@[0]@]);
        }
    } else {
        proof {
            assert(views(ns@) =~= Seq::<SymbolView>::empty());
        }
    }
    let mut rs: Vec<RawEdge> = Vec::new();
    match earliest_callable_index(&graph.nodes, p.as_str()) {
        Some(h) => {
            rs.push(make_handles(graph.nodes[h].id, id));
            proof {
                assert(raw_views(rs@) =~= seq![rs@[0]@]);
            }
        },
        None => {
            proof {
                assert(raw_views(rs@) =~= Seq::<RawEdgeView>::empty());
            }
        },
    }
    (ns, rs)
}

fn is_app_route_chars(norm: &[char]) -> (r: bool)
    ensures
        r == is_app_route_file(norm@),
{
    contains_chars(norm, &lit("/app/")) && (ends_with(norm, &lit("/route.ts")) || ends_with(
        norm,
        &lit("/route.tsx"),
    ) || ends_with(norm, &lit("/route.js")))
}

fn file_routes_exec(graph: &CodeGraph, p: &String) -> (r: (Vec<SymbolNode>, Vec<RawEdge>))
    ensures
        views(r.0@) == file_routes(graph.node_views(), p@).0,
        raw_views(r.1@) == file_routes(graph.node_views(), p@).1,
{
    let pc = chars_of(p.as_str());
    let back = vec!['\\'];
    let fwd = vec!['/'];
    proof {
        assert(back@ =~= seq!['\\']);
        assert(fwd@ =~= seq!['/']);
    }
    let norm_chars = replace_chars(&pc, &back, &fwd);
    let norm = string_of(&norm_chars);
    let empty_nodes: Vec<SymbolNode> = Vec::new();
    let empty_raws: Vec<RawEdge> = Vec::new();
    proof {
        assert(views(empty_nodes@) =~= Seq::<SymbolView>::empty());
        assert(raw_views(empty_raws@) =~= Seq::<RawEdgeView>::empty());
    }
    let route = match derive_route_path(norm.as_str()) {
        Some(r) => r,
        None => {
            return (empty_nodes, empty_raws);
        },
    };
    let f = match first_file_symbol(&graph.nodes, p.as_str()) {
        Some(f) => f,
        None => {
            return (empty_nodes, empty_raws);
        },
    };
    let lang = graph.nodes[f].language;
    if is_app_route_chars(&norm_chars) {
        let v = verb_routes_exec(graph, p, &norm, &route, lang);
        if v.1.len() > 0 {
            return v;
        }
    }
    page_route_exec(graph, p, &norm, &route, lang)
}

/// Adds a `Route` symbol for every file that follows a file-based routing
/// convention (see `derive_route_path`), with a raw `HANDLES_ROUTE` edge from its
/// handler: one route per exported HTTP verb for a Next.js `route.ts` file, else
/// a single `GET` route handled by the file's earliest callable. Files are taken
/// in order of first appearance; a file needs a `File` symbol, whose language
/// the routes inherit. A route symbol whose identifier is already present is not
/// added again, but its edge is.
pub fn detect_filebased_routes(graph: &mut CodeGraph)
    requires
        old(graph).wf(),
    ensures
        final(graph).wf(),
        final(graph).node_views() == upsert_all(
            old(graph).node_views(),
            routes_over(old(graph).node_views(), distinct_paths(old(graph).node_views())).0,
        ),
        raw_views(final(graph).raw_edges@) == raw_views(old(graph).raw_edges@) + routes_over(
            old(graph).node_views(),
            distinct_paths(old(graph).node_views()),
        ).1,
        final(graph).edges@ == old(graph).edges@,
        final(graph).file_hashes@ == old(graph).file_hashes@,
        final(graph).project_root@ == old(graph).project_root@,
{
    let ghost nv = graph.node_views();
    let paths = graph.file_paths();
    let ghost ps = paths@.map_values(|s: String| s@);
    let mut new_nodes: Vec<SymbolNode> = Vec::new();
    let mut new_raws: Vec<RawEdge> = Vec::new();
    let mut i: usize = 0;
    proof {
        assert(views(new_nodes@) =~= routes_over(nv, ps.take(0)).0);
        assert(raw_views(new_raws@) =~= routes_over(nv, ps.take(0)).1);
    }
    while i < paths.len()
        invariant
            i <= paths@.len(),
            nv == graph.node_views(),
            ps == paths@.map_values(|s: String| s@),
            ps == distinct_paths(nv),
            views(new_nodes@) == routes_over(nv, ps.take(i as int)).0,
            raw_views(new_raws@) == routes_over(nv, ps.take(i as int)).1,
        decreases paths@.len() - i,
    {
        let (ns, rs) = file_routes_exec(graph, &paths[i]);
        proof {
            assert(ps.take(i as int + 1).drop_last() =~= ps.take(i as int));
            assert(ps.take(i as int + 1).last() == paths@[i as int]@);
        }
        let ghost n0 = new_nodes@;
        let ghost r0 = new_raws@;
        let mut k: usize = 0;
        while k < ns.len()
            invariant
                k <= ns@.len(),
                views(new_nodes@) == views(n0) + views(ns@).take(k as int),
            decreases ns@.len() - k,
        {
            let ghost b = new_nodes@;
            new_nodes.push(ns[k].duplicate());
            proof {
                assert(views(ns@).take(k as int + 1) =~= views(ns@).take(k as int).push(ns@[k as int]@));
                assert(views(new_nodes@) =~= views(b).push(ns@[k as int]@));
            }
            k = k + 1;
        }
        let mut k: usize = 0;
        while k < rs.len()
            invariant
                k <= rs@.len(),
                raw_views(new_raws@) == raw_views(r0) + raw_views(rs@).take(k as int),
            decreases rs@.len() - k,
        {
            let ghost b = new_raws@;
            new_raws.push(rs[k].duplicate());
            proof {
                assert(raw_views(rs@).take(k as int + 1) =~= raw_views(rs@).take(k as int).push(
                    rs@[k as int]@,
                ));
                assert(raw_views(new_raws@) =~= raw_views(b).push(rs@[k as int]@));
            }
            k = k + 1;
        }
        proof {
            assert(views(ns@).take(ns@.len() as int) =~= views(ns@));
            assert(raw_views(rs@).take(rs@.len() as int) =~= raw_views(rs@));
        }
        i = i + 1;
    }
    proof {
        assert(ps.take(paths@.len() as int) =~= ps);
    }
    let ghost added = views(new_nodes@);
    let mut k: usize = 0;
    proof {
        assert(added.take(0) =~= Seq::<SymbolView>::empty());
    }
    while k < new_nodes.len()
        invariant
            k <= new_nodes@.len(),
            added == views(new_nodes@),
            graph.wf(),
            graph.node_views() == upsert_all(nv, added.take(k as int)),
            graph.edges@ == old(graph).edges@,
            graph.raw_edges@ == old(graph).raw_edges@,
            graph.file_hashes@ == old(graph).file_hashes@,
            graph.project_root@ == old(graph).project_root@,
        decreases new_nodes@.len() - k,
    {
        proof {
            assert(added.take(k as int + 1).drop_last() =~= added.take(k as int));
            assert(added.take(k as int + 1).last() == new_nodes@[k as int]@);
        }
        graph.add_node(new_nodes[k].duplicate());
        k = k + 1;
    }
    proof {
        assert(added.take(new_nodes@.len() as int) =~= added);
    }
    let ghost raws_added = raw_views(new_raws@);
    let mut k: usize = 0;
    while k < new_raws.len()
        invariant
            k <= new_raws@.len(),
            raws_added == raw_views(new_raws@),
            graph.wf(),
            graph.node_views() == upsert_all(nv, added),
            raw_views(graph.raw_edges@) == raw_views(old(graph).raw_edges@) + raws_added.take(k as int),
            graph.edges@ == old(graph).edges@,
            graph.file_hashes@ == old(graph).file_hashes@,
            graph.project_root@ == old(graph).project_root@,
        decreases new_raws@.len() - k,
    {
        let ghost b = graph.raw_edges@;
        graph.add_raw_edge(new_raws[k].duplicate());
        proof {
            assert(raw_views(graph.raw_edges@) =~= raw_views(b).push(new_raws@[k as int]@));
            assert(raws_added.take(k as int + 1) =~= raws_added.take(k as int).push(new_raws@[k as int]@));
        }
        k = k + 1;
    }
    proof {
        assert(raws_added.take(new_raws@.len() as int) =~= raws_added);
    }
}

/// A route symbol as route detection makes it, new to `nodes`.
pub open spec fn fresh_route(nodes: Seq<SymbolView>, n: SymbolView) -> bool {
    &&& n.kind == SymbolKind::Route
    &&& n.line_range == (0u32, 0u32)
    &&& n.visibility == Visibility::Public
    &&& n.parent is None
    &&& n.doc_comment is None
    &&& n.signature == Some("route "@ + n.name)
    &&& !has_id(nodes, n.id)
}

/// A raw edge as route detection makes it.
pub open spec fn route_edge(e: RawEdgeView) -> bool {
    &&& e.kind == EdgeKind::HandlesRoute
    &&& e.source_line == 0
    &&& e.target_module is None
}

proof fn lemma_verb_routes_shape(
    nodes: Seq<SymbolView>,
    p: Seq<char>,
    norm: Seq<char>,
    route: Seq<char>,
    lang: Language,
    verbs: Seq<Seq<char>>,
)
    ensures
        forall|i: int| 0 <= i < verb_routes(nodes, p, norm, route, lang, verbs).0.len() ==> fresh_route(
            nodes,
            #[trigger] verb_routes(nodes, p, norm, route, lang, verbs).0[i],
        ),
        forall|j: int| 0 <= j < verb_routes(nodes, p, norm, route, lang, verbs).1.len() ==> route_edge(
            #[trigger] verb_routes(nodes, p, norm, route, lang, verbs).1[j],
        ),
    decreases verbs.len(),
{
    if verbs.len() > 0 {
        lemma_verb_routes_shape(nodes, p, norm, route, lang, verbs.drop_last());
        let prev = verb_routes(nodes, p, norm, route, lang, verbs.drop_last());
        let r = verb_routes(nodes, p, norm, route, lang, verbs);
        assert forall|i: int| 0 <= i < r.0.len() implies fresh_route(nodes, #[trigger] r.0[i]) by {
            if i < prev.0.len() {
                assert(r.0[i] == prev.0[i]);
            }
        }
        assert forall|j: int| 0 <= j < r.1.len() implies route_edge(#[trigger] r.1[j]) by {
            if j < prev.1.len() {
                assert(r.1[j] == prev.1[j]);
            }
        }
    }
}

proof fn lemma_file_routes_shape(nodes: Seq<SymbolView>, p: Seq<char>)
    ensures
        forall|i: int| 0 <= i < file_routes(nodes, p).0.len() ==> fresh_route(nodes, #[trigger] file_routes(nodes, p).0[i]),
        forall|j: int| 0 <= j < file_routes(nodes, p).1.len() ==> route_edge(#[trigger] file_routes(nodes, p).1[j]),
{
    let norm = replace(p, seq!['\\'], seq!['/']);
    match route_path_of(norm) {
        None => {},
        Some(route) => match first_where(nodes, file_symbol_of(p)) {
            None => {},
            Some(f) => {
                lemma_verb_routes_shape(nodes, p, norm, route, f.language, http_verbs());
            },
        },
    }
}

/// Route detection only adds: every symbol it adds is a `Route` spanning rows
/// 0 to 0, public, with no parent and no documentation, signed `route <name>`,
/// and new to the graph, so every symbol already there stays as it was; every
/// raw edge it adds is a `HANDLES_ROUTE` edge with line 0 and no module.
pub proof fn lemma_routes_only_add(nodes: Seq<SymbolView>, paths: Seq<Seq<char>>)
    ensures
        forall|i: int| 0 <= i < routes_over(nodes, paths).0.len() ==> fresh_route(
            nodes,
            #[trigger] routes_over(nodes, paths).0[i],
        ),
        forall|j: int| 0 <= j < routes_over(nodes, paths).1.len() ==> route_edge(
            #[trigger] routes_over(nodes, paths).1[j],
        ),
        upsert_all(nodes, routes_over(nodes, paths).0).len() >= nodes.len(),
        forall|i: int| 0 <= i < nodes.len() ==> #[trigger] upsert_all(nodes, routes_over(nodes, paths).0)[i] == nodes[i],
    decreases paths.len(),
{
    if paths.len() > 0 {
        lemma_routes_only_add(nodes, paths.drop_last());
        lemma_file_routes_shape(nodes, paths.last());
        let a = routes_over(nodes, paths.drop_last());
        let b = file_routes(nodes, paths.last());
        let r = routes_over(nodes, paths);
        assert forall|i: int| 0 <= i < r.0.len() implies fresh_route(nodes, #[trigger] r.0[i]) by {
            if i < a.0.len() {
                assert(r.0[i] == a.0[i]);
            } else {
                assert(r.0[i] == b.0[i - a.0.len()]);
            }
        }
        assert forall|j: int| 0 <= j < r.1.len() implies route_edge(#[trigger] r.1[j]) by {
            if j < a.1.len() {
                assert(r.1[j] == a.1[j]);
            } else {
                assert(r.1[j] == b.1[j - a.1.len()]);
            }
        }
    }
    let r = routes_over(nodes, paths);
    assert forall|i: int| 0 <= i < r.0.len() implies !has_id(nodes, (#[trigger] r.0[i]).id) by {
        assert(fresh_route(nodes, r.0[i]));
    }
    crate::graph::lemma_upsert_all_keeps_prefix(nodes, r.0);
}

} // verus!

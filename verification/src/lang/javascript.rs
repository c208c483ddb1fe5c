//! JavaScript and TypeScript (read with the TSX grammar): functions, classes
//! with their members and heritage, imports, variables (arrow functions,
//! factories, `new` expressions, plain values), interfaces, type aliases and
//! enums; calls inside bodies.
use vstd::prelude::*;
use crate::text::{
    chars_of, string_of, slice_range, str_eq, is_whitespace, is_ws, trim_chars, trim_ws, find,
    find_chars, split_char, split_char_chars, replace, replace_chars, before_first,
    before_first_chars, strip_prefix, strip_prefix_chars, contains, contains_chars, cat2, cat3,
    cat4, cat5,
};
use crate::symbol::{SymbolKind, SymbolView, Language, Visibility, NodeId, opt_view};
use crate::relation::{RawEdge, RawEdgeView, EdgeKind};
use crate::graph::has_id;
use crate::syntax::SyntaxTree;
use crate::extract::{
    ExtractResult, make_symbol, make_edge, start_extraction, extraction_of, walk_ready, walk_kept,
    rows, qualify_member_call, parent_dir, join_path, parent_dir_of, joined_path, symbol_at,
    member_call_of, file_symbol, field_child, node_rows,
};

verus! {

/// Extracts JavaScript or TypeScript symbols.
pub struct JavaScriptExtractor {
    language: Language,
}

// ---------------------------------------------------------------------------
// Text helpers.
// ---------------------------------------------------------------------------

/// The number of whitespace characters `s` starts with.
pub open spec fn ws_prefix_len(s: Seq<char>) -> nat
    decreases s.len(),
{
    if s.len() > 0 && is_ws(s[0]) {
        1 + ws_prefix_len(s.drop_first())
    } else {
        0
    }
}

/// The number of non-whitespace characters `s` starts with.
pub open spec fn word_len(s: Seq<char>) -> nat
    decreases s.len(),
{
    if s.len() > 0 && !is_ws(s[0]) {
        1 + word_len(s.drop_first())
    } else {
        0
    }
}

/// The first whitespace-separated word of `s`, or `s` itself when it has none.
pub open spec fn first_word_of(s: Seq<char>) -> Seq<char> {
    let i = ws_prefix_len(s);
    if i >= s.len() {
        s
    } else {
        let r = s.subrange(i as int, s.len() as int);
        r.take(word_len(r) as int)
    }
}

proof fn lemma_ws_prefix_step(s: Seq<char>, i: int)
    requires
        0 <= i < s.len(),
    ensures
        s.subrange(i, s.len() as int).drop_first() =~= s.subrange(i + 1, s.len() as int),
        s.subrange(i, s.len() as int)[0] == s[i],
{
}

fn first_word(s: &[char]) -> (r: Vec<char>)
    ensures
        r@ == first_word_of(s@),
{
    let mut i: usize = 0;
    proof {
        assert(s@.subrange(0, s@.len() as int) =~= s@);
    }
    while i < s.len() && is_whitespace(s[i])
        invariant
            i <= s@.len(),
            ws_prefix_len(s@) == i + ws_prefix_len(s@.subrange(i as int, s@.len() as int)),
        decreases s@.len() - i,
    {
        proof {
            lemma_ws_prefix_step(s@, i as int);
        }
        i = i + 1;
    }
    if i == s.len() {
        proof {
            assert(s@.subrange(i as int, s@.len() as int).len() == 0);
        }
        return slice_range(s, 0, s.len());
    }
    let ghost r = s@.subrange(i as int, s@.len() as int);
    proof {
        assert(r[0] == s@[i as int]);
        assert(ws_prefix_len(r) == 0);
        assert(r.subrange(0, r.len() as int) =~= r);
    }
    let mut j = i;
    while j < s.len() && !is_whitespace(s[j])
        invariant
            i <= j <= s@.len(),
            r == s@.subrange(i as int, s@.len() as int),
            word_len(r) == (j - i) + word_len(r.subrange(j - i, r.len() as int)),
        decreases s@.len() - j,
    {
        proof {
            lemma_ws_prefix_step(r, j - i);
            assert(r[j - i] == s@[j as int]);
        }
        j = j + 1;
    }
    proof {
        if j < s@.len() {
            assert(r.subrange(j - i, r.len() as int)[0] == s@[j as int]);
        }
        assert(r.take(word_len(r) as int) =~= s@.subrange(i as int, j as int));
    }
    slice_range(s, i, j)
}

/// The text between the first and the second occurrence of `sep`, or up to
/// the end (`s.split(sep).nth(1)`).
pub open spec fn second_piece_of(s: Seq<char>, sep: Seq<char>) -> Option<Seq<char>> {
    let i = find(s, sep);
    if i < 0 {
        None
    } else {
        let rest = s.subrange(i + sep.len(), s.len() as int);
        if sep.len() == 0 {
            Some(rest)
        } else {
            let j = find(rest, sep);
            if j < 0 {
                Some(rest)
            } else {
                Some(rest.subrange(0, j))
            }
        }
    }
}

fn second_piece(s: &[char], sep: &[char]) -> (r: Option<Vec<char>>)
    ensures
        match r {
            Some(v) => second_piece_of(s@, sep@) == Some(v@),
            None => second_piece_of(s@, sep@) is None,
        },
{
    match find_chars(s, sep) {
        Some(i) => {
            let tail = s.len() - sep.len() - i;
            let rest = slice_range(s, s.len() - tail, s.len());
            if sep.len() == 0 {
                return Some(rest);
            }
            match find_chars(&rest, sep) {
                Some(j) => {
                    if j <= rest.len() {
                        Some(slice_range(&rest, 0, j))
                    } else {
                        Some(rest)
                    }
                },
                None => Some(rest),
            }
        },
        None => None,
    }
}

pub open spec fn is_quote(c: char) -> bool {
    c == '\'' || c == '"'
}

/// The number of quotes `s` starts with.
pub open spec fn quote_prefix_len(s: Seq<char>) -> nat
    decreases s.len(),
{
    if s.len() > 0 && is_quote(s[0]) {
        1 + quote_prefix_len(s.drop_first())
    } else {
        0
    }
}

/// The number of quotes `s` ends with.
pub open spec fn quote_suffix_len(s: Seq<char>) -> nat
    decreases s.len(),
{
    if s.len() > 0 && is_quote(s.last()) {
        1 + quote_suffix_len(s.drop_last())
    } else {
        0
    }
}

/// `s` without leading and trailing quotes (`'` or `"`).
pub open spec fn trim_quotes_of(s: Seq<char>) -> Seq<char> {
    let t = s.subrange(quote_prefix_len(s) as int, s.len() as int);
    t.take(t.len() - quote_suffix_len(t))
}

proof fn lemma_quote_suffix_bound(s: Seq<char>)
    ensures
        quote_suffix_len(s) <= s.len(),
    decreases s.len(),
{
    if s.len() > 0 && is_quote(s.last()) {
        lemma_quote_suffix_bound(s.drop_last());
    }
}

proof fn lemma_quote_prefix_bound(s: Seq<char>)
    ensures
        quote_prefix_len(s) <= s.len(),
    decreases s.len(),
{
    if s.len() > 0 && is_quote(s[0]) {
        lemma_quote_prefix_bound(s.drop_first());
    }
}

fn trim_quotes(s: &[char]) -> (r: Vec<char>)
    ensures
        r@ == trim_quotes_of(s@),
{
    let mut i: usize = 0;
    proof {
        assert(s@.subrange(0, s@.len() as int) =~= s@);
    }
    while i < s.len() && (s[i] == '\'' || s[i] == '"')
        invariant
            i <= s@.len(),
            quote_prefix_len(s@) == i + quote_prefix_len(s@.subrange(i as int, s@.len() as int)),
        decreases s@.len() - i,
    {
        proof {
            lemma_ws_prefix_step(s@, i as int);
        }
        i = i + 1;
    }
    let ghost t = s@.subrange(i as int, s@.len() as int);
    proof {
        if i < s@.len() {
            assert(t[0] == s@[i as int]);
        }
        assert(quote_prefix_len(t) == 0);
        assert(t.take(t.len() as int) =~= t);
    }
    let mut j: usize = s.len();
    while j > i && (s[j - 1] == '\'' || s[j - 1] == '"')
        invariant
            i <= j <= s@.len(),
            t == s@.subrange(i as int, s@.len() as int),
            quote_suffix_len(t) == (s@.len() - j) + quote_suffix_len(t.take(j - i)),
        decreases j,
    {
        proof {
            let u = t.take(j - i);
            assert(u.last() == s@[j - 1]);
            assert(u.drop_last() =~= t.take(j - 1 - i));
        }
        j = j - 1;
    }
    proof {
        if j > i {
            assert(t.take(j - i).last() == s@[j - 1]);
        }
        assert(t.take(t.len() - quote_suffix_len(t)) =~= s@.subrange(i as int, j as int));
    }
    slice_range(s, i, j)
}

// ---------------------------------------------------------------------------
// What a JavaScript or TypeScript file yields.
// ---------------------------------------------------------------------------

/// The target a call is recorded under: inside a class, `this.m` becomes
/// `Class.m`.
pub open spec fn js_call_target(raw: Seq<char>, class: Option<Seq<char>>) -> Seq<char> {
    match class {
        Some(cn) => member_call_of(raw, cn),
        None => raw,
    }
}

/// An edge as extraction records it (no module hint).
pub open spec fn js_edge(source: NodeId, kind: EdgeKind, target: Seq<char>, line: u32) -> RawEdgeView {
    RawEdgeView { source, kind, target_name: target, target_module: None, source_line: line }
}

/// The call edges of the calls below `n`, in document order, appended to `raws`.
pub open spec fn js_calls(
    t: SyntaxTree,
    n: int,
    caller: NodeId,
    class: Option<Seq<char>>,
    raws: Seq<RawEdgeView>,
) -> Seq<RawEdgeView>
    decreases t.size() - n, 1int, 0int,
{
    js_calls_from(t, n, 0, caller, class, raws)
}

pub open spec fn js_calls_from(
    t: SyntaxTree,
    n: int,
    i: int,
    caller: NodeId,
    class: Option<Seq<char>>,
    raws: Seq<RawEdgeView>,
) -> Seq<RawEdgeView>
    decreases t.size() - n, 0int, t.children_of(n).len() - i,
{
    let kids = t.children_of(n);
    if i < 0 || i >= kids.len() || !(n < kids[i] < t.size()) {
        raws
    } else {
        let c = kids[i];
        let with_call = if t.kind_of(c) == "call_expression"@ {
            match field_child(t, c, "function"@) {
                Some(f) => raws.push(
                    js_edge(caller, EdgeKind::Calls, js_call_target(t.text_of(f), class), t.start_rows@[c]),
                ),
                None => raws,
            }
        } else {
            raws
        };
        js_calls_from(t, n, i + 1, caller, class, js_calls(t, c, caller, class, with_call))
    }
}

/// The text of a field child, or `d` where there is none.
pub open spec fn field_text_or(t: SyntaxTree, n: int, f: Seq<char>, d: Seq<char>) -> Seq<char> {
    match field_child(t, n, f) {
        Some(c) => t.text_of(c),
        None => d,
    }
}

/// A function declaration: its symbol, then the calls in its body.
pub open spec fn js_function(
    t: SyntaxTree,
    n: int,
    path: Seq<char>,
    parent: NodeId,
    lang: Language,
    acc: (Seq<SymbolView>, Seq<RawEdgeView>),
) -> (Seq<SymbolView>, Seq<RawEdgeView>) {
    match field_child(t, n, "name"@) {
        None => acc,
        Some(nm) => {
            let name = t.text_of(nm);
            let ret = match field_child(t, n, "return_type"@) {
                Some(r) => ": "@ + t.text_of(r),
                None => Seq::<char>::empty(),
            };
            let s = symbol_at(
                path,
                name,
                SymbolKind::Function,
                node_rows(t, n),
                Some("function "@ + name + field_text_or(t, n, "parameters"@, "()"@) + ret),
                Visibility::Public,
                lang,
                Some(parent),
            );
            (
                acc.0.push(s),
                match field_child(t, n, "body"@) {
                    Some(b) => js_calls(t, b, s.id, None, acc.1),
                    None => acc.1,
                },
            )
        },
    }
}

/// `IMPLEMENTS` edges to the pieces from the `j`-th on.
pub open spec fn js_implements(
    pieces: Seq<Seq<char>>,
    j: int,
    id: NodeId,
    line: u32,
    raws: Seq<RawEdgeView>,
) -> Seq<RawEdgeView>
    decreases pieces.len() - j,
{
    if j < 0 || j >= pieces.len() {
        raws
    } else {
        js_implements(pieces, j + 1, id, line, raws.push(js_edge(id, EdgeKind::Implements, trim_ws(pieces[j]), line)))
    }
}

/// The edges of one `class_heritage` child: `extends` names the first word
/// after it; the comma-separated names after `implements ` are implemented.
pub open spec fn js_heritage(t: SyntaxTree, c: int, id: NodeId, raws: Seq<RawEdgeView>) -> Seq<RawEdgeView> {
    if t.kind_of(c) != "class_heritage"@ {
        raws
    } else {
        let line = t.start_rows@[c];
        let text = t.text_of(c);
        let r1 = match strip_prefix(text, "extends "@) {
            Some(base) => raws.push(js_edge(id, EdgeKind::Extends, first_word_of(base), line)),
            None => raws,
        };
        if contains(text, "implements "@) {
            match second_piece_of(text, "implements "@) {
                Some(part) => js_implements(split_char(part, ','), 0, id, line, r1),
                None => r1,
            }
        } else {
            r1
        }
    }
}

pub open spec fn js_heritage_from(t: SyntaxTree, n: int, i: int, id: NodeId, raws: Seq<RawEdgeView>) -> Seq<RawEdgeView>
    decreases t.children_of(n).len() - i,
{
    let kids = t.children_of(n);
    if i < 0 || i >= kids.len() {
        raws
    } else {
        js_heritage_from(t, n, i + 1, id, js_heritage(t, kids[i], id, raws))
    }
}

/// One class member: methods, constructors and fields, named `Class.member`,
/// with the calls of their bodies (for a field holding a function, of that
/// function's body, or of the whole value where it has none).
pub open spec fn js_member(
    t: SyntaxTree,
    c: int,
    path: Seq<char>,
    class_id: NodeId,
    class_name: Seq<char>,
    lang: Language,
    acc: (Seq<SymbolView>, Seq<RawEdgeView>),
) -> (Seq<SymbolView>, Seq<RawEdgeView>) {
    let is_method = t.kind_of(c) == "method_definition"@;
    let is_field = t.kind_of(c) == "public_field_definition"@;
    if !(is_method || is_field) {
        acc
    } else {
        match field_child(t, c, "name"@) {
            None => acc,
            Some(nm) => {
                let mname = t.text_of(nm);
                let kind = if mname == "constructor"@ {
                    SymbolKind::Constructor
                } else if is_field {
                    SymbolKind::Property
                } else {
                    SymbolKind::Method
                };
                let s = symbol_at(
                    path,
                    class_name + "."@ + mname,
                    kind,
                    node_rows(t, c),
                    Some(mname + field_text_or(t, c, "parameters"@, ""@)),
                    Visibility::Public,
                    lang,
                    Some(class_id),
                );
                let cls = Some(class_name);
                let r1 = match field_child(t, c, "body"@) {
                    Some(b) => js_calls(t, b, s.id, cls, acc.1),
                    None => acc.1,
                };
                let r2 = if is_field {
                    match field_child(t, c, "value"@) {
                        Some(v) => if t.kind_of(v) == "arrow_function"@ || t.kind_of(v) == "function"@ {
                            match field_child(t, v, "body"@) {
                                Some(fb) => js_calls(t, fb, s.id, cls, r1),
                                None => js_calls(t, v, s.id, cls, r1),
                            }
                        } else {
                            r1
                        },
                        None => r1,
                    }
                } else {
                    r1
                };
                (acc.0.push(s), r2)
            },
        }
    }
}

pub open spec fn js_members_from(
    t: SyntaxTree,
    body: int,
    i: int,
    path: Seq<char>,
    class_id: NodeId,
    class_name: Seq<char>,
    lang: Language,
    acc: (Seq<SymbolView>, Seq<RawEdgeView>),
) -> (Seq<SymbolView>, Seq<RawEdgeView>)
    decreases t.children_of(body).len() - i,
{
    let kids = t.children_of(body);
    if i < 0 || i >= kids.len() {
        acc
    } else {
        js_members_from(t, body, i + 1, path, class_id, class_name, lang, js_member(t, kids[i], path, class_id, class_name, lang, acc))
    }
}

/// A class declaration: its symbol, its heritage, then its members.
pub open spec fn js_class(
    t: SyntaxTree,
    n: int,
    path: Seq<char>,
    parent: NodeId,
    lang: Language,
    acc: (Seq<SymbolView>, Seq<RawEdgeView>),
) -> (Seq<SymbolView>, Seq<RawEdgeView>) {
    match field_child(t, n, "name"@) {
        None => acc,
        Some(nm) => {
            let name = t.text_of(nm);
            let s = symbol_at(
                path,
                name,
                SymbolKind::Class,
                node_rows(t, n),
                Some("class "@ + name),
                Visibility::Public,
                lang,
                Some(parent),
            );
            let after = (acc.0.push(s), js_heritage_from(t, n, 0, s.id, acc.1));
            match field_child(t, n, "body"@) {
                Some(b) => js_members_from(t, b, 0, path, s.id, name, lang, after),
                None => after,
            }
        },
    }
}

/// The module an import names: its source without quotes, else the whole
/// statement; for a relative module (starting with `.`) also the path it
/// names next to the importing file, with `/` separators.
pub open spec fn js_import(
    t: SyntaxTree,
    n: int,
    path: Seq<char>,
    parent: NodeId,
    lang: Language,
    acc: (Seq<SymbolView>, Seq<RawEdgeView>),
) -> (Seq<SymbolView>, Seq<RawEdgeView>) {
    let text = trim_ws(t.text_of(n));
    let module = match field_child(t, n, "source"@) {
        Some(src) => trim_quotes_of(t.text_of(src)),
        None => text,
    };
    let abs = if module.len() > 0 && module[0] == '.' {
        match parent_dir_of(path) {
            Some(dir) => Some(replace(joined_path(dir, module), seq!['\\'], seq!['/'])),
            None => None,
        }
    } else {
        None
    };
    (
        acc.0.push(
            symbol_at(path, text, SymbolKind::Import, node_rows(t, n), Some(text), Visibility::Public, lang, Some(parent)),
        ),
        acc.1.push(
            RawEdgeView {
                source: parent,
                kind: EdgeKind::Imports,
                target_name: module,
                target_module: abs,
                source_line: t.start_rows@[n],
            },
        ),
    )
}

/// The symbol of a variable: identified by its declarator's row, spanning
/// the whole declaration.
pub open spec fn js_var_symbol(
    path: Seq<char>,
    name: Seq<char>,
    kind: SymbolKind,
    line: u32,
    decl_rows: (u32, u32),
    sig: Seq<char>,
    lang: Language,
    parent: NodeId,
) -> SymbolView {
    SymbolView {
        line_range: decl_rows,
        ..symbol_at(path, name, kind, (line, decl_rows.1), Some(sig), Visibility::Public, lang, Some(parent))
    }
}

/// One declarator of a variable declaration with an identifier name and a
/// value: a function for an arrow function or function expression (with the
/// calls of its body), else a constant (a `new` expression also references
/// its constructor), with the calls of its value.
pub open spec fn js_declarator(
    t: SyntaxTree,
    c: int,
    path: Seq<char>,
    parent: NodeId,
    lang: Language,
    decl_rows: (u32, u32),
    acc: (Seq<SymbolView>, Seq<RawEdgeView>),
) -> (Seq<SymbolView>, Seq<RawEdgeView>) {
    if t.kind_of(c) != "variable_declarator"@ {
        acc
    } else {
        match field_child(t, c, "name"@) {
            None => acc,
            Some(nm) => if t.kind_of(nm) != "identifier"@ {
                acc
            } else {
                match field_child(t, c, "value"@) {
                    None => acc,
                    Some(v) => {
                        let name = t.text_of(nm);
                        let line = t.start_rows@[c];
                        let vk = t.kind_of(v);
                        if vk == "arrow_function"@ || vk == "function"@ {
                            let s = js_var_symbol(
                                path,
                                name,
                                SymbolKind::Function,
                                line,
                                decl_rows,
                                "const "@ + name + " = "@ + field_text_or(t, v, "parameters"@, "()"@) + " =>"@,
                                lang,
                                parent,
                            );
                            (
                                acc.0.push(s),
                                match field_child(t, v, "body"@) {
                                    Some(b) => js_calls(t, b, s.id, None, acc.1),
                                    None => acc.1,
                                },
                            )
                        } else if vk == "new_expression"@ {
                            let ctor = field_text_or(t, v, "constructor"@, ""@);
                            let s = js_var_symbol(
                                path,
                                name,
                                SymbolKind::Constant,
                                line,
                                decl_rows,
                                "const "@ + name + " = new "@ + ctor + "(...)"@,
                                lang,
                                parent,
                            );
                            let r1 = if ctor.len() > 0 {
                                acc.1.push(js_edge(s.id, EdgeKind::References, trim_ws(before_first(ctor, seq!['<'])), line))
                            } else {
                                acc.1
                            };
                            (acc.0.push(s), js_calls(t, v, s.id, None, r1))
                        } else if vk == "call_expression"@ {
                            let s = js_var_symbol(
                                path,
                                name,
                                SymbolKind::Constant,
                                line,
                                decl_rows,
                                "const "@ + name + " = "@ + field_text_or(t, v, "function"@, ""@) + "(...)"@,
                                lang,
                                parent,
                            );
                            (acc.0.push(s), js_calls(t, v, s.id, None, acc.1))
                        } else {
                            let s = js_var_symbol(
                                path,
                                name,
                                SymbolKind::Constant,
                                line,
                                decl_rows,
                                "const "@ + name,
                                lang,
                                parent,
                            );
                            (acc.0.push(s), js_calls(t, v, s.id, None, acc.1))
                        }
                    },
                }
            },
        }
    }
}

pub open spec fn js_declarators_from(
    t: SyntaxTree,
    n: int,
    i: int,
    path: Seq<char>,
    parent: NodeId,
    lang: Language,
    acc: (Seq<SymbolView>, Seq<RawEdgeView>),
) -> (Seq<SymbolView>, Seq<RawEdgeView>)
    decreases t.children_of(n).len() - i,
{
    let kids = t.children_of(n);
    if i < 0 || i >= kids.len() {
        acc
    } else {
        js_declarators_from(t, n, i + 1, path, parent, lang, js_declarator(t, kids[i], path, parent, lang, node_rows(t, n), acc))
    }
}

/// An interface or a type alias.
pub open spec fn js_type(
    t: SyntaxTree,
    n: int,
    path: Seq<char>,
    parent: NodeId,
    lang: Language,
    acc: (Seq<SymbolView>, Seq<RawEdgeView>),
) -> (Seq<SymbolView>, Seq<RawEdgeView>) {
    match field_child(t, n, "name"@) {
        None => acc,
        Some(nm) => {
            let name = t.text_of(nm);
            let iface = t.kind_of(n) == "interface_declaration"@;
            (
                acc.0.push(
                    symbol_at(
                        path,
                        name,
                        if iface {
                            SymbolKind::Interface
                        } else {
                            SymbolKind::TypeAlias
                        },
                        node_rows(t, n),
                        Some(
                            if iface {
                                "interface "@
                            } else {
                                "type "@
                            } + name,
                        ),
                        Visibility::Public,
                        lang,
                        Some(parent),
                    ),
                ),
                acc.1,
            )
        },
    }
}

/// The symbols and edges of the statements below `n`.
pub open spec fn js_walk(
    t: SyntaxTree,
    n: int,
    path: Seq<char>,
    parent: NodeId,
    lang: Language,
    acc: (Seq<SymbolView>, Seq<RawEdgeView>),
) -> (Seq<SymbolView>, Seq<RawEdgeView>)
    decreases t.size() - n, 2int, 0int,
{
    js_walk_from(t, n, 0, path, parent, lang, acc)
}

pub open spec fn js_walk_from(
    t: SyntaxTree,
    n: int,
    i: int,
    path: Seq<char>,
    parent: NodeId,
    lang: Language,
    acc: (Seq<SymbolView>, Seq<RawEdgeView>),
) -> (Seq<SymbolView>, Seq<RawEdgeView>)
    decreases t.size() - n, 1int, t.children_of(n).len() - i,
{
    let kids = t.children_of(n);
    if i < 0 || i >= kids.len() || !(n < kids[i] < t.size()) {
        acc
    } else {
        js_walk_from(t, n, i + 1, path, parent, lang, js_item(t, kids[i], path, parent, lang, acc))
    }
}

/// One statement: functions, classes, imports, variable declarations,
/// interfaces and type aliases, enums; exports and any other node have their
/// children walked.
pub open spec fn js_item(
    t: SyntaxTree,
    c: int,
    path: Seq<char>,
    parent: NodeId,
    lang: Language,
    acc: (Seq<SymbolView>, Seq<RawEdgeView>),
) -> (Seq<SymbolView>, Seq<RawEdgeView>)
    decreases t.size() - c, 3int, 0int,
{
    let k = t.kind_of(c);
    if k == "function_declaration"@ {
        js_function(t, c, path, parent, lang, acc)
    } else if k == "class_declaration"@ {
        js_class(t, c, path, parent, lang, acc)
    } else if k == "import_statement"@ {
        js_import(t, c, path, parent, lang, acc)
    } else if k == "export_statement"@ {
        js_walk(t, c, path, parent, lang, acc)
    } else if k == "lexical_declaration"@ || k == "variable_declaration"@ {
        js_declarators_from(t, c, 0, path, parent, lang, acc)
    } else if k == "interface_declaration"@ || k == "type_alias_declaration"@ {
        js_type(t, c, path, parent, lang, acc)
    } else if k == "enum_declaration"@ {
        match field_child(t, c, "name"@) {
            Some(nm) => (
                acc.0.push(
                    symbol_at(
                        path,
                        t.text_of(nm),
                        SymbolKind::Enum,
                        node_rows(t, c),
                        Some("enum "@ + t.text_of(nm)),
                        Visibility::Public,
                        lang,
                        Some(parent),
                    ),
                ),
                acc.1,
            ),
            None => acc,
        }
    } else {
        js_walk(t, c, path, parent, lang, acc)
    }
}

/// The symbols and raw edges of a JavaScript or TypeScript file: its `File`
/// symbol, then the statements of the tree in document order.
pub open spec fn js_extraction(t: SyntaxTree, path: Seq<char>, lang: Language) -> (Seq<SymbolView>, Seq<RawEdgeView>) {
    let f = file_symbol(path, lang, t.source@);
    js_walk(t, 0, path, f.id, lang, (seq![f], Seq::<RawEdgeView>::empty()))
}

fn walk_js(
    tree: &SyntaxTree,
    node: usize,
    path: &str,
    parent_id: NodeId,
    lang: Language,
    out: &mut ExtractResult,
)
    requires
        walk_ready(tree, node, path@, lang, old(out), parent_id),
    ensures
        walk_kept(old(out), final(out), path@, lang),
        (final(out).syms(), final(out).raws()) == js_walk(
            *tree,
            node as int,
            path@,
            parent_id,
            lang,
            (old(out).syms(), old(out).raws()),
        ),
    decreases tree.size() - node, 1nat,
{
    let ghost goal = js_walk(*tree, node as int, path@, parent_id, lang, (out.syms(), out.raws()));
    let kids = tree.children(node);
    let mut k: usize = 0;
    while k < kids.len()
        invariant
            tree.wf(),
            node < tree.size(),
            forall|m: int| 0 <= m < kids@.len() ==> node < #[trigger] kids@[m] < tree.size(),
            kids@.map_values(|x: usize| x as int) == tree.children_of(node as int),
            has_id(old(out).syms(), parent_id),
            walk_kept(old(out), out, path@, lang),
            js_walk_from(*tree, node as int, k as int, path@, parent_id, lang, (out.syms(), out.raws()))
                == goal,
        decreases kids@.len() - k,
    {
        let child = kids[k];
        proof {
            assert(tree.children_of(node as int)[k as int] == child as int);
        }
        js_item_exec(tree, child, path, parent_id, lang, out);
        k = k + 1;
    }
}

fn js_item_exec(
    tree: &SyntaxTree,
    child: usize,
    path: &str,
    parent_id: NodeId,
    lang: Language,
    out: &mut ExtractResult,
)
    requires
        walk_ready(tree, child, path@, lang, old(out), parent_id),
    ensures
        walk_kept(old(out), final(out), path@, lang),
        (final(out).syms(), final(out).raws()) == js_item(
            *tree,
            child as int,
            path@,
            parent_id,
            lang,
            (old(out).syms(), old(out).raws()),
        ),
    decreases tree.size() - child, 2nat,
{
    if tree.is_kind(child, "function_declaration") {
        extract_js_function(tree, child, path, parent_id, lang, out);
    } else if tree.is_kind(child, "class_declaration") {
        extract_js_class(tree, child, path, parent_id, lang, out);
    } else if tree.is_kind(child, "import_statement") {
        extract_js_import(tree, child, path, parent_id, lang, out);
    } else if tree.is_kind(child, "export_statement") {
        walk_js(tree, child, path, parent_id, lang, out);
    } else if tree.is_kind(child, "lexical_declaration") || tree.is_kind(
        child,
        "variable_declaration",
    ) {
        extract_js_variable(tree, child, path, parent_id, lang, out);
    } else if tree.is_kind(child, "interface_declaration") || tree.is_kind(
        child,
        "type_alias_declaration",
    ) {
        extract_js_type(tree, child, path, parent_id, lang, out);
    } else if tree.is_kind(child, "enum_declaration") {
        if let Some(name_node) = tree.child_by_field(child, "name") {
            let name = tree.text(name_node);
            let sig = cat2("enum ", name.as_str());
            let s = make_symbol(
                path,
                name,
                SymbolKind::Enum,
                rows(tree, child),
                Some(sig),
                Visibility::Public,
                lang,
                Some(parent_id),
            );
            out.add_symbol(s, path, lang);
        }
    } else {
        walk_js(tree, child, path, parent_id, lang, out);
    }
}

fn extract_js_function(
    tree: &SyntaxTree,
    node: usize,
    path: &str,
    parent_id: NodeId,
    lang: Language,
    out: &mut ExtractResult,
)
    requires
        walk_ready(tree, node, path@, lang, old(out), parent_id),
    ensures
        walk_kept(old(out), final(out), path@, lang),
        (final(out).syms(), final(out).raws()) == js_function(
            *tree,
            node as int,
            path@,
            parent_id,
            lang,
            (old(out).syms(), old(out).raws()),
        ),
{
    let name_node = match tree.child_by_field(node, "name") {
        Some(n) => n,
        None => {
            return;
        },
    };
    let name = tree.text(name_node);
    let params = match tree.child_by_field(node, "parameters") {
        Some(p) => tree.text(p),
        None => "()".to_string(),
    };
    let return_type = match tree.child_by_field(node, "return_type") {
        Some(r) => cat2(": ", tree.text(r).as_str()),
        None => String::new(),
    };
    let sig = cat4("function ", name.as_str(), params.as_str(), return_type.as_str());
    let s = make_symbol(
        path,
        name,
        SymbolKind::Function,
        rows(tree, node),
        Some(sig),
        Visibility::Public,
        lang,
        Some(parent_id),
    );
    let id = s.id;
    out.add_symbol(s, path, lang);
    if let Some(body) = tree.child_by_field(node, "body") {
        extract_js_calls(tree, body, path, id, &None, lang, out);
    }
}

fn js_implements_exec(
    pieces: &Vec<Vec<char>>,
    id: NodeId,
    line: u32,
    path: &str,
    lang: Language,
    out: &mut ExtractResult,
)
    requires
        old(out).ok(path@, lang),
        has_id(old(out).syms(), id),
    ensures
        walk_kept(old(out), final(out), path@, lang),
        final(out).syms() == old(out).syms(),
        final(out).raws() == js_implements(
            pieces@.map_values(|v: Vec<char>| v@),
            0,
            id,
            line,
            old(out).raws(),
        ),
{
    let ghost pv = pieces@.map_values(|v: Vec<char>| v@);
    let ghost goal = js_implements(pv, 0, id, line, out.raws());
    let mut j: usize = 0;
    while j < pieces.len()
        invariant
            j <= pieces@.len(),
            pv == pieces@.map_values(|v: Vec<char>| v@),
            has_id(out.syms(), id),
            walk_kept(old(out), out, path@, lang),
            out.syms() == old(out).syms(),
            js_implements(pv, j as int, id, line, out.raws()) == goal,
        decreases pieces@.len() - j,
    {
        let t = trim_chars(&pieces[j]);
        let e = make_edge(id, EdgeKind::Implements, string_of(&t), line);
        out.add_edge(e, Ghost(path@), Ghost(lang));
        j = j + 1;
    }
}

fn js_heritage_exec(
    tree: &SyntaxTree,
    child: usize,
    id: NodeId,
    path: &str,
    lang: Language,
    out: &mut ExtractResult,
)
    requires
        tree.wf(),
        child < tree.size(),
        old(out).ok(path@, lang),
        has_id(old(out).syms(), id),
    ensures
        walk_kept(old(out), final(out), path@, lang),
        final(out).syms() == old(out).syms(),
        final(out).raws() == js_heritage(*tree, child as int, id, old(out).raws()),
{
    if tree.is_kind(child, "class_heritage") {
        let extends_kw = chars_of("extends ");
        let implements_kw = chars_of("implements ");
        let line = tree.start_row(child);
        let text = tree.text_chars(child);
        if let Some(base) = strip_prefix_chars(&text, &extends_kw) {
            let target = first_word(&base);
            let e = make_edge(id, EdgeKind::Extends, string_of(&target), line);
            out.add_edge(e, Ghost(path@), Ghost(lang));
        }
        if contains_chars(&text, &implements_kw) {
            if let Some(impl_part) = second_piece(&text, &implements_kw) {
                let ifaces = split_char_chars(&impl_part, ',');
                js_implements_exec(&ifaces, id, line, path, lang, out);
            }
        }
    }
}

fn js_member_exec(
    tree: &SyntaxTree,
    child: usize,
    path: &str,
    class_id: NodeId,
    name: &String,
    lang: Language,
    out: &mut ExtractResult,
)
    requires
        walk_ready(tree, child, path@, lang, old(out), class_id),
    ensures
        walk_kept(old(out), final(out), path@, lang),
        (final(out).syms(), final(out).raws()) == js_member(
            *tree,
            child as int,
            path@,
            class_id,
            name@,
            lang,
            (old(out).syms(), old(out).raws()),
        ),
{
    proof {
        reveal_strlit("");
    }
    let is_method = tree.is_kind(child, "method_definition");
    let is_field = tree.is_kind(child, "public_field_definition");
    if is_method || is_field {
        if let Some(name_node) = tree.child_by_field(child, "name") {
            let method_name = tree.text(name_node);
            let kind = if str_eq(method_name.as_str(), "constructor") {
                SymbolKind::Constructor
            } else if is_field {
                SymbolKind::Property
            } else {
                SymbolKind::Method
            };
            let params = match tree.child_by_field(child, "parameters") {
                Some(p) => tree.text(p),
                None => String::new(),
            };
            let qualified = cat3(name.as_str(), ".", method_name.as_str());
            let sig = cat2(method_name.as_str(), params.as_str());
            let s = make_symbol(
                path,
                qualified,
                kind,
                rows(tree, child),
                Some(sig),
                Visibility::Public,
                lang,
                Some(class_id),
            );
            let method_id = s.id;
            out.add_symbol(s, path, lang);
            let class_name = Some(name.clone());
            if let Some(mbody) = tree.child_by_field(child, "body") {
                extract_js_calls(tree, mbody, path, method_id, &class_name, lang, out);
            }
            if is_field {
                if let Some(value) = tree.child_by_field(child, "value") {
                    if tree.is_kind(value, "arrow_function") || tree.is_kind(value, "function") {
                        match tree.child_by_field(value, "body") {
                            Some(fn_body) => {
                                extract_js_calls(tree, fn_body, path, method_id, &class_name, lang, out);
                            },
                            None => {
                                extract_js_calls(tree, value, path, method_id, &class_name, lang, out);
                            },
                        }
                    }
                }
            }
        }
    }
}

fn extract_js_class(
    tree: &SyntaxTree,
    node: usize,
    path: &str,
    parent_id: NodeId,
    lang: Language,
    out: &mut ExtractResult,
)
    requires
        walk_ready(tree, node, path@, lang, old(out), parent_id),
    ensures
        walk_kept(old(out), final(out), path@, lang),
        (final(out).syms(), final(out).raws()) == js_class(
            *tree,
            node as int,
            path@,
            parent_id,
            lang,
            (old(out).syms(), old(out).raws()),
        ),
{
    let name_node = match tree.child_by_field(node, "name") {
        Some(n) => n,
        None => {
            return;
        },
    };
    let name = tree.text(name_node);
    let sig = cat2("class ", name.as_str());
    let s = make_symbol(
        path,
        name.clone(),
        SymbolKind::Class,
        rows(tree, node),
        Some(sig),
        Visibility::Public,
        lang,
        Some(parent_id),
    );
    let id = s.id;
    out.add_symbol(s, path, lang);
    let ghost syms1 = out.syms();
    let ghost raws1 = out.raws();
    let kids = tree.children(node);
    let mut k: usize = 0;
    while k < kids.len()
        invariant
            tree.wf(),
            node < tree.size(),
            forall|m: int| 0 <= m < kids@.len() ==> node < #[trigger] kids@[m] < tree.size(),
            kids@.map_values(|x: usize| x as int) == tree.children_of(node as int),
            has_id(old(out).syms(), parent_id),
            has_id(out.syms(), id),
            walk_kept(old(out), out, path@, lang),
            out.syms() == syms1,
            js_heritage_from(*tree, node as int, k as int, id, out.raws()) == js_heritage_from(
                *tree,
                node as int,
                0,
                id,
                raws1,
            ),
        decreases kids@.len() - k,
    {
        let child = kids[k];
        proof {
            assert(tree.children_of(node as int)[k as int] == child as int);
        }
        js_heritage_exec(tree, child, id, path, lang, out);
        k = k + 1;
    }
    let ghost mid = (out.syms(), out.raws());
    if let Some(body) = tree.child_by_field(node, "body") {
        let members = tree.children(body);
        let mut k: usize = 0;
        while k < members.len()
            invariant
                tree.wf(),
                body < tree.size(),
                forall|m: int| 0 <= m < members@.len() ==> body < #[trigger] members@[m] < tree.size(),
                members@.map_values(|x: usize| x as int) == tree.children_of(body as int),
                has_id(old(out).syms(), parent_id),
                has_id(out.syms(), id),
                walk_kept(old(out), out, path@, lang),
                js_members_from(*tree, body as int, k as int, path@, id, name@, lang, (out.syms(), out.raws()))
                    == js_members_from(*tree, body as int, 0, path@, id, name@, lang, mid),
            decreases members@.len() - k,
        {
            let child = members[k];
            proof {
                assert(tree.children_of(body as int)[k as int] == child as int);
            }
            js_member_exec(tree, child, path, id, &name, lang, out);
            k = k + 1;
        }
    }
}

fn extract_js_import(
    tree: &SyntaxTree,
    node: usize,
    path: &str,
    parent_id: NodeId,
    lang: Language,
    out: &mut ExtractResult,
)
    requires
        walk_ready(tree, node, path@, lang, old(out), parent_id),
    ensures
        walk_kept(old(out), final(out), path@, lang),
        (final(out).syms(), final(out).raws()) == js_import(
            *tree,
            node as int,
            path@,
            parent_id,
            lang,
            (old(out).syms(), old(out).raws()),
        ),
{
    let raw = tree.text_chars(node);
    let text = string_of(&trim_chars(&raw));
    let source_module = match tree.child_by_field(node, "source") {
        Some(s) => Some(string_of(&trim_quotes(&tree.text_chars(s)))),
        None => None,
    };
    let line = tree.start_row(node);
    let s = make_symbol(
        path,
        text.clone(),
        SymbolKind::Import,
        rows(tree, node),
        Some(text.clone()),
        Visibility::Public,
        lang,
        Some(parent_id),
    );
    out.add_symbol(s, path, lang);
    let module_str = match source_module {
        Some(m) => m,
        None => text,
    };
    let mc = chars_of(module_str.as_str());
    let back = vec!['\\'];
    let fwd = vec!['/'];
    proof {
        assert(back@ =~= seq!['\\']);
        assert(fwd@ =~= seq!['/']);
    }
    let abs_module_path = if mc.len() > 0 && mc[0] == '.' {
        match parent_dir(path) {
            Some(dir) => {
                let joined = join_path(dir.as_str(), module_str.as_str());
                let jc = chars_of(joined.as_str());
                Some(string_of(&replace_chars(&jc, &back, &fwd)))
            },
            None => None,
        }
    } else {
        None
    };
    let e = RawEdge {
        source: parent_id,
        kind: EdgeKind::Imports,
        target_name: module_str,
        target_module: abs_module_path,
        source_line: line,
    };
    out.add_edge(e, Ghost(path@), Ghost(lang));
}

fn js_declarator_exec(
    tree: &SyntaxTree,
    child: usize,
    path: &str,
    parent_id: NodeId,
    lang: Language,
    decl_rows: (u32, u32),
    out: &mut ExtractResult,
)
    requires
        walk_ready(tree, child, path@, lang, old(out), parent_id),
    ensures
        walk_kept(old(out), final(out), path@, lang),
        (final(out).syms(), final(out).raws()) == js_declarator(
            *tree,
            child as int,
            path@,
            parent_id,
            lang,
            decl_rows,
            (old(out).syms(), old(out).raws()),
        ),
{
    proof {
        reveal_strlit("");
    }
    if !tree.is_kind(child, "variable_declarator") {
        return;
    }
    let name_node = match tree.child_by_field(child, "name") {
        Some(n) => n,
        None => {
            return;
        },
    };
    if !tree.is_kind(name_node, "identifier") {
        return;
    }
    let name = tree.text(name_node);
    let value = match tree.child_by_field(child, "value") {
        Some(v) => v,
        None => {
            return;
        },
    };
    let line = tree.start_row(child);
    if tree.is_kind(value, "arrow_function") || tree.is_kind(value, "function") {
        let params = match tree.child_by_field(value, "parameters") {
            Some(p) => tree.text(p),
            None => "()".to_string(),
        };
        let sig = cat5("const ", name.as_str(), " = ", params.as_str(), " =>");
        let s = make_symbol(
            path,
            name,
            SymbolKind::Function,
            (line, decl_rows.1),
            Some(sig),
            Visibility::Public,
            lang,
            Some(parent_id),
        );
        let s = with_rows(s, decl_rows);
        let id = s.id;
        out.add_symbol(s, path, lang);
        if let Some(body) = tree.child_by_field(value, "body") {
            extract_js_calls(tree, body, path, id, &None, lang, out);
        }
    } else if tree.is_kind(value, "new_expression") {
        let ctor = match tree.child_by_field(value, "constructor") {
            Some(c) => tree.text(c),
            None => String::new(),
        };
        let sig = cat5("const ", name.as_str(), " = new ", ctor.as_str(), "(...)");
        let s = make_symbol(
            path,
            name,
            SymbolKind::Constant,
            (line, decl_rows.1),
            Some(sig),
            Visibility::Public,
            lang,
            Some(parent_id),
        );
        let s = with_rows(s, decl_rows);
        let id = s.id;
        out.add_symbol(s, path, lang);
        let cc = chars_of(ctor.as_str());
        if cc.len() > 0 {
            let lt = vec!['<'];
            proof {
                assert(lt@ =~= seq!['<']);
            }
            let head = before_first_chars(&cc, &lt);
            let target = trim_chars(&head);
            let e = make_edge(id, EdgeKind::References, string_of(&target), line);
            out.add_edge(e, Ghost(path@), Ghost(lang));
        }
        extract_js_calls(tree, value, path, id, &None, lang, out);
    } else if tree.is_kind(value, "call_expression") {
        let callee = match tree.child_by_field(value, "function") {
            Some(c) => tree.text(c),
            None => String::new(),
        };
        let sig = cat5("const ", name.as_str(), " = ", callee.as_str(), "(...)");
        let s = make_symbol(
            path,
            name,
            SymbolKind::Constant,
            (line, decl_rows.1),
            Some(sig),
            Visibility::Public,
            lang,
            Some(parent_id),
        );
        let s = with_rows(s, decl_rows);
        let id = s.id;
        out.add_symbol(s, path, lang);
        extract_js_calls(tree, value, path, id, &None, lang, out);
    } else {
        let sig = cat2("const ", name.as_str());
        let s = make_symbol(
            path,
            name,
            SymbolKind::Constant,
            (line, decl_rows.1),
            Some(sig),
            Visibility::Public,
            lang,
            Some(parent_id),
        );
        let s = with_rows(s, decl_rows);
        let id = s.id;
        out.add_symbol(s, path, lang);
        extract_js_calls(tree, value, path, id, &None, lang, out);
    }
}

fn extract_js_variable(
    tree: &SyntaxTree,
    node: usize,
    path: &str,
    parent_id: NodeId,
    lang: Language,
    out: &mut ExtractResult,
)
    requires
        walk_ready(tree, node, path@, lang, old(out), parent_id),
    ensures
        walk_kept(old(out), final(out), path@, lang),
        (final(out).syms(), final(out).raws()) == js_declarators_from(
            *tree,
            node as int,
            0,
            path@,
            parent_id,
            lang,
            (old(out).syms(), old(out).raws()),
        ),
{
    let ghost goal = js_declarators_from(*tree, node as int, 0, path@, parent_id, lang, (out.syms(), out.raws()));
    let decl_rows = rows(tree, node);
    let kids = tree.children(node);
    let mut k: usize = 0;
    while k < kids.len()
        invariant
            tree.wf(),
            node < tree.size(),
            forall|m: int| 0 <= m < kids@.len() ==> node < #[trigger] kids@[m] < tree.size(),
            kids@.map_values(|x: usize| x as int) == tree.children_of(node as int),
            decl_rows == node_rows(*tree, node as int),
            has_id(old(out).syms(), parent_id),
            walk_kept(old(out), out, path@, lang),
            js_declarators_from(*tree, node as int, k as int, path@, parent_id, lang, (out.syms(), out.raws()))
                == goal,
        decreases kids@.len() - k,
    {
        let child = kids[k];
        proof {
            assert(tree.children_of(node as int)[k as int] == child as int);
        }
        js_declarator_exec(tree, child, path, parent_id, lang, decl_rows, out);
        k = k + 1;
    }
}

/// The same symbol with another line range (its identifier unchanged).
fn with_rows(s: crate::symbol::SymbolNode, r: (u32, u32)) -> (t: crate::symbol::SymbolNode)
    ensures
        t@ == (crate::symbol::SymbolView { line_range: r, ..s@ }),
{
    crate::symbol::SymbolNode { line_range: r, ..s }
}

fn extract_js_type(
    tree: &SyntaxTree,
    node: usize,
    path: &str,
    parent_id: NodeId,
    lang: Language,
    out: &mut ExtractResult,
)
    requires
        walk_ready(tree, node, path@, lang, old(out), parent_id),
    ensures
        walk_kept(old(out), final(out), path@, lang),
        (final(out).syms(), final(out).raws()) == js_type(
            *tree,
            node as int,
            path@,
            parent_id,
            lang,
            (old(out).syms(), old(out).raws()),
        ),
{
    let name_node = match tree.child_by_field(node, "name") {
        Some(n) => n,
        None => {
            return;
        },
    };
    let name = tree.text(name_node);
    let is_iface = tree.is_kind(node, "interface_declaration");
    let (kind, sig) = if is_iface {
        (SymbolKind::Interface, cat2("interface ", name.as_str()))
    } else {
        (SymbolKind::TypeAlias, cat2("type ", name.as_str()))
    };
    let s = make_symbol(
        path,
        name,
        kind,
        rows(tree, node),
        Some(sig),
        Visibility::Public,
        lang,
        Some(parent_id),
    );
    out.add_symbol(s, path, lang);
}

fn extract_js_calls(
    tree: &SyntaxTree,
    node: usize,
    path: &str,
    caller_id: NodeId,
    class_name: &Option<String>,
    lang: Language,
    out: &mut ExtractResult,
)
    requires
        walk_ready(tree, node, path@, lang, old(out), caller_id),
    ensures
        walk_kept(old(out), final(out), path@, lang),
        final(out).symbols@ == old(out).symbols@,
        final(out).raws() == js_calls(*tree, node as int, caller_id, opt_view(*class_name), old(out).raws()),
    decreases tree.size() - node,
{
    let ghost cls = opt_view(*class_name);
    let ghost goal = js_calls(*tree, node as int, caller_id, cls, out.raws());
    let kids = tree.children(node);
    let mut k: usize = 0;
    while k < kids.len()
        invariant
            tree.wf(),
            node < tree.size(),
            forall|m: int| 0 <= m < kids@.len() ==> node < #[trigger] kids@[m] < tree.size(),
            kids@.map_values(|x: usize| x as int) == tree.children_of(node as int),
            has_id(old(out).syms(), caller_id),
            walk_kept(old(out), out, path@, lang),
            out.symbols@ == old(out).symbols@,
            cls == opt_view(*class_name),
            js_calls_from(*tree, node as int, k as int, caller_id, cls, out.raws()) == goal,
        decreases kids@.len() - k,
    {
        let child = kids[k];
        proof {
            assert(tree.children_of(node as int)[k as int] == child as int);
        }
        if tree.is_kind(child, "call_expression") {
            if let Some(func) = tree.child_by_field(child, "function") {
                let raw = tree.text(func);
                let target = match class_name {
                    Some(cn) => qualify_member_call(raw.as_str(), cn.as_str()),
                    None => raw,
                };
                let e = make_edge(caller_id, EdgeKind::Calls, target, tree.start_row(child));
                out.add_edge(e, Ghost(path@), Ghost(lang));
            }
        }
        extract_js_calls(tree, child, path, caller_id, class_name, lang, out);
        k = k + 1;
    }
}

impl JavaScriptExtractor {
    /// An extractor for JavaScript or TypeScript.
    pub fn new(language: Language) -> (r: JavaScriptExtractor)
        ensures
            r.lang() == language,
    {
        JavaScriptExtractor { language }
    }

    pub closed spec fn lang(&self) -> Language {
        self.language
    }

    pub fn language(&self) -> (r: Language)
        ensures
            r == self.lang(),
    {
        self.language
    }

    /// The file extensions read by this extractor: `ts`, `tsx` for
    /// TypeScript, else `js`, `jsx`, `mjs`, `cjs`.
    pub fn file_extensions(&self) -> (r: Vec<&'static str>)
        ensures
            self.lang() == Language::TypeScript ==> r@.map_values(|s: &str| s@) == seq![
                "ts"@,
                "tsx"@,
            ],
            self.lang() != Language::TypeScript ==> r@.map_values(|s: &str| s@) == seq![
                "js"@,
                "jsx"@,
                "mjs"@,
                "cjs"@,
            ],
    {
        let mut v: Vec<&'static str> = Vec::new();
        match self.language {
            Language::TypeScript => {
                v.push("ts");
                v.push("tsx");
            },
            _ => {
                v.push("js");
                v.push("jsx");
                v.push("mjs");
                v.push("cjs");
            },
        }
        proof {
            if self.lang() == Language::TypeScript {
                assert(v@.map_values(|s: &str| s@) =~= seq!["ts"@, "tsx"@]);
            } else {
                assert(v@.map_values(|s: &str| s@) =~= seq!["js"@, "jsx"@, "mjs"@, "cjs"@]);
            }
        }
        v
    }

    /// Extracts the symbols and raw edges of the file `path` from its tree, in
    /// this extractor's language: the `File` symbol first, every symbol of the
    /// file and language, parents before children, and every raw edge leaving
    /// an extracted symbol.
    pub fn extract(&self, tree: &SyntaxTree, path: &str) -> (r: ExtractResult)
        requires
            tree.wf(),
        ensures
            extraction_of(r, path@, self.lang(), tree.source@),
            (r.syms(), r.raws()) == js_extraction(*tree, path@, self.lang()),
    {
        let lang = self.language;
        let mut out = start_extraction(tree, path, lang);
        proof {
            assert(out.raws() =~= Seq::<RawEdgeView>::empty());
        }
        let file_id = out.symbols[0].id;
        proof {
            assert(out.syms()[0].id == file_id);
        }
        walk_js(tree, 0, path, file_id, lang, &mut out);
        out
    }
}

} // verus!

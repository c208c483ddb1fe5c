//! PHP: namespaces, `use` imports, classes (with `extends` / `implements`),
//! interfaces, traits, enums, functions, methods, constructors, properties and
//! constants; calls of functions, methods (`$this->m` qualified with the class),
//! static methods and constructors.
use vstd::prelude::*;
use crate::text::{
    chars_of, string_of, str_eq, trim_chars, trim_start_char, trim_start_char_chars,
    trim_end_char_chars, trim_start_pat_chars, contains_chars, cat2, cat3, contains, trim_ws,
    trim_end_char, trim_start_pat,
};
use crate::symbol::{SymbolNode, SymbolView, SymbolKind, Language, Visibility, NodeId, node_id_of, opt_view};
use crate::relation::{EdgeKind, RawEdgeView};
use crate::graph::has_id;
use crate::syntax::SyntaxTree;
use crate::extract::{
    ExtractResult, make_edge, start_extraction, extraction_of, walk_ready, walk_kept, rows,
    preceding_doc_comment, field_child, node_rows, file_symbol, doc_comment_of,
};

verus! {

/// Extracts PHP symbols.
pub struct PhpExtractor;

/// A free-function call target without its leading namespace separators.
pub open spec fn php_call_of(raw: Seq<char>) -> Seq<char> {
    trim_start_char(raw, '\\')
}

/// Qualifies a free-function-style call: the leading `\` namespace separators
/// are dropped (the enclosing class plays no part).
pub fn qualify_php_call(raw: &str, class_name: Option<&str>) -> (r: String)
    ensures
        r@ == php_call_of(raw@),
{
    let v = chars_of(raw);
    string_of(&trim_start_char_chars(&v, '\\'))
}

/// The visibility the modifier children from the `i`-th on give: the first
/// modifier naming `private`, `protected` or `public` decides; public when
/// none does.
pub open spec fn php_visibility_from(t: SyntaxTree, kids: Seq<int>, i: int) -> Visibility
    decreases kids.len() - i,
{
    if i < 0 || i >= kids.len() {
        Visibility::Public
    } else {
        let c = kids[i];
        let k = t.kind_of(c);
        if k == "visibility_modifier"@ || k == "modifier"@ {
            let x = t.text_of(c);
            if contains(x, "private"@) {
                Visibility::Private
            } else if contains(x, "protected"@) {
                Visibility::Protected
            } else if contains(x, "public"@) {
                Visibility::Public
            } else {
                php_visibility_from(t, kids, i + 1)
            }
        } else {
            php_visibility_from(t, kids, i + 1)
        }
    }
}

pub open spec fn php_visibility(t: SyntaxTree, n: int) -> Visibility {
    php_visibility_from(t, t.children_of(n), 0)
}

/// A PHP symbol for node `n` spanning the rows of `rows_node`; with
/// `with_sig` the signature is folded into its identifier.
pub open spec fn php_symbol_at(
    t: SyntaxTree,
    n: int,
    rows_node: int,
    path: Seq<char>,
    name: Seq<char>,
    kind: SymbolKind,
    sig: Option<Seq<char>>,
    with_sig: bool,
    vis: Visibility,
    parent: NodeId,
) -> SymbolView {
    let row = t.start_rows@[rows_node];
    SymbolView {
        id: match sig {
            Some(s) => if with_sig {
                node_id_of(path, name + seq!['\u{0}'] + s, kind, row)
            } else {
                node_id_of(path, name, kind, row)
            },
            None => node_id_of(path, name, kind, row),
        },
        name: name,
        kind: kind,
        file_path: path,
        line_range: node_rows(t, rows_node),
        signature: sig,
        doc_comment: doc_comment_of(t, n),
        visibility: vis,
        language: Language::Php,
        parent: Some(parent),
    }
}

pub open spec fn php_edge(source: NodeId, kind: EdgeKind, target: Seq<char>, line: u32) -> RawEdgeView {
    RawEdgeView { source, kind, target_name: target, target_module: None, source_line: line }
}

/// `Class.name` inside a class, `name` outside.
pub open spec fn php_qualified(class: Option<Seq<char>>, name: Seq<char>) -> Seq<char> {
    match class {
        Some(cn) => cn + "."@ + name,
        None => name,
    }
}

/// A `use` declaration: an `IMPORTS` edge to what it names, when it names something.
pub open spec fn php_use(t: SyntaxTree, n: int, parent: NodeId, raws: Seq<RawEdgeView>) -> Seq<RawEdgeView> {
    let cleaned = trim_ws(trim_start_pat(trim_end_char(trim_ws(t.text_of(n)), ';'), "use "@));
    if cleaned.len() == 0 {
        raws
    } else {
        raws.push(php_edge(parent, EdgeKind::Imports, cleaned, t.start_rows@[n]))
    }
}

/// Edges of `kind` from `id` to the `name` / `qualified_name` children from the `i`-th on.
pub open spec fn php_clause_edges(
    t: SyntaxTree,
    kids: Seq<int>,
    i: int,
    id: NodeId,
    kind: EdgeKind,
    raws: Seq<RawEdgeView>,
) -> Seq<RawEdgeView>
    decreases kids.len() - i,
{
    if i < 0 || i >= kids.len() {
        raws
    } else {
        let c = kids[i];
        let next = if t.kind_of(c) == "name"@ || t.kind_of(c) == "qualified_name"@ {
            raws.push(php_edge(id, kind, t.text_of(c), t.start_rows@[c]))
        } else {
            raws
        };
        php_clause_edges(t, kids, i + 1, id, kind, next)
    }
}

/// A namespace: its symbol, then its body (or, without one, its own
/// children) walked under it.
pub open spec fn php_namespace(
    t: SyntaxTree,
    n: int,
    path: Seq<char>,
    parent: NodeId,
    acc: (Seq<SymbolView>, Seq<RawEdgeView>),
) -> (Seq<SymbolView>, Seq<RawEdgeView>)
    decreases t.size() - n, 3int, 0int,
{
    let name_node = match field_child(t, n, "name"@) {
        Some(x) => Some(x),
        None => t.first_with_kind(t.children_of(n), "namespace_name"@),
    };
    match name_node {
        None => acc,
        Some(nm) => {
            let name = t.text_of(nm);
            let s = php_symbol_at(
                t,
                n,
                n,
                path,
                name,
                SymbolKind::Namespace,
                Some("namespace "@ + name),
                false,
                Visibility::Public,
                parent,
            );
            let body = match field_child(t, n, "body"@) {
                Some(b) => b,
                None => match t.first_with_any_kind(
                    t.children_of(n),
                    seq!["compound_statement"@, "declaration_list"@],
                ) {
                    Some(b) => b,
                    None => n,
                },
            };
            if n <= body < t.size() {
                php_walk(t, body, path, s.id, None, (acc.0.push(s), acc.1))
            } else {
                (acc.0.push(s), acc.1)
            }
        },
    }
}

/// A class: its symbol, `EXTENDS` and `IMPLEMENTS` edges, then its body
/// walked with it as the class.
pub open spec fn php_class(
    t: SyntaxTree,
    n: int,
    path: Seq<char>,
    parent: NodeId,
    acc: (Seq<SymbolView>, Seq<RawEdgeView>),
) -> (Seq<SymbolView>, Seq<RawEdgeView>)
    decreases t.size() - n, 3int, 0int,
{
    match field_child(t, n, "name"@) {
        None => acc,
        Some(nm) => {
            let name = t.text_of(nm);
            let s = php_symbol_at(
                t,
                n,
                n,
                path,
                name,
                SymbolKind::Class,
                Some("class "@ + name),
                false,
                Visibility::Public,
                parent,
            );
            let kids = t.children_of(n);
            let base = match field_child(t, n, "base_clause"@) {
                Some(b) => Some(b),
                None => t.first_with_kind(kids, "base_clause"@),
            };
            let r1 = match base {
                Some(b) => php_clause_edges(t, t.children_of(b), 0, s.id, EdgeKind::Extends, acc.1),
                None => acc.1,
            };
            let r2 = match t.first_with_kind(kids, "class_interface_clause"@) {
                Some(c) => php_clause_edges(t, t.children_of(c), 0, s.id, EdgeKind::Implements, r1),
                None => r1,
            };
            let body = match field_child(t, n, "body"@) {
                Some(b) => Some(b),
                None => t.first_with_any_kind(kids, seq!["declaration_list"@, "class_body"@]),
            };
            match body {
                Some(b) => if n < b < t.size() {
                    php_walk(t, b, path, s.id, Some(name), (acc.0.push(s), r2))
                } else {
                    (acc.0.push(s), r2)
                },
                None => (acc.0.push(s), r2),
            }
        },
    }
}

/// An interface, trait or enum: its symbol, then its body (the `body` field
/// or the first child of one of `body_kinds`) walked with it as the class.
pub open spec fn php_container(
    t: SyntaxTree,
    n: int,
    path: Seq<char>,
    parent: NodeId,
    kind: SymbolKind,
    keyword: Seq<char>,
    body_kinds: Seq<Seq<char>>,
    acc: (Seq<SymbolView>, Seq<RawEdgeView>),
) -> (Seq<SymbolView>, Seq<RawEdgeView>)
    decreases t.size() - n, 3int, 0int,
{
    match field_child(t, n, "name"@) {
        None => acc,
        Some(nm) => {
            let name = t.text_of(nm);
            let s = php_symbol_at(t, n, n, path, name, kind, Some(keyword + name), false, Visibility::Public, parent);
            let body = match field_child(t, n, "body"@) {
                Some(b) => Some(b),
                None => t.first_with_any_kind(t.children_of(n), body_kinds),
            };
            match body {
                Some(b) => if n < b < t.size() {
                    php_walk(t, b, path, s.id, Some(name), (acc.0.push(s), acc.1))
                } else {
                    (acc.0.push(s), acc.1)
                },
                None => (acc.0.push(s), acc.1),
            }
        },
    }
}

/// A function (`is_method` false) or a method of `class`: its symbol, then
/// the calls of its body.
pub open spec fn php_function(
    t: SyntaxTree,
    n: int,
    path: Seq<char>,
    parent: NodeId,
    class: Option<Seq<char>>,
    is_method: bool,
    acc: (Seq<SymbolView>, Seq<RawEdgeView>),
) -> (Seq<SymbolView>, Seq<RawEdgeView>) {
    match field_child(t, n, "name"@) {
        None => acc,
        Some(nm) => {
            let bare = t.text_of(nm);
            let params = match field_child(t, n, "parameters"@) {
                Some(p) => t.text_of(p),
                None => "()"@,
            };
            let kind = if !is_method {
                SymbolKind::Function
            } else if bare == "__construct"@ {
                SymbolKind::Constructor
            } else {
                SymbolKind::Method
            };
            let vis = if is_method {
                php_visibility(t, n)
            } else {
                Visibility::Public
            };
            let s = php_symbol_at(
                t,
                n,
                n,
                path,
                php_qualified(class, bare),
                kind,
                Some("function "@ + bare + params),
                true,
                vis,
                parent,
            );
            (
                acc.0.push(s),
                match field_child(t, n, "body"@) {
                    Some(b) => php_calls(t, b, s.id, class, acc.1),
                    None => acc.1,
                },
            )
        },
    }
}

/// The properties of one `property_element` `c` of declaration `n`, from its
/// `j`-th child on: one for each `$name` variable with a non-empty name.
pub open spec fn php_property_vars(
    t: SyntaxTree,
    n: int,
    c: int,
    vars: Seq<int>,
    j: int,
    path: Seq<char>,
    parent: NodeId,
    class: Option<Seq<char>>,
    syms: Seq<SymbolView>,
) -> Seq<SymbolView>
    decreases vars.len() - j,
{
    if j < 0 || j >= vars.len() {
        syms
    } else {
        let v = vars[j];
        let raw = trim_start_char(t.text_of(v), '$');
        let next = if t.kind_of(v) == "variable_name"@ && raw.len() > 0 {
            syms.push(
                php_symbol_at(
                    t,
                    n,
                    c,
                    path,
                    php_qualified(class, raw),
                    SymbolKind::Property,
                    None,
                    false,
                    php_visibility(t, n),
                    parent,
                ),
            )
        } else {
            syms
        };
        php_property_vars(t, n, c, vars, j + 1, path, parent, class, next)
    }
}

/// The properties of a property declaration, from its `i`-th child on.
pub open spec fn php_properties(
    t: SyntaxTree,
    n: int,
    kids: Seq<int>,
    i: int,
    path: Seq<char>,
    parent: NodeId,
    class: Option<Seq<char>>,
    syms: Seq<SymbolView>,
) -> Seq<SymbolView>
    decreases kids.len() - i,
{
    if i < 0 || i >= kids.len() {
        syms
    } else {
        let c = kids[i];
        let next = if t.kind_of(c) == "property_element"@ {
            php_property_vars(t, n, c, t.children_of(c), 0, path, parent, class, syms)
        } else {
            syms
        };
        php_properties(t, n, kids, i + 1, path, parent, class, next)
    }
}

/// The constants of a constant declaration, from its `i`-th child on: one for
/// the first `name` of each `const_element`.
pub open spec fn php_consts(
    t: SyntaxTree,
    n: int,
    kids: Seq<int>,
    i: int,
    path: Seq<char>,
    parent: NodeId,
    class: Option<Seq<char>>,
    syms: Seq<SymbolView>,
) -> Seq<SymbolView>
    decreases kids.len() - i,
{
    if i < 0 || i >= kids.len() {
        syms
    } else {
        let c = kids[i];
        let next = if t.kind_of(c) == "const_element"@ {
            match t.first_with_kind(t.children_of(c), "name"@) {
                Some(v) => syms.push(
                    php_symbol_at(
                        t,
                        n,
                        c,
                        path,
                        php_qualified(class, t.text_of(v)),
                        SymbolKind::Constant,
                        None,
                        false,
                        php_visibility(t, n),
                        parent,
                    ),
                ),
                None => syms,
            }
        } else {
            syms
        };
        php_consts(t, n, kids, i + 1, path, parent, class, next)
    }
}

/// The target of a member call: `$this->m` is `Class.m` (`m` outside a
/// class), any other `obj->m` is `obj.m`.
pub open spec fn php_member_target(obj: Seq<char>, name: Seq<char>, class: Option<Seq<char>>) -> Seq<char> {
    if obj == "$this"@ {
        php_qualified(class, name)
    } else {
        obj + "."@ + name
    }
}

/// The target of a static call: `self::m` and `static::m` name the class
/// (`self` outside one), `parent::m` stays `parent.m`.
pub open spec fn php_scoped_target(scope: Seq<char>, name: Seq<char>, class: Option<Seq<char>>) -> Seq<char> {
    let s = if scope == "self"@ || scope == "static"@ {
        match class {
            Some(cn) => cn,
            None => "self"@,
        }
    } else if scope == "parent"@ {
        "parent"@
    } else {
        scope
    };
    s + "."@ + name
}

/// The call edge, if any, that node `c` makes itself.
pub open spec fn php_call_edge(t: SyntaxTree, c: int, caller: NodeId, class: Option<Seq<char>>, raws: Seq<RawEdgeView>) -> Seq<
    RawEdgeView,
> {
    let k = t.kind_of(c);
    let line = t.start_rows@[c];
    if k == "function_call_expression"@ {
        match field_child(t, c, "function"@) {
            Some(f) => {
                let target = php_call_of(t.text_of(f));
                if target.len() > 0 {
                    raws.push(php_edge(caller, EdgeKind::Calls, target, line))
                } else {
                    raws
                }
            },
            None => raws,
        }
    } else if k == "member_call_expression"@ {
        match (field_child(t, c, "object"@), field_child(t, c, "name"@)) {
            (Some(o), Some(m)) => raws.push(
                php_edge(caller, EdgeKind::Calls, php_member_target(t.text_of(o), t.text_of(m), class), line),
            ),
            _ => raws,
        }
    } else if k == "scoped_call_expression"@ {
        match (field_child(t, c, "scope"@), field_child(t, c, "name"@)) {
            (Some(s), Some(m)) => raws.push(
                php_edge(caller, EdgeKind::Calls, php_scoped_target(t.text_of(s), t.text_of(m), class), line),
            ),
            _ => raws,
        }
    } else if k == "object_creation_expression"@ {
        match t.first_with_any_kind(t.children_of(c), seq!["name"@, "qualified_name"@]) {
            Some(x) => raws.push(php_edge(caller, EdgeKind::Calls, t.text_of(x) + ".__construct"@, line)),
            None => raws,
        }
    } else {
        raws
    }
}

/// The call edges of the calls below `n`, in document order, appended to `raws`.
pub open spec fn php_calls(
    t: SyntaxTree,
    n: int,
    caller: NodeId,
    class: Option<Seq<char>>,
    raws: Seq<RawEdgeView>,
) -> Seq<RawEdgeView>
    decreases t.size() - n, 1int, 0int,
{
    php_calls_from(t, n, 0, caller, class, raws)
}

pub open spec fn php_calls_from(
    t: SyntaxTree,
    n: int,
    i: int,
    caller: NodeId,
    class: Option<Seq<char>>,
    raws: Seq<RawEdgeView>,
) -> Seq<RawEdgeView>
    decreases t.size() - n, 0int, t.children_of(n).len() - i,
{
    let kids = t.children_of(n);
    if i < 0 || i >= kids.len() || !(n < kids[i] < t.size()) {
        raws
    } else {
        let c = kids[i];
        php_calls_from(t, n, i + 1, caller, class, php_calls(t, c, caller, class, php_call_edge(t, c, caller, class, raws)))
    }
}

pub open spec fn php_walk(
    t: SyntaxTree,
    n: int,
    path: Seq<char>,
    parent: NodeId,
    class: Option<Seq<char>>,
    acc: (Seq<SymbolView>, Seq<RawEdgeView>),
) -> (Seq<SymbolView>, Seq<RawEdgeView>)
    decreases t.size() - n, 2int, 0int,
{
    php_walk_from(t, n, 0, path, parent, class, acc)
}

pub open spec fn php_walk_from(
    t: SyntaxTree,
    n: int,
    i: int,
    path: Seq<char>,
    parent: NodeId,
    class: Option<Seq<char>>,
    acc: (Seq<SymbolView>, Seq<RawEdgeView>),
) -> (Seq<SymbolView>, Seq<RawEdgeView>)
    decreases t.size() - n, 1int, t.children_of(n).len() - i,
{
    let kids = t.children_of(n);
    if i < 0 || i >= kids.len() || !(n < kids[i] < t.size()) {
        acc
    } else {
        php_walk_from(t, n, i + 1, path, parent, class, php_item(t, kids[i], path, parent, class, acc))
    }
}

/// One statement or member: namespaces, `use`, classes, interfaces, traits,
/// enums, functions, methods, properties and constants; any other node has
/// its children walked.
pub open spec fn php_item(
    t: SyntaxTree,
    c: int,
    path: Seq<char>,
    parent: NodeId,
    class: Option<Seq<char>>,
    acc: (Seq<SymbolView>, Seq<RawEdgeView>),
) -> (Seq<SymbolView>, Seq<RawEdgeView>)
    decreases t.size() - c, 4int, 0int,
{
    let k = t.kind_of(c);
    if k == "namespace_definition"@ {
        php_namespace(t, c, path, parent, acc)
    } else if k == "namespace_use_declaration"@ {
        (acc.0, php_use(t, c, parent, acc.1))
    } else if k == "class_declaration"@ {
        php_class(t, c, path, parent, acc)
    } else if k == "interface_declaration"@ {
        php_container(t, c, path, parent, SymbolKind::Interface, "interface "@, seq!["declaration_list"@], acc)
    } else if k == "trait_declaration"@ {
        php_container(t, c, path, parent, SymbolKind::Trait, "trait "@, seq!["declaration_list"@], acc)
    } else if k == "enum_declaration"@ {
        php_container(
            t,
            c,
            path,
            parent,
            SymbolKind::Enum,
            "enum "@,
            seq!["enum_declaration_list"@, "declaration_list"@],
            acc,
        )
    } else if k == "function_definition"@ {
        php_function(t, c, path, parent, None, false, acc)
    } else if k == "method_declaration"@ {
        php_function(t, c, path, parent, class, true, acc)
    } else if k == "property_declaration"@ {
        (php_properties(t, c, t.children_of(c), 0, path, parent, class, acc.0), acc.1)
    } else if k == "const_declaration"@ {
        (php_consts(t, c, t.children_of(c), 0, path, parent, class, acc.0), acc.1)
    } else {
        php_walk(t, c, path, parent, class, acc)
    }
}

/// The symbols and raw edges of a PHP file: its `File` symbol, then the
/// statements of the tree in document order.
pub open spec fn php_extraction(t: SyntaxTree, path: Seq<char>) -> (Seq<SymbolView>, Seq<RawEdgeView>) {
    let f = file_symbol(path, Language::Php, t.source@);
    php_walk(t, 0, path, f.id, None, (seq![f], Seq::<RawEdgeView>::empty()))
}

/// The visibility its modifiers give a member; public when none does.
fn extract_php_visibility(tree: &SyntaxTree, node: usize) -> (r: Visibility)
    requires
        tree.wf(),
        node < tree.size(),
    ensures
        r == php_visibility(*tree, node as int),
{
    let kids = tree.children(node);
    let ghost ks = kids@.map_values(|x: usize| x as int);
    let mut k: usize = 0;
    while k < kids.len()
        invariant
            tree.wf(),
            ks == kids@.map_values(|x: usize| x as int),
            ks == tree.children_of(node as int),
            forall|m: int| 0 <= m < kids@.len() ==> node < #[trigger] kids@[m] < tree.size(),
            php_visibility_from(*tree, ks, k as int) == php_visibility(*tree, node as int),
        decreases kids@.len() - k,
    {
        let c = kids[k];
        proof {
            assert(ks[k as int] == c as int);
        }
        if tree.is_kind(c, "visibility_modifier") || tree.is_kind(c, "modifier") {
            let t = tree.text_chars(c);
            if contains_chars(&t, &chars_of("private")) {
                return Visibility::Private;
            }
            if contains_chars(&t, &chars_of("protected")) {
                return Visibility::Protected;
            }
            if contains_chars(&t, &chars_of("public")) {
                return Visibility::Public;
            }
        }
        k = k + 1;
    }
    Visibility::Public
}

/// A PHP symbol; `with_sig` folds the signature into the identifier.
fn php_symbol(
    tree: &SyntaxTree,
    node: usize,
    rows_node: usize,
    path: &str,
    name: String,
    kind: SymbolKind,
    sig: Option<String>,
    with_sig: bool,
    visibility: Visibility,
    parent_id: NodeId,
) -> (r: SymbolNode)
    requires
        tree.wf(),
        node < tree.size(),
        rows_node < tree.size(),
    ensures
        r@ == php_symbol_at(
            *tree,
            node as int,
            rows_node as int,
            path@,
            name@,
            kind,
            opt_view(sig),
            with_sig,
            visibility,
            parent_id,
        ),
{
    let row = tree.start_row(rows_node);
    let id = match (&sig, with_sig) {
        (Some(s), true) => NodeId::new_with_sig(path, name.as_str(), s.as_str(), kind, row),
        _ => NodeId::new(path, name.as_str(), kind, row),
    };
    SymbolNode {
        id,
        name,
        kind,
        file_path: path.to_string(),
        line_range: rows(tree, rows_node),
        signature: sig,
        doc_comment: preceding_doc_comment(tree, node),
        visibility,
        language: Language::Php,
        parent: Some(parent_id),
    }
}

fn walk_php(
    tree: &SyntaxTree,
    node: usize,
    path: &str,
    parent_id: NodeId,
    class_name: &Option<String>,
    out: &mut ExtractResult,
)
    requires
        walk_ready(tree, node, path@, Language::Php, old(out), parent_id),
    ensures
        walk_kept(old(out), final(out), path@, Language::Php),
        (final(out).syms(), final(out).raws()) == php_walk(
            *tree,
            node as int,
            path@,
            parent_id,
            opt_view(*class_name),
            (old(out).syms(), old(out).raws()),
        ),
    decreases tree.size() - node, 1nat,
{
    let ghost goal = php_walk(*tree, node as int, path@, parent_id, opt_view(*class_name), (out.syms(), out.raws()));
    let kids = tree.children(node);
    let mut k: usize = 0;
    while k < kids.len()
        invariant
            tree.wf(),
            node < tree.size(),
            forall|m: int| 0 <= m < kids@.len() ==> node < #[trigger] kids@[m] < tree.size(),
            kids@.map_values(|x: usize| x as int) == tree.children_of(node as int),
            has_id(old(out).syms(), parent_id),
            walk_kept(old(out), out, path@, Language::Php),
            php_walk_from(
                *tree,
                node as int,
                k as int,
                path@,
                parent_id,
                opt_view(*class_name),
                (out.syms(), out.raws()),
            ) == goal,
        decreases kids@.len() - k,
    {
        let child = kids[k];
        proof {
            assert(tree.children_of(node as int)[k as int] == child as int);
        }
        php_item_exec(tree, child, path, parent_id, class_name, out);
        k = k + 1;
    }
}

fn php_item_exec(
    tree: &SyntaxTree,
    child: usize,
    path: &str,
    parent_id: NodeId,
    class_name: &Option<String>,
    out: &mut ExtractResult,
)
    requires
        walk_ready(tree, child, path@, Language::Php, old(out), parent_id),
    ensures
        walk_kept(old(out), final(out), path@, Language::Php),
        (final(out).syms(), final(out).raws()) == php_item(
            *tree,
            child as int,
            path@,
            parent_id,
            opt_view(*class_name),
            (old(out).syms(), old(out).raws()),
        ),
    decreases tree.size() - child, 3nat,
{
    if tree.is_kind(child, "namespace_definition") {
        extract_php_namespace(tree, child, path, parent_id, out);
    } else if tree.is_kind(child, "namespace_use_declaration") {
        extract_php_use(tree, child, path, parent_id, out);
    } else if tree.is_kind(child, "class_declaration") {
        extract_php_class(tree, child, path, parent_id, out);
    } else if tree.is_kind(child, "interface_declaration") {
        let kinds = ["declaration_list"];
        proof {
            assert(kinds@.map_values(|k: &str| k@) =~= seq!["declaration_list"@]);
        }
        extract_php_container(tree, child, path, parent_id, SymbolKind::Interface, "interface ", &kinds, out);
    } else if tree.is_kind(child, "trait_declaration") {
        let kinds = ["declaration_list"];
        proof {
            assert(kinds@.map_values(|k: &str| k@) =~= seq!["declaration_list"@]);
        }
        extract_php_container(tree, child, path, parent_id, SymbolKind::Trait, "trait ", &kinds, out);
    } else if tree.is_kind(child, "enum_declaration") {
        let kinds = ["enum_declaration_list", "declaration_list"];
        proof {
            assert(kinds@.map_values(|k: &str| k@) =~= seq!["enum_declaration_list"@, "declaration_list"@]);
        }
        extract_php_container(tree, child, path, parent_id, SymbolKind::Enum, "enum ", &kinds, out);
    } else if tree.is_kind(child, "function_definition") {
        extract_php_function(tree, child, path, parent_id, &None, false, out);
    } else if tree.is_kind(child, "method_declaration") {
        extract_php_function(tree, child, path, parent_id, class_name, true, out);
    } else if tree.is_kind(child, "property_declaration") {
        extract_php_property(tree, child, path, parent_id, class_name, out);
    } else if tree.is_kind(child, "const_declaration") {
        extract_php_const(tree, child, path, parent_id, class_name, out);
    } else {
        walk_php(tree, child, path, parent_id, class_name, out);
    }
}

fn extract_php_namespace(tree: &SyntaxTree, node: usize, path: &str, parent_id: NodeId, out: &mut ExtractResult)
    requires
        walk_ready(tree, node, path@, Language::Php, old(out), parent_id),
    ensures
        walk_kept(old(out), final(out), path@, Language::Php),
        (final(out).syms(), final(out).raws()) == php_namespace(
            *tree,
            node as int,
            path@,
            parent_id,
            (old(out).syms(), old(out).raws()),
        ),
    decreases tree.size() - node, 2nat,
{
    let name_node = match tree.child_by_field(node, "name") {
        Some(n) => Some(n),
        None => tree.find_child_by_kind(node, "namespace_name"),
    };
    let name = match name_node {
        Some(n) => tree.text(n),
        None => {
            return;
        },
    };
    let sig = cat2("namespace ", name.as_str());
    let s = php_symbol(
        tree,
        node,
        node,
        path,
        name,
        SymbolKind::Namespace,
        Some(sig),
        false,
        Visibility::Public,
        parent_id,
    );
    let id = s.id;
    out.add_symbol(s, path, Language::Php);
    let kinds = ["compound_statement", "declaration_list"];
    proof {
        assert(kinds@.map_values(|k: &str| k@) =~= seq!["compound_statement"@, "declaration_list"@]);
    }
    let body = match tree.child_by_field(node, "body") {
        Some(b) => b,
        None => match tree.find_child_by_any_kind(node, &kinds) {
            Some(b) => b,
            None => node,
        },
    };
    walk_php(tree, body, path, id, &None, out);
}

fn extract_php_use(tree: &SyntaxTree, node: usize, path: &str, parent_id: NodeId, out: &mut ExtractResult)
    requires
        walk_ready(tree, node, path@, Language::Php, old(out), parent_id),
    ensures
        walk_kept(old(out), final(out), path@, Language::Php),
        final(out).syms() == old(out).syms(),
        final(out).raws() == php_use(*tree, node as int, parent_id, old(out).raws()),
{
    let t = trim_chars(&tree.text_chars(node));
    let a = trim_end_char_chars(&t, ';');
    let b = trim_start_pat_chars(&a, &chars_of("use "));
    let cleaned = trim_chars(&b);
    if cleaned.len() == 0 {
        return;
    }
    let e = make_edge(parent_id, EdgeKind::Imports, string_of(&cleaned), tree.start_row(node));
    out.add_edge(e, Ghost(path@), Ghost(Language::Php));
}

/// Edges of `kind` from `id` to every `name` / `qualified_name` child of `clause`.
fn clause_edges(
    tree: &SyntaxTree,
    clause: usize,
    path: &str,
    id: NodeId,
    kind: EdgeKind,
    out: &mut ExtractResult,
)
    requires
        walk_ready(tree, clause, path@, Language::Php, old(out), id),
    ensures
        walk_kept(old(out), final(out), path@, Language::Php),
        final(out).syms() == old(out).syms(),
        final(out).raws() == php_clause_edges(*tree, tree.children_of(clause as int), 0, id, kind, old(out).raws()),
{
    let kids = tree.children(clause);
    let ghost ks = kids@.map_values(|x: usize| x as int);
    let ghost goal = php_clause_edges(*tree, ks, 0, id, kind, out.raws());
    let mut k: usize = 0;
    while k < kids.len()
        invariant
            tree.wf(),
            ks == kids@.map_values(|x: usize| x as int),
            ks == tree.children_of(clause as int),
            forall|m: int| 0 <= m < kids@.len() ==> clause < #[trigger] kids@[m] < tree.size(),
            has_id(out.syms(), id),
            walk_kept(old(out), out, path@, Language::Php),
            out.syms() == old(out).syms(),
            php_clause_edges(*tree, ks, k as int, id, kind, out.raws()) == goal,
        decreases kids@.len() - k,
    {
        let n = kids[k];
        proof {
            assert(ks[k as int] == n as int);
        }
        if tree.is_kind(n, "name") || tree.is_kind(n, "qualified_name") {
            let e = make_edge(id, kind, tree.text(n), tree.start_row(n));
            out.add_edge(e, Ghost(path@), Ghost(Language::Php));
        }
        k = k + 1;
    }
}

fn extract_php_class(tree: &SyntaxTree, node: usize, path: &str, parent_id: NodeId, out: &mut ExtractResult)
    requires
        walk_ready(tree, node, path@, Language::Php, old(out), parent_id),
    ensures
        walk_kept(old(out), final(out), path@, Language::Php),
        (final(out).syms(), final(out).raws()) == php_class(
            *tree,
            node as int,
            path@,
            parent_id,
            (old(out).syms(), old(out).raws()),
        ),
    decreases tree.size() - node, 2nat,
{
    let name_node = match tree.child_by_field(node, "name") {
        Some(n) => n,
        None => {
            return;
        },
    };
    let name = tree.text(name_node);
    let sig = cat2("class ", name.as_str());
    let s = php_symbol(
        tree,
        node,
        node,
        path,
        name.clone(),
        SymbolKind::Class,
        Some(sig),
        false,
        Visibility::Public,
        parent_id,
    );
    let id = s.id;
    out.add_symbol(s, path, Language::Php);
    let base = match tree.child_by_field(node, "base_clause") {
        Some(b) => Some(b),
        None => tree.find_child_by_kind(node, "base_clause"),
    };
    if let Some(b) = base {
        clause_edges(tree, b, path, id, EdgeKind::Extends, out);
    }
    if let Some(c) = tree.find_child_by_kind(node, "class_interface_clause") {
        clause_edges(tree, c, path, id, EdgeKind::Implements, out);
    }
    let kinds = ["declaration_list", "class_body"];
    proof {
        assert(kinds@.map_values(|k: &str| k@) =~= seq!["declaration_list"@, "class_body"@]);
    }
    let body = match tree.child_by_field(node, "body") {
        Some(b) => Some(b),
        None => tree.find_child_by_any_kind(node, &kinds),
    };
    if let Some(b) = body {
        walk_php(tree, b, path, id, &Some(name), out);
    }
}

/// An interface, trait or enum, whose members are walked with it as the class.
fn extract_php_container(
    tree: &SyntaxTree,
    node: usize,
    path: &str,
    parent_id: NodeId,
    kind: SymbolKind,
    keyword: &str,
    body_kinds: &[&str],
    out: &mut ExtractResult,
)
    requires
        walk_ready(tree, node, path@, Language::Php, old(out), parent_id),
    ensures
        walk_kept(old(out), final(out), path@, Language::Php),
        (final(out).syms(), final(out).raws()) == php_container(
            *tree,
            node as int,
            path@,
            parent_id,
            kind,
            keyword@,
            body_kinds@.map_values(|k: &str| k@),
            (old(out).syms(), old(out).raws()),
        ),
    decreases tree.size() - node, 2nat,
{
    let name_node = match tree.child_by_field(node, "name") {
        Some(n) => n,
        None => {
            return;
        },
    };
    let name = tree.text(name_node);
    let sig = cat2(keyword, name.as_str());
    let s = php_symbol(
        tree,
        node,
        node,
        path,
        name.clone(),
        kind,
        Some(sig),
        false,
        Visibility::Public,
        parent_id,
    );
    let id = s.id;
    out.add_symbol(s, path, Language::Php);
    let body = match tree.child_by_field(node, "body") {
        Some(b) => Some(b),
        None => tree.find_child_by_any_kind(node, body_kinds),
    };
    if let Some(b) = body {
        walk_php(tree, b, path, id, &Some(name), out);
    }
}

/// A function (`is_method` false) or a method of the class `class_name`.
fn extract_php_function(
    tree: &SyntaxTree,
    node: usize,
    path: &str,
    parent_id: NodeId,
    class_name: &Option<String>,
    is_method: bool,
    out: &mut ExtractResult,
)
    requires
        walk_ready(tree, node, path@, Language::Php, old(out), parent_id),
    ensures
        walk_kept(old(out), final(out), path@, Language::Php),
        (final(out).syms(), final(out).raws()) == php_function(
            *tree,
            node as int,
            path@,
            parent_id,
            opt_view(*class_name),
            is_method,
            (old(out).syms(), old(out).raws()),
        ),
{
    let name_node = match tree.child_by_field(node, "name") {
        Some(n) => n,
        None => {
            return;
        },
    };
    let bare = tree.text(name_node);
    let qualified = match class_name {
        Some(cn) => cat3(cn.as_str(), ".", bare.as_str()),
        None => bare.clone(),
    };
    let params = match tree.child_by_field(node, "parameters") {
        Some(p) => tree.text(p),
        None => "()".to_string(),
    };
    let kind = if !is_method {
        SymbolKind::Function
    } else if str_eq(bare.as_str(), "__construct") {
        SymbolKind::Constructor
    } else {
        SymbolKind::Method
    };
    let visibility = if is_method {
        extract_php_visibility(tree, node)
    } else {
        Visibility::Public
    };
    let sig = cat3("function ", bare.as_str(), params.as_str());
    let s = php_symbol(tree, node, node, path, qualified, kind, Some(sig), true, visibility, parent_id);
    let id = s.id;
    out.add_symbol(s, path, Language::Php);
    if let Some(body) = tree.child_by_field(node, "body") {
        extract_php_calls(tree, body, path, id, class_name, out);
    }
}

/// The properties of a property declaration, each qualified with the class.
fn extract_php_property(
    tree: &SyntaxTree,
    node: usize,
    path: &str,
    parent_id: NodeId,
    class_name: &Option<String>,
    out: &mut ExtractResult,
)
    requires
        walk_ready(tree, node, path@, Language::Php, old(out), parent_id),
    ensures
        walk_kept(old(out), final(out), path@, Language::Php),
        final(out).raws() == old(out).raws(),
        final(out).syms() == php_properties(
            *tree,
            node as int,
            tree.children_of(node as int),
            0,
            path@,
            parent_id,
            opt_view(*class_name),
            old(out).syms(),
        ),
{
    let ghost cls = opt_view(*class_name);
    let kids = tree.children(node);
    let ghost ks = kids@.map_values(|x: usize| x as int);
    let ghost goal = php_properties(*tree, node as int, ks, 0, path@, parent_id, cls, out.syms());
    let mut k: usize = 0;
    while k < kids.len()
        invariant
            tree.wf(),
            node < tree.size(),
            ks == kids@.map_values(|x: usize| x as int),
            ks == tree.children_of(node as int),
            forall|m: int| 0 <= m < kids@.len() ==> node < #[trigger] kids@[m] < tree.size(),
            has_id(old(out).syms(), parent_id),
            walk_kept(old(out), out, path@, Language::Php),
            out.raws() == old(out).raws(),
            cls == opt_view(*class_name),
            php_properties(*tree, node as int, ks, k as int, path@, parent_id, cls, out.syms()) == goal,
        decreases kids@.len() - k,
    {
        let c = kids[k];
        proof {
            assert(ks[k as int] == c as int);
        }
        if tree.is_kind(c, "property_element") {
            let inner = tree.children(c);
            let ghost is = inner@.map_values(|x: usize| x as int);
            let ghost sub = php_property_vars(*tree, node as int, c as int, is, 0, path@, parent_id, cls, out.syms());
            let mut j: usize = 0;
            while j < inner.len()
                invariant
                    tree.wf(),
                    node < tree.size(),
                    c < tree.size(),
                    is == inner@.map_values(|x: usize| x as int),
                    forall|m: int| 0 <= m < inner@.len() ==> c < #[trigger] inner@[m] < tree.size(),
                    has_id(old(out).syms(), parent_id),
                    walk_kept(old(out), out, path@, Language::Php),
                    out.raws() == old(out).raws(),
                    cls == opt_view(*class_name),
                    php_property_vars(*tree, node as int, c as int, is, j as int, path@, parent_id, cls, out.syms())
                        == sub,
                decreases inner@.len() - j,
            {
                let v = inner[j];
                proof {
                    assert(is[j as int] == v as int);
                }
                let raw = trim_start_char_chars(&tree.text_chars(v), '$');
                if tree.is_kind(v, "variable_name") && raw.len() > 0 {
                    let raw_s = string_of(&raw);
                    let qualified = match class_name {
                        Some(cn) => cat3(cn.as_str(), ".", raw_s.as_str()),
                        None => raw_s,
                    };
                    let vis = extract_php_visibility(tree, node);
                    let s = php_symbol(
                        tree,
                        node,
                        c,
                        path,
                        qualified,
                        SymbolKind::Property,
                        None,
                        false,
                        vis,
                        parent_id,
                    );
                    out.add_symbol(s, path, Language::Php);
                }
                j = j + 1;
            }
            proof {
                assert(tree.children_of(c as int) == is);
            }
        }
        k = k + 1;
    }
}

/// The constants of a constant declaration, each qualified with the class.
fn extract_php_const(
    tree: &SyntaxTree,
    node: usize,
    path: &str,
    parent_id: NodeId,
    class_name: &Option<String>,
    out: &mut ExtractResult,
)
    requires
        walk_ready(tree, node, path@, Language::Php, old(out), parent_id),
    ensures
        walk_kept(old(out), final(out), path@, Language::Php),
        final(out).raws() == old(out).raws(),
        final(out).syms() == php_consts(
            *tree,
            node as int,
            tree.children_of(node as int),
            0,
            path@,
            parent_id,
            opt_view(*class_name),
            old(out).syms(),
        ),
{
    let ghost cls = opt_view(*class_name);
    let kids = tree.children(node);
    let ghost ks = kids@.map_values(|x: usize| x as int);
    let ghost goal = php_consts(*tree, node as int, ks, 0, path@, parent_id, cls, out.syms());
    let mut k: usize = 0;
    while k < kids.len()
        invariant
            tree.wf(),
            node < tree.size(),
            ks == kids@.map_values(|x: usize| x as int),
            ks == tree.children_of(node as int),
            forall|m: int| 0 <= m < kids@.len() ==> node < #[trigger] kids@[m] < tree.size(),
            has_id(old(out).syms(), parent_id),
            walk_kept(old(out), out, path@, Language::Php),
            out.raws() == old(out).raws(),
            cls == opt_view(*class_name),
            php_consts(*tree, node as int, ks, k as int, path@, parent_id, cls, out.syms()) == goal,
        decreases kids@.len() - k,
    {
        let c = kids[k];
        proof {
            assert(ks[k as int] == c as int);
        }
        if tree.is_kind(c, "const_element") {
            if let Some(v) = tree.find_child_by_kind(c, "name") {
                let raw = tree.text(v);
                let qualified = match class_name {
                    Some(cn) => cat3(cn.as_str(), ".", raw.as_str()),
                    None => raw,
                };
                let vis = extract_php_visibility(tree, node);
                let s = php_symbol(
                    tree,
                    node,
                    c,
                    path,
                    qualified,
                    SymbolKind::Constant,
                    None,
                    false,
                    vis,
                    parent_id,
                );
                out.add_symbol(s, path, Language::Php);
            }
        }
        k = k + 1;
    }
}

/// The call edge, if any, that node `child` makes itself.
fn php_call_edge_exec(
    tree: &SyntaxTree,
    child: usize,
    path: &str,
    caller_id: NodeId,
    class_name: &Option<String>,
    out: &mut ExtractResult,
)
    requires
        walk_ready(tree, child, path@, Language::Php, old(out), caller_id),
    ensures
        walk_kept(old(out), final(out), path@, Language::Php),
        final(out).symbols@ == old(out).symbols@,
        final(out).raws() == php_call_edge(*tree, child as int, caller_id, opt_view(*class_name), old(out).raws()),
{
    let line = tree.start_row(child);
    if tree.is_kind(child, "function_call_expression") {
        if let Some(func) = tree.child_by_field(child, "function") {
            let raw = tree.text(func);
            let cn: Option<&str> = match class_name {
                Some(c) => Some(c.as_str()),
                None => None,
            };
            let target = qualify_php_call(raw.as_str(), cn);
            if chars_of(target.as_str()).len() > 0 {
                let e = make_edge(caller_id, EdgeKind::Calls, target, line);
                out.add_edge(e, Ghost(path@), Ghost(Language::Php));
            }
        }
    } else if tree.is_kind(child, "member_call_expression") {
        let obj = tree.child_by_field(child, "object");
        let nm = tree.child_by_field(child, "name");
        if let (Some(o), Some(n)) = (obj, nm) {
            let obj_txt = tree.text(o);
            let nm_txt = tree.text(n);
            let target = if str_eq(obj_txt.as_str(), "$this") {
                match class_name {
                    Some(cn) => cat3(cn.as_str(), ".", nm_txt.as_str()),
                    None => nm_txt,
                }
            } else {
                cat3(obj_txt.as_str(), ".", nm_txt.as_str())
            };
            let e = make_edge(caller_id, EdgeKind::Calls, target, line);
            out.add_edge(e, Ghost(path@), Ghost(Language::Php));
        }
    } else if tree.is_kind(child, "scoped_call_expression") {
        let sc = tree.child_by_field(child, "scope");
        let nm = tree.child_by_field(child, "name");
        if let (Some(s), Some(n)) = (sc, nm) {
            let sc_txt = tree.text(s);
            let nm_txt = tree.text(n);
            let scope_name = if str_eq(sc_txt.as_str(), "self") || str_eq(sc_txt.as_str(), "static") {
                match class_name {
                    Some(cn) => cn.clone(),
                    None => "self".to_string(),
                }
            } else if str_eq(sc_txt.as_str(), "parent") {
                "parent".to_string()
            } else {
                sc_txt
            };
            let target = cat3(scope_name.as_str(), ".", nm_txt.as_str());
            let e = make_edge(caller_id, EdgeKind::Calls, target, line);
            out.add_edge(e, Ghost(path@), Ghost(Language::Php));
        }
    } else if tree.is_kind(child, "object_creation_expression") {
        let kinds = ["name", "qualified_name"];
        proof {
            assert(kinds@.map_values(|k: &str| k@) =~= seq!["name"@, "qualified_name"@]);
        }
        if let Some(n) = tree.find_child_by_any_kind(child, &kinds) {
            let target = cat2(tree.text(n).as_str(), ".__construct");
            let e = make_edge(caller_id, EdgeKind::Calls, target, line);
            out.add_edge(e, Ghost(path@), Ghost(Language::Php));
        }
    }
}

fn extract_php_calls(
    tree: &SyntaxTree,
    node: usize,
    path: &str,
    caller_id: NodeId,
    class_name: &Option<String>,
    out: &mut ExtractResult,
)
    requires
        walk_ready(tree, node, path@, Language::Php, old(out), caller_id),
    ensures
        walk_kept(old(out), final(out), path@, Language::Php),
        final(out).symbols@ == old(out).symbols@,
        final(out).raws() == php_calls(*tree, node as int, caller_id, opt_view(*class_name), old(out).raws()),
    decreases tree.size() - node,
{
    let ghost cls = opt_view(*class_name);
    let ghost goal = php_calls(*tree, node as int, caller_id, cls, out.raws());
    let kids = tree.children(node);
    let mut k: usize = 0;
    while k < kids.len()
        invariant
            tree.wf(),
            node < tree.size(),
            forall|m: int| 0 <= m < kids@.len() ==> node < #[trigger] kids@[m] < tree.size(),
            kids@.map_values(|x: usize| x as int) == tree.children_of(node as int),
            has_id(old(out).syms(), caller_id),
            walk_kept(old(out), out, path@, Language::Php),
            out.symbols@ == old(out).symbols@,
            cls == opt_view(*class_name),
            php_calls_from(*tree, node as int, k as int, caller_id, cls, out.raws()) == goal,
        decreases kids@.len() - k,
    {
        let child = kids[k];
        proof {
            assert(tree.children_of(node as int)[k as int] == child as int);
        }
        php_call_edge_exec(tree, child, path, caller_id, class_name, out);
        extract_php_calls(tree, child, path, caller_id, class_name, out);
        k = k + 1;
    }
}

impl PhpExtractor {
    pub fn language(&self) -> (r: Language)
        ensures
            r == Language::Php,
    {
        Language::Php
    }

    /// The file extensions read as PHP.
    pub fn file_extensions(&self) -> (r: Vec<&'static str>)
        ensures
            r@.map_values(|s: &str| s@) == seq!["php"@, "phtml"@],
    {
        let mut v: Vec<&'static str> = Vec::new();
        v.push("php");
        v.push("phtml");
        proof {
            assert(v@.map_values(|s: &str| s@) =~= seq!["php"@, "phtml"@]);
        }
        v
    }

    /// Extracts the symbols and raw edges of the PHP file `path` from its tree:
    /// the `File` symbol first, then each statement in document order as
    /// `php_extraction` states.
    pub fn extract(&self, tree: &SyntaxTree, path: &str) -> (r: ExtractResult)
        requires
            tree.wf(),
        ensures
            extraction_of(r, path@, Language::Php, tree.source@),
            (r.syms(), r.raws()) == php_extraction(*tree, path@),
    {
        let mut out = start_extraction(tree, path, Language::Php);
        let file_id = out.symbols[0].id;
        proof {
            assert(out.syms()[0].id == file_id);
            assert(out.raws() =~= Seq::<RawEdgeView>::empty());
        }
        walk_php(tree, 0, path, file_id, &None, &mut out);
        out
    }
}

} // verus!

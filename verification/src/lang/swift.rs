//! Swift: classes, structs, actors and extensions (all `class_declaration` in
//! the grammar), protocols, enums, functions and methods, initializers,
//! properties and top-level constants; imports and calls (`self.m` qualified
//! with the enclosing type).
use vstd::prelude::*;
use crate::text::{
    chars_of, string_of, trim_chars, trim_start_pat_chars, contains_chars, is_alphanumeric,
    alphanumeric_char, cat2, cat3, contains, trim_ws, trim_start_pat,
};
use crate::symbol::{SymbolNode, SymbolView, SymbolKind, Language, Visibility, NodeId, node_id_of, opt_view};
use crate::relation::{EdgeKind, RawEdgeView};
use crate::graph::has_id;
use crate::syntax::SyntaxTree;
use crate::extract::{
    ExtractResult, make_edge, start_extraction, extraction_of, walk_ready, walk_kept, rows,
    qualify_member_call, preceding_doc_comment, field_child, node_rows, file_symbol, doc_comment_of,
    member_call_of,
};

verus! {

/// Extracts Swift symbols.
pub struct SwiftExtractor;

/// The visibility that the modifier children from the `i`-th on give: the
/// first modifier naming `private`, `fileprivate`, `internal`, `public` or
/// `open` decides; `internal` when none does.
pub open spec fn sw_visibility_from(t: SyntaxTree, kids: Seq<int>, i: int) -> Visibility
    decreases kids.len() - i,
{
    if i < 0 || i >= kids.len() {
        Visibility::Internal
    } else {
        let c = kids[i];
        let k = t.kind_of(c);
        if k == "modifiers"@ || k == "modifier"@ || k == "visibility_modifier"@ {
            let x = t.text_of(c);
            if contains(x, "private"@) {
                Visibility::Private
            } else if contains(x, "fileprivate"@) {
                Visibility::Private
            } else if contains(x, "internal"@) {
                Visibility::Internal
            } else if contains(x, "public"@) || contains(x, "open"@) {
                Visibility::Public
            } else {
                sw_visibility_from(t, kids, i + 1)
            }
        } else {
            sw_visibility_from(t, kids, i + 1)
        }
    }
}

pub open spec fn sw_visibility(t: SyntaxTree, n: int) -> Visibility {
    sw_visibility_from(t, t.children_of(n), 0)
}

/// A Swift symbol at node `n` whose identifier folds in its signature.
pub open spec fn sw_symbol_at(
    t: SyntaxTree,
    n: int,
    path: Seq<char>,
    name: Seq<char>,
    kind: SymbolKind,
    sig: Seq<char>,
    parent: NodeId,
) -> SymbolView {
    SymbolView {
        id: node_id_of(path, name + seq!['\u{0}'] + sig, kind, t.start_rows@[n]),
        name: name,
        kind: kind,
        file_path: path,
        line_range: node_rows(t, n),
        signature: Some(sig),
        doc_comment: doc_comment_of(t, n),
        visibility: sw_visibility(t, n),
        language: Language::Swift,
        parent: Some(parent),
    }
}

/// A Swift symbol at node `n` whose identifier is derived from its name.
pub open spec fn sw_plain_at(
    t: SyntaxTree,
    n: int,
    path: Seq<char>,
    name: Seq<char>,
    kind: SymbolKind,
    sig: Option<Seq<char>>,
    parent: NodeId,
) -> SymbolView {
    SymbolView {
        id: node_id_of(path, name, kind, t.start_rows@[n]),
        name: name,
        kind: kind,
        file_path: path,
        line_range: node_rows(t, n),
        signature: sig,
        doc_comment: doc_comment_of(t, n),
        visibility: sw_visibility(t, n),
        language: Language::Swift,
        parent: Some(parent),
    }
}

pub open spec fn sw_edge(source: NodeId, kind: EdgeKind, target: Seq<char>, line: u32) -> RawEdgeView {
    RawEdgeView { source, kind, target_name: target, target_module: None, source_line: line }
}

pub open spec fn is_type_keyword(k: Seq<char>) -> bool {
    k == "class"@ || k == "struct"@ || k == "actor"@ || k == "extension"@
}

/// The first keyword child (`class`, `struct`, `actor`, `extension`) from the `i`-th on.
pub open spec fn sw_keyword_from(t: SyntaxTree, kids: Seq<int>, i: int) -> Option<int>
    decreases kids.len() - i,
{
    if i < 0 || i >= kids.len() {
        None
    } else if is_type_keyword(t.kind_of(kids[i])) {
        Some(kids[i])
    } else {
        sw_keyword_from(t, kids, i + 1)
    }
}

/// The name of a type declaration from the `i`-th child on: the first
/// non-keyword child that is a type with non-blank text (trimmed) or a
/// non-empty simple identifier.
pub open spec fn sw_type_name_from(t: SyntaxTree, kids: Seq<int>, i: int) -> Option<Seq<char>>
    decreases kids.len() - i,
{
    if i < 0 || i >= kids.len() {
        None
    } else {
        let c = kids[i];
        let k = t.kind_of(c);
        if is_type_keyword(k) {
            sw_type_name_from(t, kids, i + 1)
        } else if (k == "user_type"@ || k == "type_identifier"@) && trim_ws(t.text_of(c)).len() > 0 {
            Some(trim_ws(t.text_of(c)))
        } else if k == "simple_identifier"@ && t.text_of(c).len() > 0 {
            Some(t.text_of(c))
        } else {
            sw_type_name_from(t, kids, i + 1)
        }
    }
}

/// The first child of an inheritance specifier that is a type with non-blank text.
pub open spec fn sw_first_type_from(t: SyntaxTree, kids: Seq<int>, j: int) -> Option<int>
    decreases kids.len() - j,
{
    if j < 0 || j >= kids.len() {
        None
    } else {
        let c = kids[j];
        let k = t.kind_of(c);
        if (k == "user_type"@ || k == "type_identifier"@) && trim_ws(t.text_of(c)).len() > 0 {
            Some(c)
        } else {
            sw_first_type_from(t, kids, j + 1)
        }
    }
}

/// `EXTENDS` edges of the inheritance specifiers from the `i`-th child on:
/// one to the first type of each.
pub open spec fn sw_inherits_from(t: SyntaxTree, kids: Seq<int>, i: int, id: NodeId, raws: Seq<RawEdgeView>) -> Seq<
    RawEdgeView,
>
    decreases kids.len() - i,
{
    if i < 0 || i >= kids.len() {
        raws
    } else {
        let c = kids[i];
        let next = if t.kind_of(c) == "inheritance_specifier"@ {
            match sw_first_type_from(t, t.children_of(c), 0) {
                Some(ty) => raws.push(sw_edge(id, EdgeKind::Extends, trim_ws(t.text_of(ty)), t.start_rows@[ty])),
                None => raws,
            }
        } else {
            raws
        };
        sw_inherits_from(t, kids, i + 1, id, next)
    }
}

pub open spec fn type_body_kinds() -> Seq<Seq<char>> {
    seq!["class_body"@, "protocol_body"@, "declaration_block"@, "block"@, "type_body"@]
}

pub open spec fn fn_body_kinds() -> Seq<Seq<char>> {
    seq!["function_body"@, "code_block"@, "block"@, "statements"@]
}

pub open spec fn param_kinds() -> Seq<Seq<char>> {
    seq!["value_parameters"@, "function_value_parameters"@]
}

pub open spec fn ident_kinds() -> Seq<Seq<char>> {
    seq!["simple_identifier"@, "identifier"@]
}

/// The parameter list of a function or initializer, `()` where there is none.
pub open spec fn sw_params(t: SyntaxTree, n: int) -> Seq<char> {
    match t.first_with_any_kind(t.children_of(n), param_kinds()) {
        Some(p) => t.text_of(p),
        None => "()"@,
    }
}

/// A class, struct, actor or extension: its symbol, `EXTENDS` edges, then its
/// body walked with it as the enclosing type.
pub open spec fn sw_type(
    t: SyntaxTree,
    n: int,
    path: Seq<char>,
    parent: NodeId,
    acc: (Seq<SymbolView>, Seq<RawEdgeView>),
) -> (Seq<SymbolView>, Seq<RawEdgeView>)
    decreases t.size() - n, 3int, 0int,
{
    let kids = t.children_of(n);
    match sw_type_name_from(t, kids, 0) {
        None => acc,
        Some(nm) => {
            let (kind, sig) = match sw_keyword_from(t, kids, 0) {
                Some(w) => if t.kind_of(w) == "struct"@ {
                    (SymbolKind::Struct, "struct "@ + nm)
                } else if t.kind_of(w) == "extension"@ {
                    (SymbolKind::Class, "extension "@ + nm)
                } else if t.kind_of(w) == "actor"@ {
                    (SymbolKind::Class, "actor "@ + nm)
                } else {
                    (SymbolKind::Class, "class "@ + nm)
                },
                None => (SymbolKind::Class, "class "@ + nm),
            };
            let s = sw_plain_at(t, n, path, nm, kind, Some(sig), parent);
            let after = (acc.0.push(s), sw_inherits_from(t, kids, 0, s.id, acc.1));
            let body = match field_child(t, n, "body"@) {
                Some(b) => b,
                None => match t.first_with_any_kind(kids, type_body_kinds()) {
                    Some(b) => b,
                    None => n,
                },
            };
            if n <= body < t.size() {
                sw_walk(t, body, path, s.id, Some(nm), after)
            } else {
                after
            }
        },
    }
}

/// The name of a protocol or enum from the `i`-th child on: the first type
/// identifier or simple identifier with non-empty text.
pub open spec fn sw_plain_name_from(t: SyntaxTree, kids: Seq<int>, i: int) -> Option<Seq<char>>
    decreases kids.len() - i,
{
    if i < 0 || i >= kids.len() {
        None
    } else {
        let c = kids[i];
        let k = t.kind_of(c);
        if (k == "type_identifier"@ || k == "simple_identifier"@) && t.text_of(c).len() > 0 {
            Some(t.text_of(c))
        } else {
            sw_plain_name_from(t, kids, i + 1)
        }
    }
}

/// A protocol or an enum: its symbol, then its children walked with it as the
/// enclosing type.
pub open spec fn sw_named(
    t: SyntaxTree,
    n: int,
    path: Seq<char>,
    parent: NodeId,
    kind: SymbolKind,
    keyword: Seq<char>,
    acc: (Seq<SymbolView>, Seq<RawEdgeView>),
) -> (Seq<SymbolView>, Seq<RawEdgeView>)
    decreases t.size() - n, 3int, 0int,
{
    match sw_plain_name_from(t, t.children_of(n), 0) {
        None => acc,
        Some(nm) => {
            let s = sw_plain_at(t, n, path, nm, kind, Some(keyword + nm), parent);
            sw_walk(t, n, path, s.id, Some(nm), (acc.0.push(s), acc.1))
        },
    }
}

/// `Type.name` inside a type, `name` outside.
pub open spec fn sw_qualified(enclosing: Option<Seq<char>>, name: Seq<char>) -> Seq<char> {
    match enclosing {
        Some(ty) => ty + "."@ + name,
        None => name,
    }
}

/// A function or method: its symbol, then the calls of its body.
pub open spec fn sw_function(
    t: SyntaxTree,
    n: int,
    path: Seq<char>,
    parent: NodeId,
    enclosing: Option<Seq<char>>,
    acc: (Seq<SymbolView>, Seq<RawEdgeView>),
) -> (Seq<SymbolView>, Seq<RawEdgeView>) {
    let name_node = match field_child(t, n, "name"@) {
        Some(x) => Some(x),
        None => t.first_with_any_kind(t.children_of(n), ident_kinds()),
    };
    match name_node {
        None => acc,
        Some(nm) => {
            let bare = t.text_of(nm);
            let kind = if enclosing is Some {
                SymbolKind::Method
            } else {
                SymbolKind::Function
            };
            let s = sw_symbol_at(
                t,
                n,
                path,
                sw_qualified(enclosing, bare),
                kind,
                "func "@ + bare + sw_params(t, n),
                parent,
            );
            let body = match field_child(t, n, "body"@) {
                Some(b) => Some(b),
                None => t.first_with_any_kind(t.children_of(n), fn_body_kinds()),
            };
            (
                acc.0.push(s),
                match body {
                    Some(b) => sw_calls(t, b, s.id, enclosing, acc.1),
                    None => acc.1,
                },
            )
        },
    }
}

/// An initializer: `Type.init`, then the calls of its body.
pub open spec fn sw_init(
    t: SyntaxTree,
    n: int,
    path: Seq<char>,
    parent: NodeId,
    enclosing: Option<Seq<char>>,
    acc: (Seq<SymbolView>, Seq<RawEdgeView>),
) -> (Seq<SymbolView>, Seq<RawEdgeView>) {
    let q = match enclosing {
        Some(ty) => ty + ".init"@,
        None => "init"@,
    };
    let s = sw_symbol_at(t, n, path, q, SymbolKind::Constructor, "init"@ + sw_params(t, n), parent);
    (
        acc.0.push(s),
        match t.first_with_any_kind(t.children_of(n), fn_body_kinds()) {
            Some(b) => sw_calls(t, b, s.id, enclosing, acc.1),
            None => acc.1,
        },
    )
}

pub open spec fn ident_char(c: char) -> bool {
    alphanumeric_char(c) || c == '_'
}

/// Where the run of identifier characters from `j` on ends.
pub open spec fn ident_end(s: Seq<char>, j: int) -> int
    decreases s.len() - j,
{
    if 0 <= j < s.len() && ident_char(s[j]) {
        ident_end(s, j + 1)
    } else {
        j
    }
}

/// The leading identifier of a binding (`let x: Int` gives `x`).
pub open spec fn binding_name_of(t: Seq<char>) -> Seq<char> {
    let b = trim_start_pat(trim_start_pat(t, "let "@), "var "@);
    b.subrange(0, ident_end(b, 0))
}

/// The name of a property from the `i`-th child on: the first pattern or
/// identifier whose binding name is non-empty.
pub open spec fn sw_property_name_from(t: SyntaxTree, kids: Seq<int>, i: int) -> Option<Seq<char>>
    decreases kids.len() - i,
{
    if i < 0 || i >= kids.len() {
        None
    } else {
        let c = kids[i];
        let k = t.kind_of(c);
        if (k == "pattern"@ || k == "simple_identifier"@ || k == "identifier"@) && binding_name_of(
            trim_ws(t.text_of(c)),
        ).len() > 0 {
            Some(binding_name_of(trim_ws(t.text_of(c))))
        } else {
            sw_property_name_from(t, kids, i + 1)
        }
    }
}

/// A property inside a type (`Type.name`), a constant outside one.
pub open spec fn sw_property(
    t: SyntaxTree,
    n: int,
    path: Seq<char>,
    parent: NodeId,
    enclosing: Option<Seq<char>>,
    acc: (Seq<SymbolView>, Seq<RawEdgeView>),
) -> (Seq<SymbolView>, Seq<RawEdgeView>) {
    match sw_property_name_from(t, t.children_of(n), 0) {
        None => acc,
        Some(nm) => {
            let kind = if enclosing is Some {
                SymbolKind::Property
            } else {
                SymbolKind::Constant
            };
            (acc.0.push(sw_plain_at(t, n, path, sw_qualified(enclosing, nm), kind, None, parent)), acc.1)
        },
    }
}

/// An import: an `IMPORTS` edge to the module named after `import`, when there is one.
pub open spec fn sw_import(t: SyntaxTree, n: int, parent: NodeId, raws: Seq<RawEdgeView>) -> Seq<RawEdgeView> {
    let text = trim_ws(trim_start_pat(t.text_of(n), "import"@));
    if text.len() == 0 {
        raws
    } else {
        raws.push(sw_edge(parent, EdgeKind::Imports, text, t.start_rows@[n]))
    }
}

pub open spec fn is_arg_kind(k: Seq<char>) -> bool {
    k == "call_suffix"@ || k == "value_arguments"@ || k == "lambda_literal"@
}

/// The first child from the `i`-th on that is not the arguments or trailing closure of a call.
pub open spec fn sw_first_non_arg_from(t: SyntaxTree, kids: Seq<int>, i: int) -> Option<int>
    decreases kids.len() - i,
{
    if i < 0 || i >= kids.len() {
        None
    } else if !is_arg_kind(t.kind_of(kids[i])) {
        Some(kids[i])
    } else {
        sw_first_non_arg_from(t, kids, i + 1)
    }
}

/// The target of a call: the callee's trimmed text, `self.m` qualified with
/// the enclosing type.
pub open spec fn sw_call_target(text: Seq<char>, enclosing: Option<Seq<char>>) -> Seq<char> {
    match enclosing {
        Some(ty) => member_call_of(trim_ws(text), ty),
        None => trim_ws(text),
    }
}

/// The call edges of the calls below `n`, in document order, appended to `raws`.
pub open spec fn sw_calls(
    t: SyntaxTree,
    n: int,
    caller: NodeId,
    enclosing: Option<Seq<char>>,
    raws: Seq<RawEdgeView>,
) -> Seq<RawEdgeView>
    decreases t.size() - n, 1int, 0int,
{
    sw_calls_from(t, n, 0, caller, enclosing, raws)
}

pub open spec fn sw_calls_from(
    t: SyntaxTree,
    n: int,
    i: int,
    caller: NodeId,
    enclosing: Option<Seq<char>>,
    raws: Seq<RawEdgeView>,
) -> Seq<RawEdgeView>
    decreases t.size() - n, 0int, t.children_of(n).len() - i,
{
    let kids = t.children_of(n);
    if i < 0 || i >= kids.len() || !(n < kids[i] < t.size()) {
        raws
    } else {
        let c = kids[i];
        let with_call = if t.kind_of(c) == "call_expression"@ {
            let func = match field_child(t, c, "function"@) {
                Some(f) => Some(f),
                None => sw_first_non_arg_from(t, t.children_of(c), 0),
            };
            match func {
                Some(f) => {
                    let target = sw_call_target(t.text_of(f), enclosing);
                    if target.len() > 0 {
                        raws.push(sw_edge(caller, EdgeKind::Calls, target, t.start_rows@[c]))
                    } else {
                        raws
                    }
                },
                None => raws,
            }
        } else {
            raws
        };
        sw_calls_from(t, n, i + 1, caller, enclosing, sw_calls(t, c, caller, enclosing, with_call))
    }
}

pub open spec fn sw_walk(
    t: SyntaxTree,
    n: int,
    path: Seq<char>,
    parent: NodeId,
    enclosing: Option<Seq<char>>,
    acc: (Seq<SymbolView>, Seq<RawEdgeView>),
) -> (Seq<SymbolView>, Seq<RawEdgeView>)
    decreases t.size() - n, 2int, 0int,
{
    sw_walk_from(t, n, 0, path, parent, enclosing, acc)
}

pub open spec fn sw_walk_from(
    t: SyntaxTree,
    n: int,
    i: int,
    path: Seq<char>,
    parent: NodeId,
    enclosing: Option<Seq<char>>,
    acc: (Seq<SymbolView>, Seq<RawEdgeView>),
) -> (Seq<SymbolView>, Seq<RawEdgeView>)
    decreases t.size() - n, 1int, t.children_of(n).len() - i,
{
    let kids = t.children_of(n);
    if i < 0 || i >= kids.len() || !(n < kids[i] < t.size()) {
        acc
    } else {
        sw_walk_from(t, n, i + 1, path, parent, enclosing, sw_item(t, kids[i], path, parent, enclosing, acc))
    }
}

/// One declaration: imports, types, protocols, enums, functions,
/// initializers and properties; any other node has its children walked.
pub open spec fn sw_item(
    t: SyntaxTree,
    c: int,
    path: Seq<char>,
    parent: NodeId,
    enclosing: Option<Seq<char>>,
    acc: (Seq<SymbolView>, Seq<RawEdgeView>),
) -> (Seq<SymbolView>, Seq<RawEdgeView>)
    decreases t.size() - c, 4int, 0int,
{
    let k = t.kind_of(c);
    if k == "import_declaration"@ {
        (acc.0, sw_import(t, c, parent, acc.1))
    } else if k == "class_declaration"@ {
        sw_type(t, c, path, parent, acc)
    } else if k == "protocol_declaration"@ {
        sw_named(t, c, path, parent, SymbolKind::Interface, "protocol "@, acc)
    } else if k == "enum_declaration"@ {
        sw_named(t, c, path, parent, SymbolKind::Enum, "enum "@, acc)
    } else if k == "function_declaration"@ {
        sw_function(t, c, path, parent, enclosing, acc)
    } else if k == "init_declaration"@ {
        sw_init(t, c, path, parent, enclosing, acc)
    } else if k == "property_declaration"@ {
        sw_property(t, c, path, parent, enclosing, acc)
    } else {
        sw_walk(t, c, path, parent, enclosing, acc)
    }
}

/// The symbols and raw edges of a Swift file: its `File` symbol, then the
/// declarations of the tree in document order.
pub open spec fn swift_extraction(t: SyntaxTree, path: Seq<char>) -> (Seq<SymbolView>, Seq<RawEdgeView>) {
    let f = file_symbol(path, Language::Swift, t.source@);
    sw_walk(t, 0, path, f.id, None, (seq![f], Seq::<RawEdgeView>::empty()))
}

/// The visibility that the modifiers of a declaration give; `internal` when
/// none says otherwise.
fn extract_sw_visibility(tree: &SyntaxTree, node: usize) -> (r: Visibility)
    requires
        tree.wf(),
        node < tree.size(),
    ensures
        r == sw_visibility(*tree, node as int),
{
    let kids = tree.children(node);
    let ghost ks = kids@.map_values(|x: usize| x as int);
    let mut k: usize = 0;
    while k < kids.len()
        invariant
            tree.wf(),
            ks == kids@.map_values(|x: usize| x as int),
            ks == tree.children_of(node as int),
            forall|m: int| 0 <= m < kids@.len() ==> node < #[trigger] kids@[m] < tree.size(),
            sw_visibility_from(*tree, ks, k as int) == sw_visibility(*tree, node as int),
        decreases kids@.len() - k,
    {
        let c = kids[k];
        proof {
            assert(ks[k as int] == c as int);
        }
        if tree.is_kind(c, "modifiers") || tree.is_kind(c, "modifier") || tree.is_kind(
            c,
            "visibility_modifier",
        ) {
            let t = tree.text_chars(c);
            if contains_chars(&t, &chars_of("private")) {
                return Visibility::Private;
            }
            if contains_chars(&t, &chars_of("fileprivate")) {
                return Visibility::Private;
            }
            if contains_chars(&t, &chars_of("internal")) {
                return Visibility::Internal;
            }
            if contains_chars(&t, &chars_of("public")) || contains_chars(&t, &chars_of("open")) {
                return Visibility::Public;
            }
        }
        k = k + 1;
    }
    Visibility::Internal
}

/// A Swift symbol whose identifier also covers its signature.
fn sw_symbol(
    tree: &SyntaxTree,
    node: usize,
    path: &str,
    name: String,
    kind: SymbolKind,
    sig: String,
    parent_id: NodeId,
) -> (r: SymbolNode)
    requires
        tree.wf(),
        node < tree.size(),
    ensures
        r@ == sw_symbol_at(*tree, node as int, path@, name@, kind, sig@, parent_id),
{
    let id = NodeId::new_with_sig(path, name.as_str(), sig.as_str(), kind, tree.start_row(node));
    SymbolNode {
        id,
        name,
        kind,
        file_path: path.to_string(),
        line_range: rows(tree, node),
        signature: Some(sig),
        doc_comment: preceding_doc_comment(tree, node),
        visibility: extract_sw_visibility(tree, node),
        language: Language::Swift,
        parent: Some(parent_id),
    }
}

/// A Swift symbol whose identifier is derived from its name alone.
fn plain_symbol(
    tree: &SyntaxTree,
    node: usize,
    path: &str,
    name: String,
    kind: SymbolKind,
    sig: Option<String>,
    parent_id: NodeId,
) -> (r: SymbolNode)
    requires
        tree.wf(),
        node < tree.size(),
    ensures
        r@ == sw_plain_at(*tree, node as int, path@, name@, kind, opt_view(sig), parent_id),
{
    let id = NodeId::new(path, name.as_str(), kind, tree.start_row(node));
    SymbolNode {
        id,
        name,
        kind,
        file_path: path.to_string(),
        line_range: rows(tree, node),
        signature: sig,
        doc_comment: preceding_doc_comment(tree, node),
        visibility: extract_sw_visibility(tree, node),
        language: Language::Swift,
        parent: Some(parent_id),
    }
}

fn walk_swift(
    tree: &SyntaxTree,
    node: usize,
    path: &str,
    parent_id: NodeId,
    enclosing: &Option<String>,
    out: &mut ExtractResult,
)
    requires
        walk_ready(tree, node, path@, Language::Swift, old(out), parent_id),
    ensures
        walk_kept(old(out), final(out), path@, Language::Swift),
        (final(out).syms(), final(out).raws()) == sw_walk(
            *tree,
            node as int,
            path@,
            parent_id,
            opt_view(*enclosing),
            (old(out).syms(), old(out).raws()),
        ),
    decreases tree.size() - node, 1nat,
{
    let ghost goal = sw_walk(*tree, node as int, path@, parent_id, opt_view(*enclosing), (out.syms(), out.raws()));
    let kids = tree.children(node);
    let mut k: usize = 0;
    while k < kids.len()
        invariant
            tree.wf(),
            node < tree.size(),
            forall|m: int| 0 <= m < kids@.len() ==> node < #[trigger] kids@[m] < tree.size(),
            kids@.map_values(|x: usize| x as int) == tree.children_of(node as int),
            has_id(old(out).syms(), parent_id),
            walk_kept(old(out), out, path@, Language::Swift),
            sw_walk_from(
                *tree,
                node as int,
                k as int,
                path@,
                parent_id,
                opt_view(*enclosing),
                (out.syms(), out.raws()),
            ) == goal,
        decreases kids@.len() - k,
    {
        let child = kids[k];
        proof {
            assert(tree.children_of(node as int)[k as int] == child as int);
        }
        sw_item_exec(tree, child, path, parent_id, enclosing, out);
        k = k + 1;
    }
}

fn sw_item_exec(
    tree: &SyntaxTree,
    child: usize,
    path: &str,
    parent_id: NodeId,
    enclosing: &Option<String>,
    out: &mut ExtractResult,
)
    requires
        walk_ready(tree, child, path@, Language::Swift, old(out), parent_id),
    ensures
        walk_kept(old(out), final(out), path@, Language::Swift),
        (final(out).syms(), final(out).raws()) == sw_item(
            *tree,
            child as int,
            path@,
            parent_id,
            opt_view(*enclosing),
            (old(out).syms(), old(out).raws()),
        ),
    decreases tree.size() - child, 3nat,
{
    if tree.is_kind(child, "import_declaration") {
        extract_sw_import(tree, child, path, parent_id, out);
    } else if tree.is_kind(child, "class_declaration") {
        extract_sw_type(tree, child, path, parent_id, out);
    } else if tree.is_kind(child, "protocol_declaration") {
        extract_sw_named(tree, child, path, parent_id, SymbolKind::Interface, "protocol ", out);
    } else if tree.is_kind(child, "enum_declaration") {
        extract_sw_named(tree, child, path, parent_id, SymbolKind::Enum, "enum ", out);
    } else if tree.is_kind(child, "function_declaration") {
        extract_sw_function(tree, child, path, parent_id, enclosing, out);
    } else if tree.is_kind(child, "init_declaration") {
        extract_sw_init(tree, child, path, parent_id, enclosing, out);
    } else if tree.is_kind(child, "property_declaration") {
        extract_sw_property(tree, child, path, parent_id, enclosing, out);
    } else {
        walk_swift(tree, child, path, parent_id, enclosing, out);
    }
}

/// The first child of `node` whose kind is one of the body kinds of a type.
fn type_body_child(tree: &SyntaxTree, node: usize) -> (r: Option<usize>)
    requires
        tree.wf(),
        node < tree.size(),
    ensures
        r matches Some(c) ==> node < c < tree.size(),
        tree.first_with_any_kind(tree.children_of(node as int), type_body_kinds()) == (match r {
            Some(c) => Some(c as int),
            None => None,
        }),
{
    let kinds = ["class_body", "protocol_body", "declaration_block", "block", "type_body"];
    proof {
        assert(kinds@.map_values(|k: &str| k@) =~= type_body_kinds());
    }
    tree.find_child_by_any_kind(node, &kinds)
}

/// The first child of `node` whose kind is one of the body kinds of a function.
fn fn_body_child(tree: &SyntaxTree, node: usize) -> (r: Option<usize>)
    requires
        tree.wf(),
        node < tree.size(),
    ensures
        r matches Some(c) ==> node < c < tree.size(),
        tree.first_with_any_kind(tree.children_of(node as int), fn_body_kinds()) == (match r {
            Some(c) => Some(c as int),
            None => None,
        }),
{
    let kinds = ["function_body", "code_block", "block", "statements"];
    proof {
        assert(kinds@.map_values(|k: &str| k@) =~= fn_body_kinds());
    }
    tree.find_child_by_any_kind(node, &kinds)
}

/// The parameter list of a function or initializer, `()` where there is none.
fn params_text(tree: &SyntaxTree, node: usize) -> (r: String)
    requires
        tree.wf(),
        node < tree.size(),
    ensures
        r@ == sw_params(*tree, node as int),
{
    let kinds = ["value_parameters", "function_value_parameters"];
    proof {
        assert(kinds@.map_values(|k: &str| k@) =~= param_kinds());
    }
    match tree.find_child_by_any_kind(node, &kinds) {
        Some(p) => tree.text(p),
        None => "()".to_string(),
    }
}

/// A class, struct, actor or extension, told apart by its first keyword child.
fn extract_sw_type(tree: &SyntaxTree, node: usize, path: &str, parent_id: NodeId, out: &mut ExtractResult)
    requires
        walk_ready(tree, node, path@, Language::Swift, old(out), parent_id),
    ensures
        walk_kept(old(out), final(out), path@, Language::Swift),
        (final(out).syms(), final(out).raws()) == sw_type(
            *tree,
            node as int,
            path@,
            parent_id,
            (old(out).syms(), old(out).raws()),
        ),
    decreases tree.size() - node, 2nat,
{
    let kids = tree.children(node);
    let ghost ks = kids@.map_values(|x: usize| x as int);
    let mut keyword: Option<usize> = None;
    let mut name: Option<String> = None;
    let mut k: usize = 0;
    while k < kids.len()
        invariant
            tree.wf(),
            ks == kids@.map_values(|x: usize| x as int),
            ks == tree.children_of(node as int),
            forall|m: int| 0 <= m < kids@.len() ==> node < #[trigger] kids@[m] < tree.size(),
            keyword matches Some(w) ==> w < tree.size(),
            sw_keyword_from(*tree, ks, 0) == (match keyword {
                Some(w) => Some(w as int),
                None => sw_keyword_from(*tree, ks, k as int),
            }),
            sw_type_name_from(*tree, ks, 0) == (match name {
                Some(n) => Some(n@),
                None => sw_type_name_from(*tree, ks, k as int),
            }),
        decreases kids@.len() - k,
    {
        let c = kids[k];
        proof {
            assert(ks[k as int] == c as int);
        }
        if tree.is_kind(c, "class") || tree.is_kind(c, "struct") || tree.is_kind(c, "actor")
            || tree.is_kind(c, "extension") {
            if keyword.is_none() {
                keyword = Some(c);
            }
        } else if (tree.is_kind(c, "user_type") || tree.is_kind(c, "type_identifier"))
            && name.is_none() && trim_chars(&tree.text_chars(c)).len() > 0 {
            name = Some(string_of(&trim_chars(&tree.text_chars(c))));
        } else if tree.is_kind(c, "simple_identifier") && name.is_none() && tree.text_chars(c).len() > 0 {
            name = Some(tree.text(c));
        }
        k = k + 1;
    }
    let nm = match name {
        Some(n) => n,
        None => {
            return;
        },
    };
    let (kind, sig) = match keyword {
        Some(w) => {
            if tree.is_kind(w, "struct") {
                (SymbolKind::Struct, cat2("struct ", nm.as_str()))
            } else if tree.is_kind(w, "extension") {
                (SymbolKind::Class, cat2("extension ", nm.as_str()))
            } else if tree.is_kind(w, "actor") {
                (SymbolKind::Class, cat2("actor ", nm.as_str()))
            } else {
                (SymbolKind::Class, cat2("class ", nm.as_str()))
            }
        },
        None => (SymbolKind::Class, cat2("class ", nm.as_str())),
    };
    let s = plain_symbol(tree, node, path, nm.clone(), kind, Some(sig), parent_id);
    let id = s.id;
    out.add_symbol(s, path, Language::Swift);
    let ghost syms1 = out.syms();
    let ghost raws1 = out.raws();
    let mut k: usize = 0;
    while k < kids.len()
        invariant
            tree.wf(),
            ks == kids@.map_values(|x: usize| x as int),
            forall|m: int| 0 <= m < kids@.len() ==> node < #[trigger] kids@[m] < tree.size(),
            has_id(old(out).syms(), parent_id),
            has_id(out.syms(), id),
            walk_kept(old(out), out, path@, Language::Swift),
            out.syms() == syms1,
            sw_inherits_from(*tree, ks, k as int, id, out.raws()) == sw_inherits_from(*tree, ks, 0, id, raws1),
        decreases kids@.len() - k,
    {
        let ic = kids[k];
        proof {
            assert(ks[k as int] == ic as int);
        }
        if tree.is_kind(ic, "inheritance_specifier") {
            let inner = tree.children(ic);
            let ghost is = inner@.map_values(|x: usize| x as int);
            let mut j: usize = 0;
            let mut found: Option<usize> = None;
            while j < inner.len() && found.is_none()
                invariant
                    tree.wf(),
                    is == inner@.map_values(|x: usize| x as int),
                    forall|m: int| 0 <= m < inner@.len() ==> ic < #[trigger] inner@[m] < tree.size(),
                    found matches Some(f) ==> f < tree.size(),
                    sw_first_type_from(*tree, is, 0) == (match found {
                        Some(f) => Some(f as int),
                        None => sw_first_type_from(*tree, is, j as int),
                    }),
                decreases inner@.len() - j,
            {
                let c = inner[j];
                proof {
                    assert(is[j as int] == c as int);
                }
                if (tree.is_kind(c, "user_type") || tree.is_kind(c, "type_identifier")) && trim_chars(
                    &tree.text_chars(c),
                ).len() > 0 {
                    found = Some(c);
                }
                j = j + 1;
            }
            proof {
                assert(tree.children_of(ic as int) == is);
            }
            if let Some(c) = found {
                let t = trim_chars(&tree.text_chars(c));
                let e = make_edge(id, EdgeKind::Extends, string_of(&t), tree.start_row(c));
                out.add_edge(e, Ghost(path@), Ghost(Language::Swift));
            }
        }
        k = k + 1;
    }
    let body = match tree.child_by_field(node, "body") {
        Some(b) => b,
        None => match type_body_child(tree, node) {
            Some(b) => b,
            None => node,
        },
    };
    let enclosing = Some(nm);
    walk_swift(tree, body, path, id, &enclosing, out);
}

/// A protocol or an enum: named by its first identifier, members walked with
/// it as the enclosing type.
fn extract_sw_named(
    tree: &SyntaxTree,
    node: usize,
    path: &str,
    parent_id: NodeId,
    kind: SymbolKind,
    keyword: &str,
    out: &mut ExtractResult,
)
    requires
        walk_ready(tree, node, path@, Language::Swift, old(out), parent_id),
    ensures
        walk_kept(old(out), final(out), path@, Language::Swift),
        (final(out).syms(), final(out).raws()) == sw_named(
            *tree,
            node as int,
            path@,
            parent_id,
            kind,
            keyword@,
            (old(out).syms(), old(out).raws()),
        ),
    decreases tree.size() - node, 2nat,
{
    let kids = tree.children(node);
    let ghost ks = kids@.map_values(|x: usize| x as int);
    let mut name: Option<String> = None;
    let mut k: usize = 0;
    while k < kids.len() && name.is_none()
        invariant
            tree.wf(),
            ks == kids@.map_values(|x: usize| x as int),
            ks == tree.children_of(node as int),
            forall|m: int| 0 <= m < kids@.len() ==> node < #[trigger] kids@[m] < tree.size(),
            sw_plain_name_from(*tree, ks, 0) == (match name {
                Some(n) => Some(n@),
                None => sw_plain_name_from(*tree, ks, k as int),
            }),
        decreases kids@.len() - k,
    {
        let c = kids[k];
        proof {
            assert(ks[k as int] == c as int);
        }
        if (tree.is_kind(c, "type_identifier") || tree.is_kind(c, "simple_identifier"))
            && tree.text_chars(c).len() > 0 {
            name = Some(tree.text(c));
        }
        k = k + 1;
    }
    let nm = match name {
        Some(n) => n,
        None => {
            return;
        },
    };
    let sig = cat2(keyword, nm.as_str());
    let s = plain_symbol(tree, node, path, nm.clone(), kind, Some(sig), parent_id);
    let id = s.id;
    out.add_symbol(s, path, Language::Swift);
    let enclosing = Some(nm);
    walk_swift(tree, node, path, id, &enclosing, out);
}

fn extract_sw_function(
    tree: &SyntaxTree,
    node: usize,
    path: &str,
    parent_id: NodeId,
    enclosing: &Option<String>,
    out: &mut ExtractResult,
)
    requires
        walk_ready(tree, node, path@, Language::Swift, old(out), parent_id),
    ensures
        walk_kept(old(out), final(out), path@, Language::Swift),
        (final(out).syms(), final(out).raws()) == sw_function(
            *tree,
            node as int,
            path@,
            parent_id,
            opt_view(*enclosing),
            (old(out).syms(), old(out).raws()),
        ),
{
    let idents = ["simple_identifier", "identifier"];
    proof {
        assert(idents@.map_values(|k: &str| k@) =~= ident_kinds());
    }
    let name_node = match tree.child_by_field(node, "name") {
        Some(n) => Some(n),
        None => tree.find_child_by_any_kind(node, &idents),
    };
    let name_node = match name_node {
        Some(n) => n,
        None => {
            return;
        },
    };
    let bare = tree.text(name_node);
    let qualified = match enclosing {
        Some(ty) => cat3(ty.as_str(), ".", bare.as_str()),
        None => bare.clone(),
    };
    let params = params_text(tree, node);
    let sig = cat3("func ", bare.as_str(), params.as_str());
    let kind = if enclosing.is_some() {
        SymbolKind::Method
    } else {
        SymbolKind::Function
    };
    let s = sw_symbol(tree, node, path, qualified, kind, sig, parent_id);
    let id = s.id;
    out.add_symbol(s, path, Language::Swift);
    let body = match tree.child_by_field(node, "body") {
        Some(b) => Some(b),
        None => fn_body_child(tree, node),
    };
    if let Some(b) = body {
        extract_sw_calls(tree, b, path, id, enclosing, out);
    }
}

fn extract_sw_init(
    tree: &SyntaxTree,
    node: usize,
    path: &str,
    parent_id: NodeId,
    enclosing: &Option<String>,
    out: &mut ExtractResult,
)
    requires
        walk_ready(tree, node, path@, Language::Swift, old(out), parent_id),
    ensures
        walk_kept(old(out), final(out), path@, Language::Swift),
        (final(out).syms(), final(out).raws()) == sw_init(
            *tree,
            node as int,
            path@,
            parent_id,
            opt_view(*enclosing),
            (old(out).syms(), old(out).raws()),
        ),
{
    let qualified = match enclosing {
        Some(ty) => cat2(ty.as_str(), ".init"),
        None => "init".to_string(),
    };
    let params = params_text(tree, node);
    let sig = cat2("init", params.as_str());
    let s = sw_symbol(tree, node, path, qualified, SymbolKind::Constructor, sig, parent_id);
    let id = s.id;
    out.add_symbol(s, path, Language::Swift);
    if let Some(b) = fn_body_child(tree, node) {
        extract_sw_calls(tree, b, path, id, enclosing, out);
    }
}

/// The leading identifier of a binding (`let x: Int` gives `x`).
fn binding_name(t: &[char]) -> (r: Vec<char>)
    ensures
        r@ == binding_name_of(t@),
{
    let a = trim_start_pat_chars(t, &chars_of("let "));
    let b = trim_start_pat_chars(&a, &chars_of("var "));
    let mut j: usize = 0;
    while j < b.len() && (is_alphanumeric(b[j]) || b[j] == '_')
        invariant
            j <= b@.len(),
            ident_end(b@, j as int) == ident_end(b@, 0),
        decreases b@.len() - j,
    {
        j = j + 1;
    }
    crate::text::slice_range(&b, 0, j)
}

fn extract_sw_property(
    tree: &SyntaxTree,
    node: usize,
    path: &str,
    parent_id: NodeId,
    enclosing: &Option<String>,
    out: &mut ExtractResult,
)
    requires
        walk_ready(tree, node, path@, Language::Swift, old(out), parent_id),
    ensures
        walk_kept(old(out), final(out), path@, Language::Swift),
        (final(out).syms(), final(out).raws()) == sw_property(
            *tree,
            node as int,
            path@,
            parent_id,
            opt_view(*enclosing),
            (old(out).syms(), old(out).raws()),
        ),
{
    let kids = tree.children(node);
    let ghost ks = kids@.map_values(|x: usize| x as int);
    let mut name: Option<String> = None;
    let mut k: usize = 0;
    while k < kids.len() && name.is_none()
        invariant
            tree.wf(),
            ks == kids@.map_values(|x: usize| x as int),
            ks == tree.children_of(node as int),
            forall|m: int| 0 <= m < kids@.len() ==> node < #[trigger] kids@[m] < tree.size(),
            sw_property_name_from(*tree, ks, 0) == (match name {
                Some(n) => Some(n@),
                None => sw_property_name_from(*tree, ks, k as int),
            }),
        decreases kids@.len() - k,
    {
        let c = kids[k];
        proof {
            assert(ks[k as int] == c as int);
        }
        if tree.is_kind(c, "pattern") || tree.is_kind(c, "simple_identifier") || tree.is_kind(
            c,
            "identifier",
        ) {
            let t = trim_chars(&tree.text_chars(c));
            let cleaned = binding_name(&t);
            if cleaned.len() > 0 {
                name = Some(string_of(&cleaned));
            }
        }
        k = k + 1;
    }
    let nm = match name {
        Some(n) => n,
        None => {
            return;
        },
    };
    let (qualified, kind) = match enclosing {
        Some(ty) => (cat3(ty.as_str(), ".", nm.as_str()), SymbolKind::Property),
        None => (nm, SymbolKind::Constant),
    };
    let s = plain_symbol(tree, node, path, qualified, kind, None, parent_id);
    out.add_symbol(s, path, Language::Swift);
}

fn extract_sw_import(tree: &SyntaxTree, node: usize, path: &str, parent_id: NodeId, out: &mut ExtractResult)
    requires
        walk_ready(tree, node, path@, Language::Swift, old(out), parent_id),
    ensures
        walk_kept(old(out), final(out), path@, Language::Swift),
        final(out).syms() == old(out).syms(),
        final(out).raws() == sw_import(*tree, node as int, parent_id, old(out).raws()),
{
    let t = tree.text_chars(node);
    let a = trim_start_pat_chars(&t, &chars_of("import"));
    let text = trim_chars(&a);
    if text.len() == 0 {
        return;
    }
    let e = make_edge(parent_id, EdgeKind::Imports, string_of(&text), tree.start_row(node));
    out.add_edge(e, Ghost(path@), Ghost(Language::Swift));
}

/// The first child of a call that is not its arguments or trailing closure.
fn first_non_arg_child(tree: &SyntaxTree, node: usize) -> (r: Option<usize>)
    requires
        tree.wf(),
        node < tree.size(),
    ensures
        r matches Some(c) ==> node < c < tree.size(),
        sw_first_non_arg_from(*tree, tree.children_of(node as int), 0) == (match r {
            Some(c) => Some(c as int),
            None => None,
        }),
{
    let kids = tree.children(node);
    let ghost ks = kids@.map_values(|x: usize| x as int);
    let mut k: usize = 0;
    while k < kids.len()
        invariant
            tree.wf(),
            ks == kids@.map_values(|x: usize| x as int),
            ks == tree.children_of(node as int),
            forall|m: int| 0 <= m < kids@.len() ==> node < #[trigger] kids@[m] < tree.size(),
            sw_first_non_arg_from(*tree, ks, 0) == sw_first_non_arg_from(*tree, ks, k as int),
        decreases kids@.len() - k,
    {
        let c = kids[k];
        proof {
            assert(ks[k as int] == c as int);
        }
        if !(tree.is_kind(c, "call_suffix") || tree.is_kind(c, "value_arguments") || tree.is_kind(
            c,
            "lambda_literal",
        )) {
            return Some(c);
        }
        k = k + 1;
    }
    None
}

fn extract_sw_calls(
    tree: &SyntaxTree,
    node: usize,
    path: &str,
    caller_id: NodeId,
    enclosing: &Option<String>,
    out: &mut ExtractResult,
)
    requires
        walk_ready(tree, node, path@, Language::Swift, old(out), caller_id),
    ensures
        walk_kept(old(out), final(out), path@, Language::Swift),
        final(out).symbols@ == old(out).symbols@,
        final(out).raws() == sw_calls(*tree, node as int, caller_id, opt_view(*enclosing), old(out).raws()),
    decreases tree.size() - node,
{
    let ghost enc = opt_view(*enclosing);
    let ghost goal = sw_calls(*tree, node as int, caller_id, enc, out.raws());
    let kids = tree.children(node);
    let mut k: usize = 0;
    while k < kids.len()
        invariant
            tree.wf(),
            node < tree.size(),
            forall|m: int| 0 <= m < kids@.len() ==> node < #[trigger] kids@[m] < tree.size(),
            kids@.map_values(|x: usize| x as int) == tree.children_of(node as int),
            has_id(old(out).syms(), caller_id),
            walk_kept(old(out), out, path@, Language::Swift),
            out.symbols@ == old(out).symbols@,
            enc == opt_view(*enclosing),
            sw_calls_from(*tree, node as int, k as int, caller_id, enc, out.raws()) == goal,
        decreases kids@.len() - k,
    {
        let child = kids[k];
        proof {
            assert(tree.children_of(node as int)[k as int] == child as int);
        }
        if tree.is_kind(child, "call_expression") {
            let func = match tree.child_by_field(child, "function") {
                Some(f) => Some(f),
                None => first_non_arg_child(tree, child),
            };
            if let Some(f) = func {
                let raw = string_of(&trim_chars(&tree.text_chars(f)));
                let target = match enclosing {
                    Some(ty) => qualify_member_call(raw.as_str(), ty.as_str()),
                    None => raw,
                };
                if chars_of(target.as_str()).len() > 0 {
                    let e = make_edge(caller_id, EdgeKind::Calls, target, tree.start_row(child));
                    out.add_edge(e, Ghost(path@), Ghost(Language::Swift));
                }
            }
        }
        extract_sw_calls(tree, child, path, caller_id, enclosing, out);
        k = k + 1;
    }
}

impl SwiftExtractor {
    pub fn language(&self) -> (r: Language)
        ensures
            r == Language::Swift,
    {
        Language::Swift
    }

    /// The file extensions read as Swift.
    pub fn file_extensions(&self) -> (r: Vec<&'static str>)
        ensures
            r@.len() == 1,
            r@[0]@ == "swift"@,
    {
        let mut v: Vec<&'static str> = Vec::new();
        v.push("swift");
        v
    }

    /// Extracts the symbols and raw edges of the Swift file `path` from its
    /// tree: the `File` symbol first, then each declaration in document order
    /// as `swift_extraction` states.
    pub fn extract(&self, tree: &SyntaxTree, path: &str) -> (r: ExtractResult)
        requires
            tree.wf(),
        ensures
            extraction_of(r, path@, Language::Swift, tree.source@),
            (r.syms(), r.raws()) == swift_extraction(*tree, path@),
    {
        let mut out = start_extraction(tree, path, Language::Swift);
        let file_id = out.symbols[0].id;
        proof {
            assert(out.syms()[0].id == file_id);
            assert(out.syms() =~= seq![file_symbol(path@, Language::Swift, tree.source@)]);
            assert(out.raws() =~= Seq::<RawEdgeView>::empty());
        }
        walk_swift(tree, 0, path, file_id, &None, &mut out);
        out
    }
}

} // verus!

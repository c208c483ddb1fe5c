//! Go: packages, imports, functions, methods (qualified with their receiver
//! type), structs with their fields, interfaces with their methods, type
//! aliases and constants; calls inside function bodies.
use vstd::prelude::*;
use crate::text::{
    chars_of, string_of, slice_range, find, find_chars, has_char, is_lowercase, is_uppercase,
    lowercase_char, uppercase_char, byte_len, utf8_longer_than, cat2, cat3, cat4, cat5,
    trim_start_char_chars, trim_end_char_chars, before_first_chars, trim_chars, trim_start_char,
    trim_end_char, trim_ws, before_first,
};
use crate::symbol::{SymbolKind, SymbolView, Language, Visibility, NodeId, opt_view};
use crate::relation::{EdgeKind, RawEdgeView};
use crate::graph::has_id;
use crate::syntax::SyntaxTree;
use crate::extract::{
    walk_ready, walk_kept, rows, ExtractResult, make_symbol, make_edge, start_extraction, extraction_of, keeps_ids,
    symbol_at, field_child, node_rows, file_symbol,
};

verus! {

/// Extracts Go symbols.
pub struct GoExtractor;

/// In Go, exported names start with an upper-case letter.
pub open spec fn go_visibility_of(name: Seq<char>) -> Visibility {
    if name.len() > 0 && uppercase_char(name[0]) {
        Visibility::Public
    } else {
        Visibility::Private
    }
}

/// Public for a name that starts with an upper-case letter, else private.
pub fn go_visibility(name: &str) -> (r: Visibility)
    ensures
        r == go_visibility_of(name@),
{
    let v = chars_of(name);
    if v.len() > 0 && is_uppercase(v[0]) {
        Visibility::Public
    } else {
        Visibility::Private
    }
}

/// Every character is lower-case.
pub open spec fn all_lowercase(s: Seq<char>) -> bool {
    forall|i: int| 0 <= i < s.len() ==> lowercase_char(#[trigger] s[i])
}

/// `v.Method` with a receiver-like operand `v` (at most two bytes, all
/// lower-case) and a single-level method becomes `Recv.Method`; anything else
/// stays as it is.
pub open spec fn go_self_call_of(target: Seq<char>, recv_type: Seq<char>) -> Seq<char> {
    let dot = find(target, seq!['.']);
    if dot < 0 || dot >= target.len() {
        target
    } else {
        let operand = target.subrange(0, dot);
        let method = target.subrange(dot + 1, target.len() as int);
        if method.contains('.') {
            target
        } else if byte_len(operand) <= 2 && all_lowercase(operand) {
            recv_type + seq!['.'] + method
        } else {
            target
        }
    }
}

/// Qualifies a call through a receiver variable: `s.Save` in a method of
/// `Store` becomes `Store.Save`; package calls such as `fmt.Sprintf`, bare
/// functions and chains are left as they are.
pub fn qualify_go_self_call(target: &str, recv_type: &str) -> (r: String)
    ensures
        r@ == go_self_call_of(target@, recv_type@),
{
    let t = chars_of(target);
    let dot_pat = vec!['.'];
    proof {
        assert(dot_pat@ =~= seq!['.']);
    }
    let dot = match find_chars(&t, &dot_pat) {
        Some(d) => d,
        None => {
            return target.to_string();
        },
    };
    if dot >= t.len() {
        return target.to_string();
    }
    let operand = slice_range(&t, 0, dot);
    let method = slice_range(&t, dot + 1, t.len());
    if has_char(&method, '.') {
        return target.to_string();
    }
    let mut lower = true;
    let mut i: usize = 0;
    while i < operand.len()
        invariant
            i <= operand@.len(),
            lower == (forall|j: int| 0 <= j < i ==> lowercase_char(#[trigger] operand@[j])),
        decreases operand@.len() - i,
    {
        if !is_lowercase(operand[i]) {
            lower = false;
        }
        i = i + 1;
    }
    if !utf8_longer_than(&operand, 2) && lower {
        let mut out = chars_of(recv_type);
        out.push('.');
        crate::text::append_chars(&mut out, &method);
        string_of(&out)
    } else {
        target.to_string()
    }
}

pub open spec fn go_edge(source: NodeId, kind: EdgeKind, target: Seq<char>, line: u32) -> RawEdgeView {
    RawEdgeView { source, kind, target_name: target, target_module: None, source_line: line }
}

/// A Go symbol at node `n`, exported when its bare name is.
pub open spec fn go_symbol_at(
    t: SyntaxTree,
    n: int,
    path: Seq<char>,
    name: Seq<char>,
    bare: Seq<char>,
    kind: SymbolKind,
    sig: Option<Seq<char>>,
    parent: NodeId,
) -> SymbolView {
    symbol_at(path, name, kind, node_rows(t, n), sig, go_visibility_of(bare), Language::Go, Some(parent))
}

/// A package clause: a `Module` symbol named by its package identifier.
pub open spec fn go_package(t: SyntaxTree, n: int, path: Seq<char>, parent: NodeId, syms: Seq<SymbolView>) -> Seq<
    SymbolView,
> {
    match t.first_with_kind(t.children_of(n), "package_identifier"@) {
        Some(p) => {
            let name = t.text_of(p);
            syms.push(
                symbol_at(
                    path,
                    name,
                    SymbolKind::Module,
                    node_rows(t, n),
                    Some("package "@ + name),
                    Visibility::Public,
                    Language::Go,
                    Some(parent),
                ),
            )
        },
        None => syms,
    }
}

/// The path of an import spec without its quotes or backticks.
pub open spec fn go_import_path(raw: Seq<char>) -> Seq<char> {
    trim_end_char(trim_start_char(trim_end_char(trim_start_char(raw, '"'), '"'), '`'), '`')
}

/// One import spec: an `Import` symbol and an `IMPORTS` edge.
pub open spec fn go_import_spec(
    t: SyntaxTree,
    n: int,
    path: Seq<char>,
    parent: NodeId,
    acc: (Seq<SymbolView>, Seq<RawEdgeView>),
) -> (Seq<SymbolView>, Seq<RawEdgeView>) {
    match field_child(t, n, "path"@) {
        None => acc,
        Some(p) => {
            let ip = go_import_path(t.text_of(p));
            (
                acc.0.push(
                    symbol_at(
                        path,
                        ip,
                        SymbolKind::Import,
                        node_rows(t, n),
                        Some("import \""@ + ip + "\""@),
                        Visibility::Public,
                        Language::Go,
                        Some(parent),
                    ),
                ),
                acc.1.push(go_edge(parent, EdgeKind::Imports, ip, t.start_rows@[n])),
            )
        },
    }
}

/// The import specs of a list, from the `j`-th child on.
pub open spec fn go_spec_list(
    t: SyntaxTree,
    specs: Seq<int>,
    j: int,
    path: Seq<char>,
    parent: NodeId,
    acc: (Seq<SymbolView>, Seq<RawEdgeView>),
) -> (Seq<SymbolView>, Seq<RawEdgeView>)
    decreases specs.len() - j,
{
    if j < 0 || j >= specs.len() {
        acc
    } else {
        let s = specs[j];
        let next = if t.kind_of(s) == "import_spec"@ {
            go_import_spec(t, s, path, parent, acc)
        } else {
            acc
        };
        go_spec_list(t, specs, j + 1, path, parent, next)
    }
}

/// An import declaration, from its `i`-th child on: single specs and spec lists.
pub open spec fn go_imports(
    t: SyntaxTree,
    kids: Seq<int>,
    i: int,
    path: Seq<char>,
    parent: NodeId,
    acc: (Seq<SymbolView>, Seq<RawEdgeView>),
) -> (Seq<SymbolView>, Seq<RawEdgeView>)
    decreases kids.len() - i,
{
    if i < 0 || i >= kids.len() {
        acc
    } else {
        let c = kids[i];
        let next = if t.kind_of(c) == "import_spec"@ {
            go_import_spec(t, c, path, parent, acc)
        } else if t.kind_of(c) == "import_spec_list"@ {
            go_spec_list(t, t.children_of(c), 0, path, parent, acc)
        } else {
            acc
        };
        go_imports(t, kids, i + 1, path, parent, next)
    }
}

/// The receiver type written in a type: without a leading `*` and `(`, a
/// trailing `)`, and type parameters.
pub open spec fn go_receiver_text(raw: Seq<char>) -> Seq<char> {
    trim_ws(before_first(trim_end_char(trim_start_char(trim_start_char(raw, '*'), '('), ')'), seq!['[']))
}

/// The receiver type of the first parameter declaration from the `i`-th on
/// (none when that declaration has no type).
pub open spec fn go_receiver_from(t: SyntaxTree, kids: Seq<int>, i: int) -> Option<Seq<char>>
    decreases kids.len() - i,
{
    if i < 0 || i >= kids.len() {
        None
    } else if t.kind_of(kids[i]) == "parameter_declaration"@ {
        match field_child(t, kids[i], "type"@) {
            Some(ty) => Some(go_receiver_text(t.text_of(ty))),
            None => None,
        }
    } else {
        go_receiver_from(t, kids, i + 1)
    }
}

/// The receiver type of a method declaration.
pub open spec fn go_receiver(t: SyntaxTree, n: int) -> Option<Seq<char>> {
    match field_child(t, n, "receiver"@) {
        Some(r) => go_receiver_from(t, t.children_of(r), 0),
        None => None,
    }
}

/// The text of field child `f` of `n` after `prefix`, or nothing where there is none.
pub open spec fn go_suffix(t: SyntaxTree, n: int, f: Seq<char>, prefix: Seq<char>) -> Seq<char> {
    match field_child(t, n, f) {
        Some(c) => prefix + t.text_of(c),
        None => seq![],
    }
}

/// The parameter list of `n`, `()` where there is none.
pub open spec fn go_params(t: SyntaxTree, n: int) -> Seq<char> {
    match field_child(t, n, "parameters"@) {
        Some(p) => t.text_of(p),
        None => "()"@,
    }
}

/// A function, or a method of `recv` (`Recv.name`): its symbol, then the
/// calls of its body.
pub open spec fn go_function(
    t: SyntaxTree,
    n: int,
    path: Seq<char>,
    parent: NodeId,
    recv: Option<Seq<char>>,
    acc: (Seq<SymbolView>, Seq<RawEdgeView>),
) -> (Seq<SymbolView>, Seq<RawEdgeView>) {
    match field_child(t, n, "name"@) {
        None => acc,
        Some(nm) => {
            let name = t.text_of(nm);
            let (kind, q, rsig) = match recv {
                Some(r) => (SymbolKind::Method, r + "."@ + name, "("@ + r + ") "@),
                None => (SymbolKind::Function, name, seq![]),
            };
            let s = go_symbol_at(
                t,
                n,
                path,
                q,
                name,
                kind,
                Some("func "@ + rsig + name + go_params(t, n) + go_suffix(t, n, "result"@, " "@)),
                parent,
            );
            (
                acc.0.push(s),
                match field_child(t, n, "body"@) {
                    Some(b) => go_calls(t, b, s.id, recv, acc.1),
                    None => acc.1,
                },
            )
        },
    }
}

/// The type a field's type names, when it starts with an upper-case letter:
/// without a leading `*` and `[`.
pub open spec fn go_field_ref(ty: Seq<char>) -> Option<Seq<char>> {
    let bare = trim_ws(trim_start_char(trim_start_char(ty, '*'), '['));
    if bare.len() > 0 && uppercase_char(bare[0]) {
        Some(bare)
    } else {
        None
    }
}

/// The fields named in the `j`-th part on of field declaration `c` of struct `sname`.
pub open spec fn go_field_parts(
    t: SyntaxTree,
    c: int,
    parts: Seq<int>,
    j: int,
    path: Seq<char>,
    parent: NodeId,
    sname: Seq<char>,
    acc: (Seq<SymbolView>, Seq<RawEdgeView>),
) -> (Seq<SymbolView>, Seq<RawEdgeView>)
    decreases parts.len() - j,
{
    if j < 0 || j >= parts.len() {
        acc
    } else {
        let p = parts[j];
        let next = if t.kind_of(p) == "field_identifier"@ {
            let fname = t.text_of(p);
            let ty = match field_child(t, c, "type"@) {
                Some(x) => Some(t.text_of(x)),
                None => None,
            };
            let s = go_symbol_at(
                t,
                c,
                path,
                sname + "."@ + fname,
                fname,
                SymbolKind::Field,
                match ty {
                    Some(x) => Some(fname + " "@ + x),
                    None => None,
                },
                parent,
            );
            (
                acc.0.push(s),
                match ty {
                    Some(x) => match go_field_ref(x) {
                        Some(r) => acc.1.push(go_edge(s.id, EdgeKind::References, r, t.start_rows@[c])),
                        None => acc.1,
                    },
                    None => acc.1,
                },
            )
        } else {
            acc
        };
        go_field_parts(t, c, parts, j + 1, path, parent, sname, next)
    }
}

/// The fields of the field declarations from the `i`-th on.
pub open spec fn go_fields(
    t: SyntaxTree,
    kids: Seq<int>,
    i: int,
    path: Seq<char>,
    parent: NodeId,
    sname: Seq<char>,
    acc: (Seq<SymbolView>, Seq<RawEdgeView>),
) -> (Seq<SymbolView>, Seq<RawEdgeView>)
    decreases kids.len() - i,
{
    if i < 0 || i >= kids.len() {
        acc
    } else {
        let c = kids[i];
        let next = if t.kind_of(c) == "field_declaration"@ {
            go_field_parts(t, c, t.children_of(c), 0, path, parent, sname, acc)
        } else {
            acc
        };
        go_fields(t, kids, i + 1, path, parent, sname, next)
    }
}

/// The fields of a struct type, `Struct.field`, each with a `REFERENCES`
/// edge to an exported type it names.
pub open spec fn go_struct_fields(
    t: SyntaxTree,
    st: int,
    path: Seq<char>,
    parent: NodeId,
    sname: Seq<char>,
    acc: (Seq<SymbolView>, Seq<RawEdgeView>),
) -> (Seq<SymbolView>, Seq<RawEdgeView>) {
    match t.first_with_kind(t.children_of(st), "field_declaration_list"@) {
        Some(l) => go_fields(t, t.children_of(l), 0, path, parent, sname, acc),
        None => acc,
    }
}

/// The methods of an interface type from the `i`-th child on, `Iface.method`.
pub open spec fn go_iface_methods(
    t: SyntaxTree,
    kids: Seq<int>,
    i: int,
    path: Seq<char>,
    parent: NodeId,
    iname: Seq<char>,
    syms: Seq<SymbolView>,
) -> Seq<SymbolView>
    decreases kids.len() - i,
{
    if i < 0 || i >= kids.len() {
        syms
    } else {
        let c = kids[i];
        let next = if t.kind_of(c) == "method_elem"@ || t.kind_of(c) == "method_spec"@ {
            let nn = match field_child(t, c, "name"@) {
                Some(x) => Some(x),
                None => t.first_with_kind(t.children_of(c), "field_identifier"@),
            };
            match nn {
                Some(x) => {
                    let name = t.text_of(x);
                    syms.push(
                        go_symbol_at(
                            t,
                            c,
                            path,
                            iname + "."@ + name,
                            name,
                            SymbolKind::Method,
                            Some(name + go_params(t, c) + go_suffix(t, c, "result"@, " "@)),
                            parent,
                        ),
                    )
                },
                None => syms,
            }
        } else {
            syms
        };
        go_iface_methods(t, kids, i + 1, path, parent, iname, next)
    }
}

/// A type spec: a struct (with its fields), an interface (with its methods)
/// or any other named type.
pub open spec fn go_type_spec(
    t: SyntaxTree,
    n: int,
    path: Seq<char>,
    parent: NodeId,
    acc: (Seq<SymbolView>, Seq<RawEdgeView>),
) -> (Seq<SymbolView>, Seq<RawEdgeView>) {
    match (field_child(t, n, "name"@), field_child(t, n, "type"@)) {
        (Some(nm), Some(ty)) => {
            let name = t.text_of(nm);
            let is_struct = t.kind_of(ty) == "struct_type"@;
            let is_iface = t.kind_of(ty) == "interface_type"@;
            let (kind, sig) = if is_struct {
                (SymbolKind::Struct, "type "@ + name + " struct"@)
            } else if is_iface {
                (SymbolKind::Interface, "type "@ + name + " interface"@)
            } else {
                (SymbolKind::TypeAlias, "type "@ + name + " "@ + t.text_of(ty))
            };
            let s = go_symbol_at(t, n, path, name, name, kind, Some(sig), parent);
            let after = (acc.0.push(s), acc.1);
            if is_struct {
                go_struct_fields(t, ty, path, s.id, name, after)
            } else if is_iface {
                (go_iface_methods(t, t.children_of(ty), 0, path, s.id, name, after.0), after.1)
            } else {
                after
            }
        },
        _ => acc,
    }
}

/// A type alias: `type Name = T`.
pub open spec fn go_type_alias(t: SyntaxTree, n: int, path: Seq<char>, parent: NodeId, syms: Seq<SymbolView>) -> Seq<
    SymbolView,
> {
    match field_child(t, n, "name"@) {
        None => syms,
        Some(nm) => {
            let name = t.text_of(nm);
            let ty = match field_child(t, n, "type"@) {
                Some(x) => t.text_of(x),
                None => seq![],
            };
            syms.push(
                go_symbol_at(t, n, path, name, name, SymbolKind::TypeAlias, Some("type "@ + name + " = "@ + ty), parent),
            )
        },
    }
}

/// A type declaration, from its `i`-th child on.
pub open spec fn go_type_decl(
    t: SyntaxTree,
    kids: Seq<int>,
    i: int,
    path: Seq<char>,
    parent: NodeId,
    acc: (Seq<SymbolView>, Seq<RawEdgeView>),
) -> (Seq<SymbolView>, Seq<RawEdgeView>)
    decreases kids.len() - i,
{
    if i < 0 || i >= kids.len() {
        acc
    } else {
        let c = kids[i];
        let next = if t.kind_of(c) == "type_spec"@ {
            go_type_spec(t, c, path, parent, acc)
        } else if t.kind_of(c) == "type_alias"@ {
            (go_type_alias(t, c, path, parent, acc.0), acc.1)
        } else {
            acc
        };
        go_type_decl(t, kids, i + 1, path, parent, next)
    }
}

/// A constant declaration, from its `i`-th child on: one constant per spec.
pub open spec fn go_consts(t: SyntaxTree, kids: Seq<int>, i: int, path: Seq<char>, parent: NodeId, syms: Seq<SymbolView>) -> Seq<
    SymbolView,
>
    decreases kids.len() - i,
{
    if i < 0 || i >= kids.len() {
        syms
    } else {
        let c = kids[i];
        let next = if t.kind_of(c) == "const_spec"@ {
            let nn = match field_child(t, c, "name"@) {
                Some(x) => Some(x),
                None => t.first_with_kind(t.children_of(c), "identifier"@),
            };
            match nn {
                Some(x) => {
                    let name = t.text_of(x);
                    syms.push(
                        go_symbol_at(
                            t,
                            c,
                            path,
                            name,
                            name,
                            SymbolKind::Constant,
                            Some("const "@ + name + go_suffix(t, c, "value"@, " = "@)),
                            parent,
                        ),
                    )
                },
                None => syms,
            }
        } else {
            syms
        };
        go_consts(t, kids, i + 1, path, parent, next)
    }
}

/// The target of a call: inside a method, `v.M` through the receiver variable is `Recv.M`.
pub open spec fn go_call_target(text: Seq<char>, recv: Option<Seq<char>>) -> Seq<char> {
    match recv {
        Some(r) => go_self_call_of(text, r),
        None => text,
    }
}

/// The call edges of the calls below `n`, in document order, appended to `raws`.
pub open spec fn go_calls(t: SyntaxTree, n: int, caller: NodeId, recv: Option<Seq<char>>, raws: Seq<RawEdgeView>) -> Seq<
    RawEdgeView,
>
    decreases t.size() - n, 1int, 0int,
{
    go_calls_from(t, n, 0, caller, recv, raws)
}

pub open spec fn go_calls_from(
    t: SyntaxTree,
    n: int,
    i: int,
    caller: NodeId,
    recv: Option<Seq<char>>,
    raws: Seq<RawEdgeView>,
) -> Seq<RawEdgeView>
    decreases t.size() - n, 0int, t.children_of(n).len() - i,
{
    let kids = t.children_of(n);
    if i < 0 || i >= kids.len() || !(n < kids[i] < t.size()) {
        raws
    } else {
        let c = kids[i];
        let with_call = if t.kind_of(c) == "call_expression"@ {
            match field_child(t, c, "function"@) {
                Some(f) => raws.push(go_edge(caller, EdgeKind::Calls, go_call_target(t.text_of(f), recv), t.start_rows@[c])),
                None => raws,
            }
        } else {
            raws
        };
        go_calls_from(t, n, i + 1, caller, recv, go_calls(t, c, caller, recv, with_call))
    }
}

/// One top-level declaration of a Go file.
pub open spec fn go_item(
    t: SyntaxTree,
    c: int,
    path: Seq<char>,
    parent: NodeId,
    acc: (Seq<SymbolView>, Seq<RawEdgeView>),
) -> (Seq<SymbolView>, Seq<RawEdgeView>) {
    let k = t.kind_of(c);
    if k == "package_clause"@ {
        (go_package(t, c, path, parent, acc.0), acc.1)
    } else if k == "import_declaration"@ {
        go_imports(t, t.children_of(c), 0, path, parent, acc)
    } else if k == "function_declaration"@ {
        go_function(t, c, path, parent, None, acc)
    } else if k == "method_declaration"@ {
        go_function(t, c, path, parent, go_receiver(t, c), acc)
    } else if k == "type_declaration"@ {
        go_type_decl(t, t.children_of(c), 0, path, parent, acc)
    } else if k == "const_declaration"@ {
        (go_consts(t, t.children_of(c), 0, path, parent, acc.0), acc.1)
    } else {
        acc
    }
}

/// The top-level declarations from the `i`-th on.
pub open spec fn go_walk_from(
    t: SyntaxTree,
    kids: Seq<int>,
    i: int,
    path: Seq<char>,
    parent: NodeId,
    acc: (Seq<SymbolView>, Seq<RawEdgeView>),
) -> (Seq<SymbolView>, Seq<RawEdgeView>)
    decreases kids.len() - i,
{
    if i < 0 || i >= kids.len() {
        acc
    } else {
        go_walk_from(t, kids, i + 1, path, parent, go_item(t, kids[i], path, parent, acc))
    }
}

/// The symbols and raw edges of a Go file: its `File` symbol, then the
/// top-level declarations of the tree in document order.
pub open spec fn go_extraction(t: SyntaxTree, path: Seq<char>) -> (Seq<SymbolView>, Seq<RawEdgeView>) {
    let f = file_symbol(path, Language::Go, t.source@);
    go_walk_from(t, t.children_of(0), 0, path, f.id, (seq![f], Seq::<RawEdgeView>::empty()))
}

fn walk_go(tree: &SyntaxTree, node: usize, path: &str, parent_id: NodeId, out: &mut ExtractResult)
    requires
        walk_ready(tree, node, path@, Language::Go, old(out), parent_id),
    ensures
        walk_kept(old(out), final(out), path@, Language::Go),
        (final(out).syms(), final(out).raws()) == go_walk_from(
            *tree,
            tree.children_of(node as int),
            0,
            path@,
            parent_id,
            (old(out).syms(), old(out).raws()),
        ),
{
    let kids = tree.children(node);
    let ghost ks = kids@.map_values(|x: usize| x as int);
    let ghost goal = go_walk_from(*tree, ks, 0, path@, parent_id, (out.syms(), out.raws()));
    let mut k: usize = 0;
    while k < kids.len()
        invariant
            tree.wf(),
            node < tree.size(),
            ks == kids@.map_values(|x: usize| x as int),
            ks == tree.children_of(node as int),
            forall|m: int| 0 <= m < kids@.len() ==> node < #[trigger] kids@[m] < tree.size(),
            has_id(old(out).syms(), parent_id),
            walk_kept(old(out), out, path@, Language::Go),
            go_walk_from(*tree, ks, k as int, path@, parent_id, (out.syms(), out.raws())) == goal,
        decreases kids@.len() - k,
    {
        let child = kids[k];
        proof {
            assert(ks[k as int] == child as int);
        }
        go_item_exec(tree, child, path, parent_id, out);
        k = k + 1;
    }
}

fn go_item_exec(tree: &SyntaxTree, child: usize, path: &str, parent_id: NodeId, out: &mut ExtractResult)
    requires
        walk_ready(tree, child, path@, Language::Go, old(out), parent_id),
    ensures
        walk_kept(old(out), final(out), path@, Language::Go),
        (final(out).syms(), final(out).raws()) == go_item(
            *tree,
            child as int,
            path@,
            parent_id,
            (old(out).syms(), old(out).raws()),
        ),
{
    if tree.is_kind(child, "package_clause") {
        extract_go_package(tree, child, path, parent_id, out);
    } else if tree.is_kind(child, "import_declaration") {
        extract_go_imports(tree, child, path, parent_id, out);
    } else if tree.is_kind(child, "function_declaration") {
        extract_go_function(tree, child, path, parent_id, None, out);
    } else if tree.is_kind(child, "method_declaration") {
        let recv = extract_receiver_type(tree, child);
        extract_go_function(tree, child, path, parent_id, recv, out);
    } else if tree.is_kind(child, "type_declaration") {
        extract_go_type_decl(tree, child, path, parent_id, out);
    } else if tree.is_kind(child, "const_declaration") {
        extract_go_const(tree, child, path, parent_id, out);
    }
}

fn extract_go_package(tree: &SyntaxTree, node: usize, path: &str, parent_id: NodeId, out: &mut ExtractResult)
    requires
        walk_ready(tree, node, path@, Language::Go, old(out), parent_id),
    ensures
        walk_kept(old(out), final(out), path@, Language::Go),
        final(out).raws() == old(out).raws(),
        final(out).syms() == go_package(*tree, node as int, path@, parent_id, old(out).syms()),
{
    let name_node = match tree.find_child_by_kind(node, "package_identifier") {
        Some(n) => n,
        None => {
            return;
        },
    };
    let name = tree.text(name_node);
    let sig = cat2("package ", name.as_str());
    let s = make_symbol(
        path,
        name,
        SymbolKind::Module,
        rows(tree, node),
        Some(sig),
        Visibility::Public,
        Language::Go,
        Some(parent_id),
    );
    out.add_symbol(s, path, Language::Go);
}

fn extract_go_imports(tree: &SyntaxTree, node: usize, path: &str, parent_id: NodeId, out: &mut ExtractResult)
    requires
        walk_ready(tree, node, path@, Language::Go, old(out), parent_id),
    ensures
        walk_kept(old(out), final(out), path@, Language::Go),
        (final(out).syms(), final(out).raws()) == go_imports(
            *tree,
            tree.children_of(node as int),
            0,
            path@,
            parent_id,
            (old(out).syms(), old(out).raws()),
        ),
{
    let kids = tree.children(node);
    let ghost ks = kids@.map_values(|x: usize| x as int);
    let ghost goal = go_imports(*tree, ks, 0, path@, parent_id, (out.syms(), out.raws()));
    let mut k: usize = 0;
    while k < kids.len()
        invariant
            tree.wf(),
            ks == kids@.map_values(|x: usize| x as int),
            ks == tree.children_of(node as int),
            forall|m: int| 0 <= m < kids@.len() ==> node < #[trigger] kids@[m] < tree.size(),
            has_id(old(out).syms(), parent_id),
            walk_kept(old(out), out, path@, Language::Go),
            go_imports(*tree, ks, k as int, path@, parent_id, (out.syms(), out.raws())) == goal,
        decreases kids@.len() - k,
    {
        let child = kids[k];
        proof {
            assert(ks[k as int] == child as int);
        }
        if tree.is_kind(child, "import_spec") {
            extract_go_import_spec(tree, child, path, parent_id, out);
        } else if tree.is_kind(child, "import_spec_list") {
            let specs = tree.children(child);
            let ghost ss = specs@.map_values(|x: usize| x as int);
            let ghost sub = go_spec_list(*tree, ss, 0, path@, parent_id, (out.syms(), out.raws()));
            let mut j: usize = 0;
            while j < specs.len()
                invariant
                    tree.wf(),
                    ss == specs@.map_values(|x: usize| x as int),
                    forall|m: int| 0 <= m < specs@.len() ==> child < #[trigger] specs@[m] < tree.size(),
                    has_id(old(out).syms(), parent_id),
                    walk_kept(old(out), out, path@, Language::Go),
                    go_spec_list(*tree, ss, j as int, path@, parent_id, (out.syms(), out.raws())) == sub,
                decreases specs@.len() - j,
            {
                let spec = specs[j];
                proof {
                    assert(ss[j as int] == spec as int);
                }
                if tree.is_kind(spec, "import_spec") {
                    extract_go_import_spec(tree, spec, path, parent_id, out);
                }
                j = j + 1;
            }
            proof {
                assert(tree.children_of(child as int) == ss);
            }
        }
        k = k + 1;
    }
}

fn extract_go_import_spec(tree: &SyntaxTree, node: usize, path: &str, parent_id: NodeId, out: &mut ExtractResult)
    requires
        walk_ready(tree, node, path@, Language::Go, old(out), parent_id),
    ensures
        walk_kept(old(out), final(out), path@, Language::Go),
        (final(out).syms(), final(out).raws()) == go_import_spec(
            *tree,
            node as int,
            path@,
            parent_id,
            (old(out).syms(), old(out).raws()),
        ),
{
    let path_node = match tree.child_by_field(node, "path") {
        Some(n) => n,
        None => {
            return;
        },
    };
    let raw = tree.text_chars(path_node);
    let a = trim_start_char_chars(&raw, '"');
    let b = trim_end_char_chars(&a, '"');
    let c = trim_start_char_chars(&b, '`');
    let d = trim_end_char_chars(&c, '`');
    let import_path = string_of(&d);
    let sig = cat3("import \"", import_path.as_str(), "\"");
    let row = tree.start_row(node);
    let s = make_symbol(
        path,
        import_path.clone(),
        SymbolKind::Import,
        rows(tree, node),
        Some(sig),
        Visibility::Public,
        Language::Go,
        Some(parent_id),
    );
    out.add_symbol(s, path, Language::Go);
    let e = make_edge(parent_id, EdgeKind::Imports, import_path, row);
    out.add_edge(e, Ghost(path@), Ghost(Language::Go));
}

/// The receiver type of a method declaration, without `*`, parentheses and
/// type parameters.
fn extract_receiver_type(tree: &SyntaxTree, node: usize) -> (r: Option<String>)
    requires
        tree.wf(),
        node < tree.size(),
    ensures
        opt_view(r) == go_receiver(*tree, node as int),
{
    let receiver = match tree.child_by_field(node, "receiver") {
        Some(r) => r,
        None => {
            return None;
        },
    };
    let kids = tree.children(receiver);
    let ghost ks = kids@.map_values(|x: usize| x as int);
    let mut k: usize = 0;
    while k < kids.len()
        invariant
            tree.wf(),
            ks == kids@.map_values(|x: usize| x as int),
            ks == tree.children_of(receiver as int),
            forall|m: int| 0 <= m < kids@.len() ==> receiver < #[trigger] kids@[m] < tree.size(),
            go_receiver_from(*tree, ks, k as int) == go_receiver(*tree, node as int),
        decreases kids@.len() - k,
    {
        let child = kids[k];
        proof {
            assert(ks[k as int] == child as int);
        }
        if tree.is_kind(child, "parameter_declaration") {
            let type_node = match tree.child_by_field(child, "type") {
                Some(t) => t,
                None => {
                    return None;
                },
            };
            let t = tree.text_chars(type_node);
            let a = trim_start_char_chars(&t, '*');
            let b = trim_start_char_chars(&a, '(');
            let c = trim_end_char_chars(&b, ')');
            let lb = vec!['['];
            proof {
                assert(lb@ =~= seq!['[']);
            }
            let d = before_first_chars(&c, &lb);
            let e = trim_chars(&d);
            return Some(string_of(&e));
        }
        k = k + 1;
    }
    None
}

fn extract_go_function(
    tree: &SyntaxTree,
    node: usize,
    path: &str,
    parent_id: NodeId,
    receiver: Option<String>,
    out: &mut ExtractResult,
)
    requires
        walk_ready(tree, node, path@, Language::Go, old(out), parent_id),
    ensures
        walk_kept(old(out), final(out), path@, Language::Go),
        (final(out).syms(), final(out).raws()) == go_function(
            *tree,
            node as int,
            path@,
            parent_id,
            opt_view(receiver),
            (old(out).syms(), old(out).raws()),
        ),
{
    proof {
        reveal_strlit("");
    }
    let name_node = match tree.child_by_field(node, "name") {
        Some(n) => n,
        None => {
            return;
        },
    };
    let name = tree.text(name_node);
    let params = match tree.child_by_field(node, "parameters") {
        Some(p) => tree.text(p),
        None => "()".to_string(),
    };
    let result = match tree.child_by_field(node, "result") {
        Some(r) => cat2(" ", tree.text(r).as_str()),
        None => String::new(),
    };
    let (kind, qualified, receiver_sig) = match &receiver {
        Some(recv) => (
            SymbolKind::Method,
            cat3(recv.as_str(), ".", name.as_str()),
            cat3("(", recv.as_str(), ") "),
        ),
        None => (SymbolKind::Function, name.clone(), String::new()),
    };
    let visibility = go_visibility(name.as_str());
    let sig = cat5("func ", receiver_sig.as_str(), name.as_str(), params.as_str(), result.as_str());
    let s = make_symbol(
        path,
        qualified,
        kind,
        rows(tree, node),
        Some(sig),
        visibility,
        Language::Go,
        Some(parent_id),
    );
    let id = s.id;
    out.add_symbol(s, path, Language::Go);
    if let Some(body) = tree.child_by_field(node, "body") {
        extract_go_calls(tree, body, path, id, &receiver, out);
    }
}

fn extract_go_type_decl(tree: &SyntaxTree, node: usize, path: &str, parent_id: NodeId, out: &mut ExtractResult)
    requires
        walk_ready(tree, node, path@, Language::Go, old(out), parent_id),
    ensures
        walk_kept(old(out), final(out), path@, Language::Go),
        (final(out).syms(), final(out).raws()) == go_type_decl(
            *tree,
            tree.children_of(node as int),
            0,
            path@,
            parent_id,
            (old(out).syms(), old(out).raws()),
        ),
{
    let kids = tree.children(node);
    let ghost ks = kids@.map_values(|x: usize| x as int);
    let ghost goal = go_type_decl(*tree, ks, 0, path@, parent_id, (out.syms(), out.raws()));
    let mut k: usize = 0;
    while k < kids.len()
        invariant
            tree.wf(),
            ks == kids@.map_values(|x: usize| x as int),
            ks == tree.children_of(node as int),
            forall|m: int| 0 <= m < kids@.len() ==> node < #[trigger] kids@[m] < tree.size(),
            has_id(old(out).syms(), parent_id),
            walk_kept(old(out), out, path@, Language::Go),
            go_type_decl(*tree, ks, k as int, path@, parent_id, (out.syms(), out.raws())) == goal,
        decreases kids@.len() - k,
    {
        let child = kids[k];
        proof {
            assert(ks[k as int] == child as int);
        }
        if tree.is_kind(child, "type_spec") {
            extract_go_type_spec(tree, child, path, parent_id, out);
        } else if tree.is_kind(child, "type_alias") {
            extract_go_type_alias(tree, child, path, parent_id, out);
        }
        k = k + 1;
    }
}

fn extract_go_type_spec(tree: &SyntaxTree, node: usize, path: &str, parent_id: NodeId, out: &mut ExtractResult)
    requires
        walk_ready(tree, node, path@, Language::Go, old(out), parent_id),
    ensures
        walk_kept(old(out), final(out), path@, Language::Go),
        (final(out).syms(), final(out).raws()) == go_type_spec(
            *tree,
            node as int,
            path@,
            parent_id,
            (old(out).syms(), old(out).raws()),
        ),
{
    let name_node = match tree.child_by_field(node, "name") {
        Some(n) => n,
        None => {
            return;
        },
    };
    let name = tree.text(name_node);
    let type_node = match tree.child_by_field(node, "type") {
        Some(t) => t,
        None => {
            return;
        },
    };
    let is_struct = tree.is_kind(type_node, "struct_type");
    let is_iface = tree.is_kind(type_node, "interface_type");
    let (kind, sig) = if is_struct {
        (SymbolKind::Struct, cat3("type ", name.as_str(), " struct"))
    } else if is_iface {
        (SymbolKind::Interface, cat3("type ", name.as_str(), " interface"))
    } else {
        (SymbolKind::TypeAlias, cat4("type ", name.as_str(), " ", tree.text(type_node).as_str()))
    };
    let visibility = go_visibility(name.as_str());
    let s = make_symbol(
        path,
        name.clone(),
        kind,
        rows(tree, node),
        Some(sig),
        visibility,
        Language::Go,
        Some(parent_id),
    );
    let id = s.id;
    out.add_symbol(s, path, Language::Go);
    if is_struct {
        extract_go_struct_fields(tree, type_node, path, id, name.as_str(), out);
    } else if is_iface {
        extract_go_interface_methods(tree, type_node, path, id, name.as_str(), out);
    }
}

fn extract_go_type_alias(tree: &SyntaxTree, node: usize, path: &str, parent_id: NodeId, out: &mut ExtractResult)
    requires
        walk_ready(tree, node, path@, Language::Go, old(out), parent_id),
    ensures
        walk_kept(old(out), final(out), path@, Language::Go),
        final(out).raws() == old(out).raws(),
        final(out).syms() == go_type_alias(*tree, node as int, path@, parent_id, old(out).syms()),
{
    proof {
        reveal_strlit("");
    }
    let name_node = match tree.child_by_field(node, "name") {
        Some(n) => n,
        None => {
            return;
        },
    };
    let name = tree.text(name_node);
    let type_text = match tree.child_by_field(node, "type") {
        Some(t) => tree.text(t),
        None => String::new(),
    };
    let sig = cat4("type ", name.as_str(), " = ", type_text.as_str());
    let visibility = go_visibility(name.as_str());
    let s = make_symbol(
        path,
        name,
        SymbolKind::TypeAlias,
        rows(tree, node),
        Some(sig),
        visibility,
        Language::Go,
        Some(parent_id),
    );
    out.add_symbol(s, path, Language::Go);
}

fn extract_go_struct_fields(
    tree: &SyntaxTree,
    struct_node: usize,
    path: &str,
    parent_id: NodeId,
    struct_name: &str,
    out: &mut ExtractResult,
)
    requires
        walk_ready(tree, struct_node, path@, Language::Go, old(out), parent_id),
    ensures
        walk_kept(old(out), final(out), path@, Language::Go),
        (final(out).syms(), final(out).raws()) == go_struct_fields(
            *tree,
            struct_node as int,
            path@,
            parent_id,
            struct_name@,
            (old(out).syms(), old(out).raws()),
        ),
{
    let list = match tree.find_child_by_kind(struct_node, "field_declaration_list") {
        Some(n) => n,
        None => {
            return;
        },
    };
    let kids = tree.children(list);
    let ghost ks = kids@.map_values(|x: usize| x as int);
    let ghost goal = go_fields(*tree, ks, 0, path@, parent_id, struct_name@, (out.syms(), out.raws()));
    let mut k: usize = 0;
    while k < kids.len()
        invariant
            tree.wf(),
            ks == kids@.map_values(|x: usize| x as int),
            ks == tree.children_of(list as int),
            forall|m: int| 0 <= m < kids@.len() ==> list < #[trigger] kids@[m] < tree.size(),
            has_id(old(out).syms(), parent_id),
            walk_kept(old(out), out, path@, Language::Go),
            go_fields(*tree, ks, k as int, path@, parent_id, struct_name@, (out.syms(), out.raws())) == goal,
        decreases kids@.len() - k,
    {
        let child = kids[k];
        proof {
            assert(ks[k as int] == child as int);
        }
        if tree.is_kind(child, "field_declaration") {
            let parts = tree.children(child);
            let ghost ps = parts@.map_values(|x: usize| x as int);
            let ghost sub = go_field_parts(*tree, child as int, ps, 0, path@, parent_id, struct_name@, (out.syms(), out.raws()));
            let type_text: Option<String> = match tree.child_by_field(child, "type") {
                Some(t) => Some(tree.text(t)),
                None => None,
            };
            let row = tree.start_row(child);
            let mut j: usize = 0;
            while j < parts.len()
                invariant
                    tree.wf(),
                    child < tree.size(),
                    ps == parts@.map_values(|x: usize| x as int),
                    forall|m: int| 0 <= m < parts@.len() ==> child < #[trigger] parts@[m] < tree.size(),
                    has_id(old(out).syms(), parent_id),
                    walk_kept(old(out), out, path@, Language::Go),
                    row == tree.start_rows@[child as int],
                    opt_view(type_text) == (match field_child(*tree, child as int, "type"@) {
                        Some(x) => Some(tree.text_of(x)),
                        None => None,
                    }),
                    go_field_parts(*tree, child as int, ps, j as int, path@, parent_id, struct_name@, (out.syms(), out.raws()))
                        == sub,
                decreases parts@.len() - j,
            {
                let part = parts[j];
                proof {
                    assert(ps[j as int] == part as int);
                }
                if tree.is_kind(part, "field_identifier") {
                    let field_name = tree.text(part);
                    let qualified = cat3(struct_name, ".", field_name.as_str());
                    let sig = match &type_text {
                        Some(t) => Some(cat3(field_name.as_str(), " ", t.as_str())),
                        None => None,
                    };
                    let visibility = go_visibility(field_name.as_str());
                    let s = make_symbol(
                        path,
                        qualified,
                        SymbolKind::Field,
                        rows(tree, child),
                        sig,
                        visibility,
                        Language::Go,
                        Some(parent_id),
                    );
                    let id = s.id;
                    out.add_symbol(s, path, Language::Go);
                    if let Some(t) = &type_text {
                        let tc = chars_of(t.as_str());
                        let a = trim_start_char_chars(&tc, '*');
                        let b = trim_start_char_chars(&a, '[');
                        let bare = trim_chars(&b);
                        if bare.len() > 0 && is_uppercase(bare[0]) {
                            let e = make_edge(id, EdgeKind::References, string_of(&bare), row);
                            out.add_edge(e, Ghost(path@), Ghost(Language::Go));
                        }
                    }
                }
                j = j + 1;
            }
            proof {
                assert(tree.children_of(child as int) == ps);
            }
        }
        k = k + 1;
    }
}

fn extract_go_interface_methods(
    tree: &SyntaxTree,
    iface_node: usize,
    path: &str,
    parent_id: NodeId,
    iface_name: &str,
    out: &mut ExtractResult,
)
    requires
        walk_ready(tree, iface_node, path@, Language::Go, old(out), parent_id),
    ensures
        walk_kept(old(out), final(out), path@, Language::Go),
        final(out).raws() == old(out).raws(),
        final(out).syms() == go_iface_methods(
            *tree,
            tree.children_of(iface_node as int),
            0,
            path@,
            parent_id,
            iface_name@,
            old(out).syms(),
        ),
{
    proof {
        reveal_strlit("");
    }
    let kids = tree.children(iface_node);
    let ghost ks = kids@.map_values(|x: usize| x as int);
    let ghost goal = go_iface_methods(*tree, ks, 0, path@, parent_id, iface_name@, out.syms());
    let mut k: usize = 0;
    while k < kids.len()
        invariant
            tree.wf(),
            ks == kids@.map_values(|x: usize| x as int),
            ks == tree.children_of(iface_node as int),
            forall|m: int| 0 <= m < kids@.len() ==> iface_node < #[trigger] kids@[m] < tree.size(),
            has_id(old(out).syms(), parent_id),
            walk_kept(old(out), out, path@, Language::Go),
            out.raws() == old(out).raws(),
            go_iface_methods(*tree, ks, k as int, path@, parent_id, iface_name@, out.syms()) == goal,
        decreases kids@.len() - k,
    {
        let child = kids[k];
        proof {
            assert(ks[k as int] == child as int);
        }
        if tree.is_kind(child, "method_elem") || tree.is_kind(child, "method_spec") {
            let name_node = match tree.child_by_field(child, "name") {
                Some(n) => Some(n),
                None => tree.find_child_by_kind(child, "field_identifier"),
            };
            if let Some(nn) = name_node {
                let name = tree.text(nn);
                let params = match tree.child_by_field(child, "parameters") {
                    Some(p) => tree.text(p),
                    None => "()".to_string(),
                };
                let result = match tree.child_by_field(child, "result") {
                    Some(r) => cat2(" ", tree.text(r).as_str()),
                    None => String::new(),
                };
                let qualified = cat3(iface_name, ".", name.as_str());
                let sig = cat3(name.as_str(), params.as_str(), result.as_str());
                let visibility = go_visibility(name.as_str());
                let s = make_symbol(
                    path,
                    qualified,
                    SymbolKind::Method,
                    rows(tree, child),
                    Some(sig),
                    visibility,
                    Language::Go,
                    Some(parent_id),
                );
                out.add_symbol(s, path, Language::Go);
            }
        }
        k = k + 1;
    }
}

fn extract_go_const(tree: &SyntaxTree, node: usize, path: &str, parent_id: NodeId, out: &mut ExtractResult)
    requires
        walk_ready(tree, node, path@, Language::Go, old(out), parent_id),
    ensures
        walk_kept(old(out), final(out), path@, Language::Go),
        final(out).raws() == old(out).raws(),
        final(out).syms() == go_consts(*tree, tree.children_of(node as int), 0, path@, parent_id, old(out).syms()),
{
    proof {
        reveal_strlit("");
    }
    let kids = tree.children(node);
    let ghost ks = kids@.map_values(|x: usize| x as int);
    let ghost goal = go_consts(*tree, ks, 0, path@, parent_id, out.syms());
    let mut k: usize = 0;
    while k < kids.len()
        invariant
            tree.wf(),
            ks == kids@.map_values(|x: usize| x as int),
            ks == tree.children_of(node as int),
            forall|m: int| 0 <= m < kids@.len() ==> node < #[trigger] kids@[m] < tree.size(),
            has_id(old(out).syms(), parent_id),
            walk_kept(old(out), out, path@, Language::Go),
            out.raws() == old(out).raws(),
            go_consts(*tree, ks, k as int, path@, parent_id, out.syms()) == goal,
        decreases kids@.len() - k,
    {
        let child = kids[k];
        proof {
            assert(ks[k as int] == child as int);
        }
        if tree.is_kind(child, "const_spec") {
            let name_node = match tree.child_by_field(child, "name") {
                Some(n) => Some(n),
                None => tree.find_child_by_kind(child, "identifier"),
            };
            if let Some(nn) = name_node {
                let name = tree.text(nn);
                let value_text = match tree.child_by_field(child, "value") {
                    Some(v) => cat2(" = ", tree.text(v).as_str()),
                    None => String::new(),
                };
                let sig = cat3("const ", name.as_str(), value_text.as_str());
                let visibility = go_visibility(name.as_str());
                let s = make_symbol(
                    path,
                    name,
                    SymbolKind::Constant,
                    rows(tree, child),
                    Some(sig),
                    visibility,
                    Language::Go,
                    Some(parent_id),
                );
                out.add_symbol(s, path, Language::Go);
            }
        }
        k = k + 1;
    }
}

fn extract_go_calls(
    tree: &SyntaxTree,
    node: usize,
    path: &str,
    caller_id: NodeId,
    receiver: &Option<String>,
    out: &mut ExtractResult,
)
    requires
        walk_ready(tree, node, path@, Language::Go, old(out), caller_id),
    ensures
        walk_kept(old(out), final(out), path@, Language::Go),
        final(out).symbols@ == old(out).symbols@,
        final(out).raws() == go_calls(*tree, node as int, caller_id, opt_view(*receiver), old(out).raws()),
    decreases tree.size() - node,
{
    let ghost rv = opt_view(*receiver);
    let ghost goal = go_calls(*tree, node as int, caller_id, rv, out.raws());
    let kids = tree.children(node);
    let mut k: usize = 0;
    while k < kids.len()
        invariant
            tree.wf(),
            node < tree.size(),
            forall|m: int| 0 <= m < kids@.len() ==> node < #[trigger] kids@[m] < tree.size(),
            kids@.map_values(|x: usize| x as int) == tree.children_of(node as int),
            has_id(old(out).syms(), caller_id),
            walk_kept(old(out), out, path@, Language::Go),
            out.symbols@ == old(out).symbols@,
            rv == opt_view(*receiver),
            go_calls_from(*tree, node as int, k as int, caller_id, rv, out.raws()) == goal,
        decreases kids@.len() - k,
    {
        let child = kids[k];
        proof {
            assert(tree.children_of(node as int)[k as int] == child as int);
        }
        if tree.is_kind(child, "call_expression") {
            if let Some(func) = tree.child_by_field(child, "function") {
                let raw = tree.text(func);
                let target = match receiver {
                    Some(r) => qualify_go_self_call(raw.as_str(), r.as_str()),
                    None => raw,
                };
                let e = make_edge(caller_id, EdgeKind::Calls, target, tree.start_row(child));
                out.add_edge(e, Ghost(path@), Ghost(Language::Go));
            }
        }
        extract_go_calls(tree, child, path, caller_id, receiver, out);
        k = k + 1;
    }
}

impl GoExtractor {
    pub fn language(&self) -> (r: Language)
        ensures
            r == Language::Go,
    {
        Language::Go
    }

    /// The file extensions read as Go.
    pub fn file_extensions(&self) -> (r: Vec<&'static str>)
        ensures
            r@.len() == 1,
            r@[0]@ == "go"@,
    {
        let mut v: Vec<&'static str> = Vec::new();
        v.push("go");
        v
    }

    /// Extracts the symbols and raw edges of the Go file `path` from its tree:
    /// the `File` symbol first, then each top-level declaration in document
    /// order as `go_extraction` states.
    pub fn extract(&self, tree: &SyntaxTree, path: &str) -> (r: ExtractResult)
        requires
            tree.wf(),
        ensures
            extraction_of(r, path@, Language::Go, tree.source@),
            (r.syms(), r.raws()) == go_extraction(*tree, path@),
    {
        let mut out = start_extraction(tree, path, Language::Go);
        let file_id = out.symbols[0].id;
        proof {
            assert(out.syms()[0].id == file_id);
            assert(has_id(out.syms(), file_id));
            assert(out.raws() =~= Seq::<RawEdgeView>::empty());
        }
        walk_go(tree, 0, path, file_id, &mut out);
        out
    }
}

} // verus!

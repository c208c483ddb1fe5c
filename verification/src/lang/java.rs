//! Java: packages, imports, classes, interfaces, enums (with their constants),
//! records and annotation types with their heritage, methods, constructors and
//! fields; method calls (`this.m` qualified with the class) and `new` types.
use vstd::prelude::*;
use crate::text::{string_of, str_eq, trim_chars, cat2, cat3, chars_of, trim_ws};
use crate::symbol::{SymbolKind, SymbolView, Language, Visibility, NodeId, opt_view};
use crate::relation::{EdgeKind, RawEdgeView};
use crate::graph::has_id;
use crate::syntax::SyntaxTree;
use crate::extract::{
    ExtractResult, make_symbol, make_edge, start_extraction, extraction_of, walk_ready, walk_kept,
    rows, qualify_member_call, symbol_at, field_child, node_rows, file_symbol, member_call_of,
};

verus! {

/// Extracts Java symbols.
pub struct JavaExtractor;

pub open spec fn java_edge(source: NodeId, kind: EdgeKind, target: Seq<char>, line: u32) -> RawEdgeView {
    RawEdgeView { source, kind, target_name: target, target_module: None, source_line: line }
}

/// The visibility the modifiers from the `j`-th on name, by kind or by text.
pub open spec fn java_modifier_from(t: SyntaxTree, mods: Seq<int>, j: int) -> Option<Visibility>
    decreases mods.len() - j,
{
    if j < 0 || j >= mods.len() {
        None
    } else {
        let m = mods[j];
        let k = t.kind_of(m);
        let x = t.text_of(m);
        if k == "public"@ {
            Some(Visibility::Public)
        } else if k == "private"@ {
            Some(Visibility::Private)
        } else if k == "protected"@ {
            Some(Visibility::Protected)
        } else if x == "public"@ {
            Some(Visibility::Public)
        } else if x == "private"@ {
            Some(Visibility::Private)
        } else if x == "protected"@ {
            Some(Visibility::Protected)
        } else {
            java_modifier_from(t, mods, j + 1)
        }
    }
}

/// The visibility the first `modifiers` child from the `i`-th on that names
/// one gives; package private (internal) when none does.
pub open spec fn java_visibility_from(t: SyntaxTree, kids: Seq<int>, i: int) -> Visibility
    decreases kids.len() - i,
{
    if i < 0 || i >= kids.len() {
        Visibility::Internal
    } else if t.kind_of(kids[i]) == "modifiers"@ {
        match java_modifier_from(t, t.children_of(kids[i]), 0) {
            Some(v) => v,
            None => java_visibility_from(t, kids, i + 1),
        }
    } else {
        java_visibility_from(t, kids, i + 1)
    }
}

pub open spec fn java_visibility(t: SyntaxTree, n: int) -> Visibility {
    java_visibility_from(t, t.children_of(n), 0)
}

/// The type names inside node `n`, in order: type identifiers, generic types
/// by their name, scoped type identifiers; other children are searched.
pub open spec fn java_type_names(t: SyntaxTree, n: int) -> Seq<Seq<char>>
    decreases t.size() - n, 1int, 0int,
{
    java_type_names_from(t, n, 0)
}

pub open spec fn java_type_names_from(t: SyntaxTree, n: int, i: int) -> Seq<Seq<char>>
    decreases t.size() - n, 0int, t.children_of(n).len() - i,
{
    let kids = t.children_of(n);
    if i < 0 || i >= kids.len() || !(n < kids[i] < t.size()) {
        seq![]
    } else {
        let c = kids[i];
        let k = t.kind_of(c);
        let here = if k == "type_identifier"@ {
            seq![t.text_of(c)]
        } else if k == "generic_type"@ {
            match field_child(t, c, "name"@) {
                Some(x) => seq![t.text_of(x)],
                None => match t.first_with_kind(t.children_of(c), "type_identifier"@) {
                    Some(x) => seq![t.text_of(x)],
                    None => seq![],
                },
            }
        } else if k == "scoped_type_identifier"@ {
            seq![t.text_of(c)]
        } else {
            java_type_names(t, c)
        };
        here + java_type_names_from(t, n, i + 1)
    }
}

/// An edge of `kind` from `id` to each of `names` from the `k`-th on.
pub open spec fn java_name_edges(
    names: Seq<Seq<char>>,
    k: int,
    id: NodeId,
    kind: EdgeKind,
    line: u32,
    raws: Seq<RawEdgeView>,
) -> Seq<RawEdgeView>
    decreases names.len() - k,
{
    if k < 0 || k >= names.len() {
        raws
    } else {
        java_name_edges(names, k + 1, id, kind, line, raws.push(java_edge(id, kind, names[k], line)))
    }
}

/// Edges of `kind` from `id` to the types named in field `f` of `n`.
pub open spec fn java_heritage(
    t: SyntaxTree,
    n: int,
    f: Seq<char>,
    id: NodeId,
    kind: EdgeKind,
    raws: Seq<RawEdgeView>,
) -> Seq<RawEdgeView> {
    match field_child(t, n, f) {
        Some(x) => java_name_edges(java_type_names(t, x), 0, id, kind, t.start_rows@[x], raws),
        None => raws,
    }
}

/// A package declaration: a `Package` symbol named by its (scoped) identifier.
pub open spec fn java_package(t: SyntaxTree, n: int, path: Seq<char>, parent: NodeId, syms: Seq<SymbolView>) -> Seq<
    SymbolView,
> {
    match t.first_with_any_kind(t.children_of(n), seq!["scoped_identifier"@, "identifier"@]) {
        Some(x) => {
            let name = t.text_of(x);
            if name.len() == 0 {
                syms
            } else {
                syms.push(
                    symbol_at(
                        path,
                        name,
                        SymbolKind::Package,
                        node_rows(t, n),
                        Some("package "@ + name),
                        Visibility::Public,
                        Language::Java,
                        Some(parent),
                    ),
                )
            }
        },
        None => syms,
    }
}

/// An import: an `Import` symbol named by the statement and an `IMPORTS` edge.
pub open spec fn java_import(
    t: SyntaxTree,
    n: int,
    path: Seq<char>,
    parent: NodeId,
    acc: (Seq<SymbolView>, Seq<RawEdgeView>),
) -> (Seq<SymbolView>, Seq<RawEdgeView>) {
    let text = trim_ws(t.text_of(n));
    (
        acc.0.push(
            symbol_at(
                path,
                text,
                SymbolKind::Import,
                node_rows(t, n),
                Some(text),
                Visibility::Public,
                Language::Java,
                Some(parent),
            ),
        ),
        acc.1.push(java_edge(parent, EdgeKind::Imports, text, t.start_rows@[n])),
    )
}

/// The constants of an enum body from the `i`-th child on, as variants of `id`.
pub open spec fn java_enum_constants(t: SyntaxTree, kids: Seq<int>, i: int, path: Seq<char>, id: NodeId, syms: Seq<SymbolView>) -> Seq<
    SymbolView,
>
    decreases kids.len() - i,
{
    if i < 0 || i >= kids.len() {
        syms
    } else {
        let c = kids[i];
        let next = if t.kind_of(c) == "enum_constant"@ {
            match field_child(t, c, "name"@) {
                Some(x) => syms.push(
                    symbol_at(
                        path,
                        t.text_of(x),
                        SymbolKind::EnumVariant,
                        node_rows(t, c),
                        None,
                        Visibility::Public,
                        Language::Java,
                        Some(id),
                    ),
                ),
                None => syms,
            }
        } else {
            syms
        };
        java_enum_constants(t, kids, i + 1, path, id, next)
    }
}

/// A class, interface, enum, record or annotation type: its symbol, its
/// heritage edges, an enum's constants, then its body walked with it as the class.
pub open spec fn java_type(
    t: SyntaxTree,
    n: int,
    path: Seq<char>,
    parent: NodeId,
    kind: SymbolKind,
    keyword: Seq<char>,
    acc: (Seq<SymbolView>, Seq<RawEdgeView>),
) -> (Seq<SymbolView>, Seq<RawEdgeView>)
    decreases t.size() - n, 3int, 0int,
{
    match field_child(t, n, "name"@) {
        None => acc,
        Some(nm) => {
            let name = t.text_of(nm);
            let s = symbol_at(
                path,
                name,
                kind,
                node_rows(t, n),
                Some(keyword + name),
                java_visibility(t, n),
                Language::Java,
                Some(parent),
            );
            let k = t.kind_of(n);
            let is_class = k == "class_declaration"@;
            let is_iface = k == "interface_declaration"@;
            let is_enum = k == "enum_declaration"@;
            let is_record = k == "record_declaration"@;
            let r1 = if is_class {
                java_heritage(t, n, "superclass"@, s.id, EdgeKind::Extends, acc.1)
            } else {
                acc.1
            };
            let r2 = if is_iface {
                java_heritage(t, n, "extends_interfaces"@, s.id, EdgeKind::Extends, r1)
            } else {
                r1
            };
            let r3 = if is_class || is_enum || is_record {
                java_heritage(t, n, "interfaces"@, s.id, EdgeKind::Implements, r2)
            } else {
                r2
            };
            let syms = acc.0.push(s);
            match field_child(t, n, "body"@) {
                Some(b) => if n < b < t.size() {
                    let syms2 = if is_enum {
                        java_enum_constants(t, t.children_of(b), 0, path, s.id, syms)
                    } else {
                        syms
                    };
                    java_walk(t, b, path, s.id, Some(name), (syms2, r3))
                } else {
                    (syms, r3)
                },
                None => (syms, r3),
            }
        },
    }
}

/// A method, or (`is_ctor`) a constructor (`Class..ctor`), of `class`: its
/// symbol, then the calls of its body.
pub open spec fn java_method(
    t: SyntaxTree,
    n: int,
    path: Seq<char>,
    parent: NodeId,
    class: Option<Seq<char>>,
    is_ctor: bool,
    acc: (Seq<SymbolView>, Seq<RawEdgeView>),
) -> (Seq<SymbolView>, Seq<RawEdgeView>) {
    match field_child(t, n, "name"@) {
        None => acc,
        Some(nm) => {
            let name = t.text_of(nm);
            let params = match field_child(t, n, "parameters"@) {
                Some(p) => t.text_of(p),
                None => "()"@,
            };
            let (kind, q, sig) = if is_ctor {
                (
                    SymbolKind::Constructor,
                    match class {
                        Some(cn) => cn + "..ctor"@,
                        None => name,
                    },
                    name + params,
                )
            } else {
                let ret = match field_child(t, n, "type"@) {
                    Some(x) => t.text_of(x),
                    None => "void"@,
                };
                (
                    SymbolKind::Method,
                    match class {
                        Some(cn) => cn + "."@ + name,
                        None => name,
                    },
                    ret + " "@ + (name + params),
                )
            };
            let s = symbol_at(
                path,
                q,
                kind,
                node_rows(t, n),
                Some(sig),
                java_visibility(t, n),
                Language::Java,
                Some(parent),
            );
            (
                acc.0.push(s),
                match field_child(t, n, "body"@) {
                    Some(b) => java_calls(t, b, s.id, class, acc.1),
                    None => acc.1,
                },
            )
        },
    }
}

/// The fields of a field declaration `n`, from its `i`-th child on: one per
/// named variable declarator, typed as the declaration is.
pub open spec fn java_fields(t: SyntaxTree, n: int, kids: Seq<int>, i: int, path: Seq<char>, parent: NodeId, syms: Seq<SymbolView>) -> Seq<
    SymbolView,
>
    decreases kids.len() - i,
{
    if i < 0 || i >= kids.len() {
        syms
    } else {
        let c = kids[i];
        let ftype = match field_child(t, n, "type"@) {
            Some(x) => t.text_of(x),
            None => seq![],
        };
        let next = if t.kind_of(c) == "variable_declarator"@ {
            match field_child(t, c, "name"@) {
                Some(v) => syms.push(
                    symbol_at(
                        path,
                        t.text_of(v),
                        SymbolKind::Field,
                        node_rows(t, n),
                        Some(ftype + " "@ + t.text_of(v)),
                        java_visibility(t, n),
                        Language::Java,
                        Some(parent),
                    ),
                ),
                None => syms,
            }
        } else {
            syms
        };
        java_fields(t, n, kids, i + 1, path, parent, next)
    }
}

/// The edge, if any, that node `c` makes itself: a call of a named method
/// (`obj.m`, with `this.m` qualified with the class) or a reference to the
/// type a `new` creates.
pub open spec fn java_call_edge(t: SyntaxTree, c: int, caller: NodeId, class: Option<Seq<char>>, raws: Seq<RawEdgeView>) -> Seq<
    RawEdgeView,
> {
    let line = t.start_rows@[c];
    if t.kind_of(c) == "method_invocation"@ {
        let name = match field_child(t, c, "name"@) {
            Some(x) => t.text_of(x),
            None => seq![],
        };
        if name.len() > 0 {
            let raw = match field_child(t, c, "object"@) {
                Some(o) => t.text_of(o) + "."@ + name,
                None => name,
            };
            let target = match class {
                Some(cn) => member_call_of(raw, cn),
                None => raw,
            };
            raws.push(java_edge(caller, EdgeKind::Calls, target, line))
        } else {
            raws
        }
    } else if t.kind_of(c) == "object_creation_expression"@ {
        match field_child(t, c, "type"@) {
            Some(x) => raws.push(java_edge(caller, EdgeKind::References, t.text_of(x), line)),
            None => raws,
        }
    } else {
        raws
    }
}

/// The call edges of the calls below `n`, in document order, appended to `raws`.
pub open spec fn java_calls(t: SyntaxTree, n: int, caller: NodeId, class: Option<Seq<char>>, raws: Seq<RawEdgeView>) -> Seq<
    RawEdgeView,
>
    decreases t.size() - n, 1int, 0int,
{
    java_calls_from(t, n, 0, caller, class, raws)
}

pub open spec fn java_calls_from(
    t: SyntaxTree,
    n: int,
    i: int,
    caller: NodeId,
    class: Option<Seq<char>>,
    raws: Seq<RawEdgeView>,
) -> Seq<RawEdgeView>
    decreases t.size() - n, 0int, t.children_of(n).len() - i,
{
    let kids = t.children_of(n);
    if i < 0 || i >= kids.len() || !(n < kids[i] < t.size()) {
        raws
    } else {
        let c = kids[i];
        java_calls_from(t, n, i + 1, caller, class, java_calls(t, c, caller, class, java_call_edge(t, c, caller, class, raws)))
    }
}

pub open spec fn java_walk(
    t: SyntaxTree,
    n: int,
    path: Seq<char>,
    parent: NodeId,
    class: Option<Seq<char>>,
    acc: (Seq<SymbolView>, Seq<RawEdgeView>),
) -> (Seq<SymbolView>, Seq<RawEdgeView>)
    decreases t.size() - n, 2int, 0int,
{
    java_walk_from(t, n, 0, path, parent, class, acc)
}

pub open spec fn java_walk_from(
    t: SyntaxTree,
    n: int,
    i: int,
    path: Seq<char>,
    parent: NodeId,
    class: Option<Seq<char>>,
    acc: (Seq<SymbolView>, Seq<RawEdgeView>),
) -> (Seq<SymbolView>, Seq<RawEdgeView>)
    decreases t.size() - n, 1int, t.children_of(n).len() - i,
{
    let kids = t.children_of(n);
    if i < 0 || i >= kids.len() || !(n < kids[i] < t.size()) {
        acc
    } else {
        java_walk_from(t, n, i + 1, path, parent, class, java_item(t, kids[i], path, parent, class, acc))
    }
}

/// One declaration: packages, imports, types, methods, constructors and
/// fields; any other node has its children walked.
pub open spec fn java_item(
    t: SyntaxTree,
    c: int,
    path: Seq<char>,
    parent: NodeId,
    class: Option<Seq<char>>,
    acc: (Seq<SymbolView>, Seq<RawEdgeView>),
) -> (Seq<SymbolView>, Seq<RawEdgeView>)
    decreases t.size() - c, 4int, 0int,
{
    let k = t.kind_of(c);
    if k == "package_declaration"@ {
        (java_package(t, c, path, parent, acc.0), acc.1)
    } else if k == "import_declaration"@ {
        java_import(t, c, path, parent, acc)
    } else if k == "class_declaration"@ {
        java_type(t, c, path, parent, SymbolKind::Class, "class "@, acc)
    } else if k == "interface_declaration"@ {
        java_type(t, c, path, parent, SymbolKind::Interface, "interface "@, acc)
    } else if k == "enum_declaration"@ {
        java_type(t, c, path, parent, SymbolKind::Enum, "enum "@, acc)
    } else if k == "record_declaration"@ {
        java_type(t, c, path, parent, SymbolKind::Record, "record "@, acc)
    } else if k == "annotation_type_declaration"@ {
        java_type(t, c, path, parent, SymbolKind::Interface, "@interface "@, acc)
    } else if k == "method_declaration"@ {
        java_method(t, c, path, parent, class, false, acc)
    } else if k == "constructor_declaration"@ {
        java_method(t, c, path, parent, class, true, acc)
    } else if k == "field_declaration"@ {
        (java_fields(t, c, t.children_of(c), 0, path, parent, acc.0), acc.1)
    } else {
        java_walk(t, c, path, parent, class, acc)
    }
}

/// The symbols and raw edges of a Java file: its `File` symbol, then the
/// declarations of the tree in document order.
pub open spec fn java_extraction(t: SyntaxTree, path: Seq<char>) -> (Seq<SymbolView>, Seq<RawEdgeView>) {
    let f = file_symbol(path, Language::Java, t.source@);
    java_walk(t, 0, path, f.id, None, (seq![f], Seq::<RawEdgeView>::empty()))
}

/// The visibility a `modifiers` child gives (by kind or by text); package
/// private (internal) when none does.
fn extract_java_visibility(tree: &SyntaxTree, node: usize) -> (r: Visibility)
    requires
        tree.wf(),
        node < tree.size(),
    ensures
        r == java_visibility(*tree, node as int),
{
    let kids = tree.children(node);
    let ghost ks = kids@.map_values(|x: usize| x as int);
    let mut k: usize = 0;
    while k < kids.len()
        invariant
            tree.wf(),
            ks == kids@.map_values(|x: usize| x as int),
            ks == tree.children_of(node as int),
            forall|m: int| 0 <= m < kids@.len() ==> node < #[trigger] kids@[m] < tree.size(),
            java_visibility_from(*tree, ks, k as int) == java_visibility(*tree, node as int),
        decreases kids@.len() - k,
    {
        let child = kids[k];
        proof {
            assert(ks[k as int] == child as int);
        }
        if tree.is_kind(child, "modifiers") {
            let mods = tree.children(child);
            let ghost ms = mods@.map_values(|x: usize| x as int);
            let mut j: usize = 0;
            while j < mods.len()
                invariant
                    tree.wf(),
                    ms == mods@.map_values(|x: usize| x as int),
                    ms == tree.children_of(child as int),
                    forall|m: int| 0 <= m < mods@.len() ==> child < #[trigger] mods@[m] < tree.size(),
                    java_modifier_from(*tree, ms, j as int) == java_modifier_from(*tree, ms, 0),
                    tree.kind_of(child as int) == "modifiers"@,
                    ks[k as int] == child as int,
                    k < ks.len(),
                    java_visibility_from(*tree, ks, k as int) == java_visibility(*tree, node as int),
                decreases mods@.len() - j,
            {
                let m = mods[j];
                proof {
                    assert(ms[j as int] == m as int);
                }
                if tree.is_kind(m, "public") {
                    return Visibility::Public;
                } else if tree.is_kind(m, "private") {
                    return Visibility::Private;
                } else if tree.is_kind(m, "protected") {
                    return Visibility::Protected;
                } else {
                    let t = tree.text(m);
                    if str_eq(t.as_str(), "public") {
                        return Visibility::Public;
                    } else if str_eq(t.as_str(), "private") {
                        return Visibility::Private;
                    } else if str_eq(t.as_str(), "protected") {
                        return Visibility::Protected;
                    }
                }
                j = j + 1;
            }
        }
        k = k + 1;
    }
    Visibility::Internal
}

/// The type names inside a `superclass`, `interfaces` or `extends_interfaces`
/// node, in order.
fn collect_type_names(tree: &SyntaxTree, node: usize, acc: &mut Vec<String>)
    requires
        tree.wf(),
        node < tree.size(),
    ensures
        final(acc)@.map_values(|s: String| s@) == old(acc)@.map_values(|s: String| s@) + java_type_names(
            *tree,
            node as int,
        ),
    decreases tree.size() - node,
{
    let ghost start = acc@.map_values(|s: String| s@);
    let kids = tree.children(node);
    let mut k: usize = 0;
    proof {
        assert(start + Seq::<Seq<char>>::empty() =~= start);
    }
    while k < kids.len()
        invariant
            tree.wf(),
            node < tree.size(),
            forall|m: int| 0 <= m < kids@.len() ==> node < #[trigger] kids@[m] < tree.size(),
            kids@.map_values(|x: usize| x as int) == tree.children_of(node as int),
            acc@.map_values(|s: String| s@) + java_type_names_from(*tree, node as int, k as int) == start
                + java_type_names(*tree, node as int),
        decreases kids@.len() - k,
    {
        let child = kids[k];
        proof {
            assert(tree.children_of(node as int)[k as int] == child as int);
        }
        let ghost before = acc@.map_values(|s: String| s@);
        let ghost here: Seq<Seq<char>>;
        if tree.is_kind(child, "type_identifier") {
            acc.push(tree.text(child));
            proof {
                here = seq![tree.text_of(child as int)];

            }
        } else if tree.is_kind(child, "generic_type") {
            match tree.child_by_field(child, "name") {
                Some(n) => {
                    acc.push(tree.text(n));
                    proof {
                        here = seq![tree.text_of(n as int)];
                    }
                },
                None => match tree.find_child_by_kind(child, "type_identifier") {
                    Some(t) => {
                        acc.push(tree.text(t));
                        proof {
                            here = seq![tree.text_of(t as int)];
                        }
                    },
                    None => {
                        proof {
                            here = seq![];
                        }
                    },
                },
            }
        } else if tree.is_kind(child, "scoped_type_identifier") {
            acc.push(tree.text(child));
            proof {
                here = seq![tree.text_of(child as int)];
            }
        } else {
            collect_type_names(tree, child, acc);
            proof {
                here = java_type_names(*tree, child as int);
            }
        }
        proof {
            assert(acc@.map_values(|s: String| s@) =~= before + here);
            assert(java_type_names_from(*tree, node as int, k as int) == here + java_type_names_from(
                *tree,
                node as int,
                k + 1,
            ));
            assert(before + java_type_names_from(*tree, node as int, k as int) =~= before + here
                + java_type_names_from(*tree, node as int, k + 1));
        }
        k = k + 1;
    }
}

/// Edges of `kind` from `id` to the types named in the field `field` of `node`.
fn heritage_edges(
    tree: &SyntaxTree,
    node: usize,
    field: &str,
    path: &str,
    id: NodeId,
    kind: EdgeKind,
    out: &mut ExtractResult,
)
    requires
        walk_ready(tree, node, path@, Language::Java, old(out), id),
    ensures
        walk_kept(old(out), final(out), path@, Language::Java),
        final(out).syms() == old(out).syms(),
        final(out).raws() == java_heritage(*tree, node as int, field@, id, kind, old(out).raws()),
{
    if let Some(f) = tree.child_by_field(node, field) {
        let mut names: Vec<String> = Vec::new();
        collect_type_names(tree, f, &mut names);
        let ghost ns = names@.map_values(|s: String| s@);
        proof {
            assert(ns =~= java_type_names(*tree, f as int));
        }
        let line = tree.start_row(f);
        let ghost goal = java_name_edges(ns, 0, id, kind, line, out.raws());
        let mut k: usize = 0;
        while k < names.len()
            invariant
                has_id(out.syms(), id),
                walk_kept(old(out), out, path@, Language::Java),
                out.syms() == old(out).syms(),
                ns == names@.map_values(|s: String| s@),
                java_name_edges(ns, k as int, id, kind, line, out.raws()) == goal,
            decreases names@.len() - k,
        {
            let e = make_edge(id, kind, names[k].clone(), line);
            proof {
                assert(ns[k as int] == names@[k as int]@);
            }
            out.add_edge(e, Ghost(path@), Ghost(Language::Java));
            k = k + 1;
        }
    }
}

fn walk_java(
    tree: &SyntaxTree,
    node: usize,
    path: &str,
    parent_id: NodeId,
    class_name: &Option<String>,
    out: &mut ExtractResult,
)
    requires
        walk_ready(tree, node, path@, Language::Java, old(out), parent_id),
    ensures
        walk_kept(old(out), final(out), path@, Language::Java),
        (final(out).syms(), final(out).raws()) == java_walk(
            *tree,
            node as int,
            path@,
            parent_id,
            opt_view(*class_name),
            (old(out).syms(), old(out).raws()),
        ),
    decreases tree.size() - node, 1nat,
{
    let ghost goal = java_walk(*tree, node as int, path@, parent_id, opt_view(*class_name), (out.syms(), out.raws()));
    let kids = tree.children(node);
    let mut k: usize = 0;
    while k < kids.len()
        invariant
            tree.wf(),
            node < tree.size(),
            forall|m: int| 0 <= m < kids@.len() ==> node < #[trigger] kids@[m] < tree.size(),
            kids@.map_values(|x: usize| x as int) == tree.children_of(node as int),
            has_id(old(out).syms(), parent_id),
            walk_kept(old(out), out, path@, Language::Java),
            java_walk_from(
                *tree,
                node as int,
                k as int,
                path@,
                parent_id,
                opt_view(*class_name),
                (out.syms(), out.raws()),
            ) == goal,
        decreases kids@.len() - k,
    {
        let child = kids[k];
        proof {
            assert(tree.children_of(node as int)[k as int] == child as int);
        }
        java_item_exec(tree, child, path, parent_id, class_name, out);
        k = k + 1;
    }
}

fn java_item_exec(
    tree: &SyntaxTree,
    child: usize,
    path: &str,
    parent_id: NodeId,
    class_name: &Option<String>,
    out: &mut ExtractResult,
)
    requires
        walk_ready(tree, child, path@, Language::Java, old(out), parent_id),
    ensures
        walk_kept(old(out), final(out), path@, Language::Java),
        (final(out).syms(), final(out).raws()) == java_item(
            *tree,
            child as int,
            path@,
            parent_id,
            opt_view(*class_name),
            (old(out).syms(), old(out).raws()),
        ),
    decreases tree.size() - child, 3nat,
{
    if tree.is_kind(child, "package_declaration") {
        extract_java_package(tree, child, path, parent_id, out);
    } else if tree.is_kind(child, "import_declaration") {
        extract_java_import(tree, child, path, parent_id, out);
    } else if tree.is_kind(child, "class_declaration") {
        extract_java_type(tree, child, path, parent_id, SymbolKind::Class, "class ", out);
    } else if tree.is_kind(child, "interface_declaration") {
        extract_java_type(tree, child, path, parent_id, SymbolKind::Interface, "interface ", out);
    } else if tree.is_kind(child, "enum_declaration") {
        extract_java_type(tree, child, path, parent_id, SymbolKind::Enum, "enum ", out);
    } else if tree.is_kind(child, "record_declaration") {
        extract_java_type(tree, child, path, parent_id, SymbolKind::Record, "record ", out);
    } else if tree.is_kind(child, "annotation_type_declaration") {
        extract_java_type(tree, child, path, parent_id, SymbolKind::Interface, "@interface ", out);
    } else if tree.is_kind(child, "method_declaration") {
        extract_java_method(tree, child, path, parent_id, class_name, false, out);
    } else if tree.is_kind(child, "constructor_declaration") {
        extract_java_method(tree, child, path, parent_id, class_name, true, out);
    } else if tree.is_kind(child, "field_declaration") {
        extract_java_field(tree, child, path, parent_id, out);
    } else {
        walk_java(tree, child, path, parent_id, class_name, out);
    }
}

fn extract_java_package(tree: &SyntaxTree, node: usize, path: &str, parent_id: NodeId, out: &mut ExtractResult)
    requires
        walk_ready(tree, node, path@, Language::Java, old(out), parent_id),
    ensures
        walk_kept(old(out), final(out), path@, Language::Java),
        final(out).raws() == old(out).raws(),
        final(out).syms() == java_package(*tree, node as int, path@, parent_id, old(out).syms()),
{
    let kinds = ["scoped_identifier", "identifier"];
    proof {
        assert(kinds@.map_values(|k: &str| k@) =~= seq!["scoped_identifier"@, "identifier"@]);
    }
    let n = match tree.find_child_by_any_kind(node, &kinds) {
        Some(c) => c,
        None => {
            return;
        },
    };
    let name = tree.text(n);
    if chars_of(name.as_str()).len() == 0 {
        return;
    }
    let sig = cat2("package ", name.as_str());
    let s = make_symbol(
        path,
        name,
        SymbolKind::Package,
        rows(tree, node),
        Some(sig),
        Visibility::Public,
        Language::Java,
        Some(parent_id),
    );
    out.add_symbol(s, path, Language::Java);
}

fn extract_java_import(tree: &SyntaxTree, node: usize, path: &str, parent_id: NodeId, out: &mut ExtractResult)
    requires
        walk_ready(tree, node, path@, Language::Java, old(out), parent_id),
    ensures
        walk_kept(old(out), final(out), path@, Language::Java),
        (final(out).syms(), final(out).raws()) == java_import(
            *tree,
            node as int,
            path@,
            parent_id,
            (old(out).syms(), old(out).raws()),
        ),
{
    let text = string_of(&trim_chars(&tree.text_chars(node)));
    let s = make_symbol(
        path,
        text.clone(),
        SymbolKind::Import,
        rows(tree, node),
        Some(text.clone()),
        Visibility::Public,
        Language::Java,
        Some(parent_id),
    );
    out.add_symbol(s, path, Language::Java);
    let e = make_edge(parent_id, EdgeKind::Imports, text, tree.start_row(node));
    out.add_edge(e, Ghost(path@), Ghost(Language::Java));
}

/// A class, interface, enum, record or annotation type, with its heritage;
/// an enum's constants become variants; members are walked with it as the class.
fn extract_java_type(
    tree: &SyntaxTree,
    node: usize,
    path: &str,
    parent_id: NodeId,
    kind: SymbolKind,
    keyword: &str,
    out: &mut ExtractResult,
)
    requires
        walk_ready(tree, node, path@, Language::Java, old(out), parent_id),
    ensures
        walk_kept(old(out), final(out), path@, Language::Java),
        (final(out).syms(), final(out).raws()) == java_type(
            *tree,
            node as int,
            path@,
            parent_id,
            kind,
            keyword@,
            (old(out).syms(), old(out).raws()),
        ),
    decreases tree.size() - node, 2nat,
{
    let name_node = match tree.child_by_field(node, "name") {
        Some(n) => n,
        None => {
            return;
        },
    };
    let name = tree.text(name_node);
    let sig = cat2(keyword, name.as_str());
    let vis = extract_java_visibility(tree, node);
    let s = make_symbol(
        path,
        name.clone(),
        kind,
        rows(tree, node),
        Some(sig),
        vis,
        Language::Java,
        Some(parent_id),
    );
    let id = s.id;
    out.add_symbol(s, path, Language::Java);
    let ghost syms1 = out.syms();
    let is_class = tree.is_kind(node, "class_declaration");
    let is_iface = tree.is_kind(node, "interface_declaration");
    let is_enum = tree.is_kind(node, "enum_declaration");
    let is_record = tree.is_kind(node, "record_declaration");
    if is_class {
        heritage_edges(tree, node, "superclass", path, id, EdgeKind::Extends, out);
    }
    if is_iface {
        heritage_edges(tree, node, "extends_interfaces", path, id, EdgeKind::Extends, out);
    }
    if is_class || is_enum || is_record {
        heritage_edges(tree, node, "interfaces", path, id, EdgeKind::Implements, out);
    }
    if let Some(body) = tree.child_by_field(node, "body") {
        if is_enum {
            let kids = tree.children(body);
            let ghost ks = kids@.map_values(|x: usize| x as int);
            let ghost goal = java_enum_constants(*tree, ks, 0, path@, id, out.syms());
            let ghost raws2 = out.raws();
            let mut k: usize = 0;
            while k < kids.len()
                invariant
                    tree.wf(),
                    ks == kids@.map_values(|x: usize| x as int),
                    forall|m: int| 0 <= m < kids@.len() ==> body < #[trigger] kids@[m] < tree.size(),
                    has_id(old(out).syms(), parent_id),
                    has_id(out.syms(), id),
                    walk_kept(old(out), out, path@, Language::Java),
                    out.raws() == raws2,
                    java_enum_constants(*tree, ks, k as int, path@, id, out.syms()) == goal,
                decreases kids@.len() - k,
            {
                let child = kids[k];
                proof {
                    assert(ks[k as int] == child as int);
                }
                if tree.is_kind(child, "enum_constant") {
                    if let Some(ec) = tree.child_by_field(child, "name") {
                        let s = make_symbol(
                            path,
                            tree.text(ec),
                            SymbolKind::EnumVariant,
                            rows(tree, child),
                            None,
                            Visibility::Public,
                            Language::Java,
                            Some(id),
                        );
                        out.add_symbol(s, path, Language::Java);
                    }
                }
                k = k + 1;
            }
            proof {
                assert(tree.children_of(body as int) == ks);
            }
        }
        walk_java(tree, body, path, id, &Some(name), out);
    }
}

/// A method, or (`is_ctor`) a constructor, of the class `class_name`.
fn extract_java_method(
    tree: &SyntaxTree,
    node: usize,
    path: &str,
    parent_id: NodeId,
    class_name: &Option<String>,
    is_ctor: bool,
    out: &mut ExtractResult,
)
    requires
        walk_ready(tree, node, path@, Language::Java, old(out), parent_id),
    ensures
        walk_kept(old(out), final(out), path@, Language::Java),
        (final(out).syms(), final(out).raws()) == java_method(
            *tree,
            node as int,
            path@,
            parent_id,
            opt_view(*class_name),
            is_ctor,
            (old(out).syms(), old(out).raws()),
        ),
{
    let name_node = match tree.child_by_field(node, "name") {
        Some(n) => n,
        None => {
            return;
        },
    };
    let name = tree.text(name_node);
    let params = match tree.child_by_field(node, "parameters") {
        Some(p) => tree.text(p),
        None => "()".to_string(),
    };
    let (kind, qualified, sig) = if is_ctor {
        (
            SymbolKind::Constructor,
            match class_name {
                Some(cn) => cat2(cn.as_str(), "..ctor"),
                None => name.clone(),
            },
            cat2(name.as_str(), params.as_str()),
        )
    } else {
        let return_type = match tree.child_by_field(node, "type") {
            Some(t) => tree.text(t),
            None => "void".to_string(),
        };
        (
            SymbolKind::Method,
            match class_name {
                Some(cn) => cat3(cn.as_str(), ".", name.as_str()),
                None => name.clone(),
            },
            cat3(return_type.as_str(), " ", cat2(name.as_str(), params.as_str()).as_str()),
        )
    };
    let vis = extract_java_visibility(tree, node);
    let s = make_symbol(
        path,
        qualified,
        kind,
        rows(tree, node),
        Some(sig),
        vis,
        Language::Java,
        Some(parent_id),
    );
    let id = s.id;
    out.add_symbol(s, path, Language::Java);
    if let Some(body) = tree.child_by_field(node, "body") {
        extract_java_calls(tree, body, path, id, class_name, out);
    }
}

fn extract_java_field(tree: &SyntaxTree, node: usize, path: &str, parent_id: NodeId, out: &mut ExtractResult)
    requires
        walk_ready(tree, node, path@, Language::Java, old(out), parent_id),
    ensures
        walk_kept(old(out), final(out), path@, Language::Java),
        final(out).raws() == old(out).raws(),
        final(out).syms() == java_fields(*tree, node as int, tree.children_of(node as int), 0, path@, parent_id, old(out).syms()),
{
    proof {
        reveal_strlit("");
    }
    let field_type = match tree.child_by_field(node, "type") {
        Some(t) => tree.text(t),
        None => String::new(),
    };
    let vis = extract_java_visibility(tree, node);
    let kids = tree.children(node);
    let ghost ks = kids@.map_values(|x: usize| x as int);
    let ghost goal = java_fields(*tree, node as int, ks, 0, path@, parent_id, out.syms());
    let mut k: usize = 0;
    while k < kids.len()
        invariant
            tree.wf(),
            node < tree.size(),
            ks == kids@.map_values(|x: usize| x as int),
            ks == tree.children_of(node as int),
            forall|m: int| 0 <= m < kids@.len() ==> node < #[trigger] kids@[m] < tree.size(),
            has_id(old(out).syms(), parent_id),
            walk_kept(old(out), out, path@, Language::Java),
            out.raws() == old(out).raws(),
            vis == java_visibility(*tree, node as int),
            field_type@ == (match field_child(*tree, node as int, "type"@) {
                Some(x) => tree.text_of(x),
                None => seq![],
            }),
            java_fields(*tree, node as int, ks, k as int, path@, parent_id, out.syms()) == goal,
        decreases kids@.len() - k,
    {
        let child = kids[k];
        proof {
            assert(ks[k as int] == child as int);
        }
        if tree.is_kind(child, "variable_declarator") {
            if let Some(vn) = tree.child_by_field(child, "name") {
                let var_name = tree.text(vn);
                let sig = cat3(field_type.as_str(), " ", var_name.as_str());
                let s = make_symbol(
                    path,
                    var_name,
                    SymbolKind::Field,
                    rows(tree, node),
                    Some(sig),
                    vis,
                    Language::Java,
                    Some(parent_id),
                );
                out.add_symbol(s, path, Language::Java);
            }
        }
        k = k + 1;
    }
}

/// The edge, if any, that node `child` makes itself.
fn java_call_edge_exec(
    tree: &SyntaxTree,
    child: usize,
    path: &str,
    caller_id: NodeId,
    class_name: &Option<String>,
    out: &mut ExtractResult,
)
    requires
        walk_ready(tree, child, path@, Language::Java, old(out), caller_id),
    ensures
        walk_kept(old(out), final(out), path@, Language::Java),
        final(out).symbols@ == old(out).symbols@,
        final(out).raws() == java_call_edge(*tree, child as int, caller_id, opt_view(*class_name), old(out).raws()),
{
    proof {
        reveal_strlit("");
    }
    let line = tree.start_row(child);
    if tree.is_kind(child, "method_invocation") {
        let name = match tree.child_by_field(child, "name") {
            Some(n) => tree.text(n),
            None => String::new(),
        };
        if chars_of(name.as_str()).len() > 0 {
            let raw = match tree.child_by_field(child, "object") {
                Some(obj) => cat3(tree.text(obj).as_str(), ".", name.as_str()),
                None => name,
            };
            let target = match class_name {
                Some(cn) => qualify_member_call(raw.as_str(), cn.as_str()),
                None => raw,
            };
            let e = make_edge(caller_id, EdgeKind::Calls, target, line);
            out.add_edge(e, Ghost(path@), Ghost(Language::Java));
        }
    } else if tree.is_kind(child, "object_creation_expression") {
        if let Some(t) = tree.child_by_field(child, "type") {
            let e = make_edge(caller_id, EdgeKind::References, tree.text(t), line);
            out.add_edge(e, Ghost(path@), Ghost(Language::Java));
        }
    }
}

fn extract_java_calls(
    tree: &SyntaxTree,
    node: usize,
    path: &str,
    caller_id: NodeId,
    class_name: &Option<String>,
    out: &mut ExtractResult,
)
    requires
        walk_ready(tree, node, path@, Language::Java, old(out), caller_id),
    ensures
        walk_kept(old(out), final(out), path@, Language::Java),
        final(out).symbols@ == old(out).symbols@,
        final(out).raws() == java_calls(*tree, node as int, caller_id, opt_view(*class_name), old(out).raws()),
    decreases tree.size() - node,
{
    let ghost cls = opt_view(*class_name);
    let ghost goal = java_calls(*tree, node as int, caller_id, cls, out.raws());
    let kids = tree.children(node);
    let mut k: usize = 0;
    while k < kids.len()
        invariant
            tree.wf(),
            node < tree.size(),
            forall|m: int| 0 <= m < kids@.len() ==> node < #[trigger] kids@[m] < tree.size(),
            kids@.map_values(|x: usize| x as int) == tree.children_of(node as int),
            has_id(old(out).syms(), caller_id),
            walk_kept(old(out), out, path@, Language::Java),
            out.symbols@ == old(out).symbols@,
            cls == opt_view(*class_name),
            java_calls_from(*tree, node as int, k as int, caller_id, cls, out.raws()) == goal,
        decreases kids@.len() - k,
    {
        let child = kids[k];
        proof {
            assert(tree.children_of(node as int)[k as int] == child as int);
        }
        java_call_edge_exec(tree, child, path, caller_id, class_name, out);
        extract_java_calls(tree, child, path, caller_id, class_name, out);
        k = k + 1;
    }
}

impl JavaExtractor {
    pub fn language(&self) -> (r: Language)
        ensures
            r == Language::Java,
    {
        Language::Java
    }

    /// The file extensions read as Java.
    pub fn file_extensions(&self) -> (r: Vec<&'static str>)
        ensures
            r@.len() == 1,
            r@[0]@ == "java"@,
    {
        let mut v: Vec<&'static str> = Vec::new();
        v.push("java");
        v
    }

    /// Extracts the symbols and raw edges of the Java file `path` from its
    /// tree: the `File` symbol first, then each declaration in document order
    /// as `java_extraction` states.
    pub fn extract(&self, tree: &SyntaxTree, path: &str) -> (r: ExtractResult)
        requires
            tree.wf(),
        ensures
            extraction_of(r, path@, Language::Java, tree.source@),
            (r.syms(), r.raws()) == java_extraction(*tree, path@),
    {
        let mut out = start_extraction(tree, path, Language::Java);
        let file_id = out.symbols[0].id;
        proof {
            assert(out.syms()[0].id == file_id);
            assert(out.raws() =~= Seq::<RawEdgeView>::empty());
        }
        walk_java(tree, 0, path, file_id, &None, &mut out);
        out
    }
}

} // verus!

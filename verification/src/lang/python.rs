//! Python: functions, classes (with their base classes), methods and
//! constructors qualified with their class, `import` and `from ... import`
//! statements; calls inside function bodies (`self.m` qualified with the class).
use vstd::prelude::*;
use crate::text::{chars_of, string_of, str_eq, trim_chars, trim_ws, cat2, cat3, cat4};
use crate::symbol::{SymbolKind, SymbolView, Language, Visibility, NodeId, opt_view};
use crate::relation::{RawEdge, RawEdgeView, EdgeKind};
use crate::graph::has_id;
use crate::syntax::SyntaxTree;
use crate::extract::{
    ExtractResult, make_symbol, make_edge, start_extraction, extraction_of, walk_ready, walk_kept,
    rows, qualify_member_call, symbol_at, member_call_of, file_symbol, field_child, node_rows,
};

verus! {

/// Extracts Python symbols.
pub struct PythonExtractor;

/// A leading single underscore marks a private name (a double one does not).
pub open spec fn py_visibility_of(name: Seq<char>) -> Visibility {
    if name.len() >= 1 && name[0] == '_' && !(name.len() >= 2 && name[1] == '_') {
        Visibility::Private
    } else {
        Visibility::Public
    }
}

fn py_visibility(name: &str) -> (r: Visibility)
    ensures
        r == py_visibility_of(name@),
{
    let v = chars_of(name);
    if v.len() >= 1 && v[0] == '_' && !(v.len() >= 2 && v[1] == '_') {
        Visibility::Private
    } else {
        Visibility::Public
    }
}

// ---------------------------------------------------------------------------
// What a Python file yields.
// ---------------------------------------------------------------------------

/// The target a call is recorded under: inside a class, `self.m` becomes
/// `Class.m`.
pub open spec fn py_call_target(raw: Seq<char>, class: Option<Seq<char>>) -> Seq<char> {
    match class {
        Some(cn) => member_call_of(raw, cn),
        None => raw,
    }
}

/// The call edges of the calls below `n`, in document order, appended to `raws`.
pub open spec fn py_calls(
    t: SyntaxTree,
    n: int,
    caller: NodeId,
    class: Option<Seq<char>>,
    raws: Seq<RawEdgeView>,
) -> Seq<RawEdgeView>
    decreases t.size() - n, 1int, 0int,
{
    py_calls_from(t, n, 0, caller, class, raws)
}

/// `py_calls` over the children of `n` from the `i`-th on.
pub open spec fn py_calls_from(
    t: SyntaxTree,
    n: int,
    i: int,
    caller: NodeId,
    class: Option<Seq<char>>,
    raws: Seq<RawEdgeView>,
) -> Seq<RawEdgeView>
    decreases t.size() - n, 0int, t.children_of(n).len() - i,
{
    let kids = t.children_of(n);
    if i < 0 || i >= kids.len() || !(n < kids[i] < t.size()) {
        raws
    } else {
        let c = kids[i];
        let with_call = if t.kind_of(c) == "call"@ {
            match field_child(t, c, "function"@) {
                Some(f) => raws.push(
                    RawEdgeView {
                        source: caller,
                        kind: EdgeKind::Calls,
                        target_name: py_call_target(t.text_of(f), class),
                        target_module: None,
                        source_line: t.start_rows@[c],
                    },
                ),
                None => raws,
            }
        } else {
            raws
        };
        py_calls_from(t, n, i + 1, caller, class, py_calls(t, c, caller, class, with_call))
    }
}

/// The kind of a function: a constructor (`__init__`) or a method inside a
/// class, else a function.
pub open spec fn py_function_kind(name: Seq<char>, class: Option<Seq<char>>) -> SymbolKind {
    if class is Some && name == "__init__"@ {
        SymbolKind::Constructor
    } else if class is Some {
        SymbolKind::Method
    } else {
        SymbolKind::Function
    }
}

/// The symbol of the function `n` named `name`.
pub open spec fn py_function_symbol(
    t: SyntaxTree,
    n: int,
    name: Seq<char>,
    path: Seq<char>,
    parent: NodeId,
    class: Option<Seq<char>>,
) -> SymbolView {
    let params = match field_child(t, n, "parameters"@) {
        Some(p) => t.text_of(p),
        None => "()"@,
    };
    let ret = match field_child(t, n, "return_type"@) {
        Some(r) => " -> "@ + t.text_of(r),
        None => Seq::<char>::empty(),
    };
    let qualified = match class {
        Some(cn) => cn + "."@ + name,
        None => name,
    };
    symbol_at(
        path,
        qualified,
        py_function_kind(name, class),
        node_rows(t, n),
        Some("def "@ + name + params + ret),
        py_visibility_of(name),
        Language::Python,
        Some(parent),
    )
}

/// A function definition: its symbol, then the calls in its body.
pub open spec fn py_function(
    t: SyntaxTree,
    n: int,
    path: Seq<char>,
    parent: NodeId,
    class: Option<Seq<char>>,
    acc: (Seq<SymbolView>, Seq<RawEdgeView>),
) -> (Seq<SymbolView>, Seq<RawEdgeView>) {
    match field_child(t, n, "name"@) {
        None => acc,
        Some(nm) => {
            let s = py_function_symbol(t, n, t.text_of(nm), path, parent, class);
            let raws = match field_child(t, n, "body"@) {
                Some(b) => py_calls(t, b, s.id, class, acc.1),
                None => acc.1,
            };
            (acc.0.push(s), raws)
        },
    }
}

/// An import statement: an `Import` symbol and an edge from the parent; for
/// `from m import ...` the module `m` is the edge's module hint.
pub open spec fn py_import(
    t: SyntaxTree,
    n: int,
    path: Seq<char>,
    parent: NodeId,
    from: bool,
    acc: (Seq<SymbolView>, Seq<RawEdgeView>),
) -> (Seq<SymbolView>, Seq<RawEdgeView>) {
    let text = trim_ws(t.text_of(n));
    let module = if from {
        match field_child(t, n, "module_name"@) {
            Some(m) => Some(t.text_of(m)),
            None => None,
        }
    } else {
        None
    };
    (
        acc.0.push(
            symbol_at(
                path,
                text,
                SymbolKind::Import,
                node_rows(t, n),
                Some(text),
                Visibility::Public,
                Language::Python,
                Some(parent),
            ),
        ),
        acc.1.push(
            RawEdgeView {
                source: parent,
                kind: EdgeKind::Imports,
                target_name: text,
                target_module: module,
                source_line: t.start_rows@[n],
            },
        ),
    )
}

/// The base classes among the children of `args` from the `i`-th on: an
/// `Extends` edge from the class for each named child.
pub open spec fn py_bases(t: SyntaxTree, args: int, i: int, class_id: NodeId, raws: Seq<RawEdgeView>) -> Seq<
    RawEdgeView,
>
    decreases t.children_of(args).len() - i,
{
    let kids = t.children_of(args);
    if i < 0 || i >= kids.len() {
        raws
    } else {
        let c = kids[i];
        let next = if t.named@[c] {
            raws.push(
                RawEdgeView {
                    source: class_id,
                    kind: EdgeKind::Extends,
                    target_name: t.text_of(c),
                    target_module: None,
                    source_line: t.start_rows@[c],
                },
            )
        } else {
            raws
        };
        py_bases(t, args, i + 1, class_id, next)
    }
}

/// The symbols and edges of the statements below `n`.
pub open spec fn py_walk(
    t: SyntaxTree,
    n: int,
    path: Seq<char>,
    parent: NodeId,
    class: Option<Seq<char>>,
    acc: (Seq<SymbolView>, Seq<RawEdgeView>),
) -> (Seq<SymbolView>, Seq<RawEdgeView>)
    decreases t.size() - n, 2int, 0int,
{
    py_walk_from(t, n, 0, path, parent, class, acc)
}

/// `py_walk` over the children of `n` from the `i`-th on.
pub open spec fn py_walk_from(
    t: SyntaxTree,
    n: int,
    i: int,
    path: Seq<char>,
    parent: NodeId,
    class: Option<Seq<char>>,
    acc: (Seq<SymbolView>, Seq<RawEdgeView>),
) -> (Seq<SymbolView>, Seq<RawEdgeView>)
    decreases t.size() - n, 1int, t.children_of(n).len() - i,
{
    let kids = t.children_of(n);
    if i < 0 || i >= kids.len() || !(n < kids[i] < t.size()) {
        acc
    } else {
        py_walk_from(t, n, i + 1, path, parent, class, py_item(t, kids[i], path, parent, class, acc))
    }
}

/// One child statement: a function, a class, an import, or a node whose own
/// children are walked.
pub open spec fn py_item(
    t: SyntaxTree,
    c: int,
    path: Seq<char>,
    parent: NodeId,
    class: Option<Seq<char>>,
    acc: (Seq<SymbolView>, Seq<RawEdgeView>),
) -> (Seq<SymbolView>, Seq<RawEdgeView>)
    decreases t.size() - c, 4int, 0int,
{
    let k = t.kind_of(c);
    if k == "function_definition"@ {
        py_function(t, c, path, parent, class, acc)
    } else if k == "class_definition"@ {
        py_class(t, c, path, parent, acc)
    } else if k == "import_statement"@ {
        py_import(t, c, path, parent, false, acc)
    } else if k == "import_from_statement"@ {
        py_import(t, c, path, parent, true, acc)
    } else {
        py_walk(t, c, path, parent, class, acc)
    }
}

/// A class definition: its symbol, its base classes, then its body with the
/// class as parent and context.
pub open spec fn py_class(
    t: SyntaxTree,
    c: int,
    path: Seq<char>,
    parent: NodeId,
    acc: (Seq<SymbolView>, Seq<RawEdgeView>),
) -> (Seq<SymbolView>, Seq<RawEdgeView>)
    decreases t.size() - c, 3int, 0int,
{
    match field_child(t, c, "name"@) {
        None => acc,
        Some(nm) => {
            let name = t.text_of(nm);
            let s = symbol_at(
                path,
                name,
                SymbolKind::Class,
                node_rows(t, c),
                Some("class "@ + name),
                Visibility::Public,
                Language::Python,
                Some(parent),
            );
            let raws = match field_child(t, c, "superclasses"@) {
                Some(a) => py_bases(t, a, 0, s.id, acc.1),
                None => acc.1,
            };
            match field_child(t, c, "body"@) {
                Some(b) => if c < b < t.size() {
                    py_walk(t, b, path, s.id, Some(name), (acc.0.push(s), raws))
                } else {
                    (acc.0.push(s), raws)
                },
                None => (acc.0.push(s), raws),
            }
        },
    }
}

/// The symbols and raw edges of a Python file: its `File` symbol, then the
/// statements of the tree in document order.
pub open spec fn python_extraction(t: SyntaxTree, path: Seq<char>) -> (Seq<SymbolView>, Seq<RawEdgeView>) {
    let f = file_symbol(path, Language::Python, t.source@);
    py_walk(t, 0, path, f.id, None, (seq![f], Seq::<RawEdgeView>::empty()))
}

fn walk_python(
    tree: &SyntaxTree,
    node: usize,
    path: &str,
    parent_id: NodeId,
    class_name: &Option<String>,
    out: &mut ExtractResult,
)
    requires
        walk_ready(tree, node, path@, Language::Python, old(out), parent_id),
    ensures
        walk_kept(old(out), final(out), path@, Language::Python),
        (final(out).syms(), final(out).raws()) == py_walk(
            *tree,
            node as int,
            path@,
            parent_id,
            opt_view(*class_name),
            (old(out).syms(), old(out).raws()),
        ),
    decreases tree.size() - node, 1nat,
{
    let ghost cls = opt_view(*class_name);
    let ghost goal = py_walk(*tree, node as int, path@, parent_id, cls, (out.syms(), out.raws()));
    let kids = tree.children(node);
    let mut k: usize = 0;
    while k < kids.len()
        invariant
            tree.wf(),
            node < tree.size(),
            forall|m: int| 0 <= m < kids@.len() ==> node < #[trigger] kids@[m] < tree.size(),
            kids@.map_values(|x: usize| x as int) == tree.children_of(node as int),
            has_id(old(out).syms(), parent_id),
            walk_kept(old(out), out, path@, Language::Python),
            cls == opt_view(*class_name),
            py_walk_from(*tree, node as int, k as int, path@, parent_id, cls, (out.syms(), out.raws()))
                == goal,
        decreases kids@.len() - k,
    {
        let child = kids[k];
        let ghost before = (out.syms(), out.raws());
        proof {
            assert(tree.children_of(node as int)[k as int] == child as int);
        }
        if tree.is_kind(child, "function_definition") {
            extract_py_function(tree, child, path, parent_id, class_name, out);
        } else if tree.is_kind(child, "class_definition") {
            extract_py_class(tree, child, path, parent_id, out);
        } else if tree.is_kind(child, "import_statement") {
            extract_py_import(tree, child, path, parent_id, false, out);
        } else if tree.is_kind(child, "import_from_statement") {
            extract_py_import(tree, child, path, parent_id, true, out);
        } else {
            walk_python(tree, child, path, parent_id, class_name, out);
        }
        proof {
            assert((out.syms(), out.raws()) == py_item(*tree, child as int, path@, parent_id, cls, before));
        }
        k = k + 1;
    }
}

fn extract_py_function(
    tree: &SyntaxTree,
    node: usize,
    path: &str,
    parent_id: NodeId,
    class_name: &Option<String>,
    out: &mut ExtractResult,
)
    requires
        walk_ready(tree, node, path@, Language::Python, old(out), parent_id),
    ensures
        walk_kept(old(out), final(out), path@, Language::Python),
        (final(out).syms(), final(out).raws()) == py_function(
            *tree,
            node as int,
            path@,
            parent_id,
            opt_view(*class_name),
            (old(out).syms(), old(out).raws()),
        ),
{
    let name_node = match tree.child_by_field(node, "name") {
        Some(n) => n,
        None => {
            return;
        },
    };
    let name = tree.text(name_node);
    let params = match tree.child_by_field(node, "parameters") {
        Some(p) => tree.text(p),
        None => "()".to_string(),
    };
    let return_type = match tree.child_by_field(node, "return_type") {
        Some(r) => cat2(" -> ", tree.text(r).as_str()),
        None => String::new(),
    };
    let is_method = class_name.is_some();
    let kind = if is_method && str_eq(name.as_str(), "__init__") {
        SymbolKind::Constructor
    } else if is_method {
        SymbolKind::Method
    } else {
        SymbolKind::Function
    };
    let qualified = match class_name {
        Some(cn) => cat3(cn.as_str(), ".", name.as_str()),
        None => name.clone(),
    };
    let visibility = py_visibility(name.as_str());
    let sig = cat4("def ", name.as_str(), params.as_str(), return_type.as_str());
    let s = make_symbol(
        path,
        qualified,
        kind,
        rows(tree, node),
        Some(sig),
        visibility,
        Language::Python,
        Some(parent_id),
    );
    let id = s.id;
    proof {
        assert(s@ == py_function_symbol(
            *tree,
            node as int,
            tree.text_of(name_node as int),
            path@,
            parent_id,
            opt_view(*class_name),
        ));
    }
    out.add_symbol(s, path, Language::Python);
    if let Some(body) = tree.child_by_field(node, "body") {
        extract_py_calls(tree, body, path, id, class_name, out);
    }
}

fn extract_py_class(tree: &SyntaxTree, node: usize, path: &str, parent_id: NodeId, out: &mut ExtractResult)
    requires
        walk_ready(tree, node, path@, Language::Python, old(out), parent_id),
    ensures
        walk_kept(old(out), final(out), path@, Language::Python),
        (final(out).syms(), final(out).raws()) == py_class(
            *tree,
            node as int,
            path@,
            parent_id,
            (old(out).syms(), old(out).raws()),
        ),
    decreases tree.size() - node, 2nat,
{
    let name_node = match tree.child_by_field(node, "name") {
        Some(n) => n,
        None => {
            return;
        },
    };
    let name = tree.text(name_node);
    let sig = cat2("class ", name.as_str());
    let s = make_symbol(
        path,
        name.clone(),
        SymbolKind::Class,
        rows(tree, node),
        Some(sig),
        Visibility::Public,
        Language::Python,
        Some(parent_id),
    );
    let id = s.id;
    let ghost sv = s@;
    out.add_symbol(s, path, Language::Python);
    let ghost syms1 = out.syms();
    let ghost raws1 = out.raws();
    if let Some(args) = tree.child_by_field(node, "superclasses") {
        let kids = tree.children(args);
        let mut k: usize = 0;
        proof {
            assert(k == 0);
        }
        while k < kids.len()
            invariant
                tree.wf(),
                args < tree.size(),
                forall|m: int| 0 <= m < kids@.len() ==> args < #[trigger] kids@[m] < tree.size(),
                kids@.map_values(|x: usize| x as int) == tree.children_of(args as int),
                has_id(old(out).syms(), parent_id),
                has_id(out.syms(), id),
                walk_kept(old(out), out, path@, Language::Python),
                out.syms() == syms1,
                py_bases(*tree, args as int, k as int, id, out.raws()) == py_bases(
                    *tree,
                    args as int,
                    0,
                    id,
                    raws1,
                ),
            decreases kids@.len() - k,
        {
            let arg = kids[k];
            proof {
                assert(tree.children_of(args as int)[k as int] == arg as int);
            }
            if tree.is_named(arg) {
                let e = make_edge(id, EdgeKind::Extends, tree.text(arg), tree.start_row(arg));
                out.add_edge(e, Ghost(path@), Ghost(Language::Python));
            }
            k = k + 1;
        }
    }
    if let Some(body) = tree.child_by_field(node, "body") {
        walk_python(tree, body, path, id, &Some(name), out);
    }
}

/// An `import` statement, or (`from`) an `import ... from` statement whose
/// module becomes the edge's module hint.
fn extract_py_import(
    tree: &SyntaxTree,
    node: usize,
    path: &str,
    parent_id: NodeId,
    from: bool,
    out: &mut ExtractResult,
)
    requires
        walk_ready(tree, node, path@, Language::Python, old(out), parent_id),
    ensures
        walk_kept(old(out), final(out), path@, Language::Python),
        (final(out).syms(), final(out).raws()) == py_import(
            *tree,
            node as int,
            path@,
            parent_id,
            from,
            (old(out).syms(), old(out).raws()),
        ),
{
    let text = string_of(&trim_chars(&tree.text_chars(node)));
    let module_name = if from {
        match tree.child_by_field(node, "module_name") {
            Some(n) => Some(tree.text(n)),
            None => None,
        }
    } else {
        None
    };
    let line = tree.start_row(node);
    let s = make_symbol(
        path,
        text.clone(),
        SymbolKind::Import,
        rows(tree, node),
        Some(text.clone()),
        Visibility::Public,
        Language::Python,
        Some(parent_id),
    );
    out.add_symbol(s, path, Language::Python);
    let e = RawEdge {
        source: parent_id,
        kind: EdgeKind::Imports,
        target_name: text,
        target_module: module_name,
        source_line: line,
    };
    out.add_edge(e, Ghost(path@), Ghost(Language::Python));
}

fn extract_py_calls(
    tree: &SyntaxTree,
    node: usize,
    path: &str,
    caller_id: NodeId,
    class_name: &Option<String>,
    out: &mut ExtractResult,
)
    requires
        walk_ready(tree, node, path@, Language::Python, old(out), caller_id),
    ensures
        walk_kept(old(out), final(out), path@, Language::Python),
        final(out).symbols@ == old(out).symbols@,
        final(out).raws() == py_calls(
            *tree,
            node as int,
            caller_id,
            opt_view(*class_name),
            old(out).raws(),
        ),
    decreases tree.size() - node,
{
    let ghost cls = opt_view(*class_name);
    let ghost goal = py_calls(*tree, node as int, caller_id, cls, out.raws());
    let kids = tree.children(node);
    let mut k: usize = 0;
    while k < kids.len()
        invariant
            tree.wf(),
            node < tree.size(),
            forall|m: int| 0 <= m < kids@.len() ==> node < #[trigger] kids@[m] < tree.size(),
            kids@.map_values(|x: usize| x as int) == tree.children_of(node as int),
            has_id(old(out).syms(), caller_id),
            walk_kept(old(out), out, path@, Language::Python),
            out.symbols@ == old(out).symbols@,
            cls == opt_view(*class_name),
            py_calls_from(*tree, node as int, k as int, caller_id, cls, out.raws()) == goal,
        decreases kids@.len() - k,
    {
        let child = kids[k];
        proof {
            assert(tree.children_of(node as int)[k as int] == child as int);
        }
        if tree.is_kind(child, "call") {
            if let Some(func) = tree.child_by_field(child, "function") {
                let raw = tree.text(func);
                let target = match class_name {
                    Some(cn) => qualify_member_call(raw.as_str(), cn.as_str()),
                    None => raw,
                };
                let e = make_edge(caller_id, EdgeKind::Calls, target, tree.start_row(child));
                out.add_edge(e, Ghost(path@), Ghost(Language::Python));
            }
        }
        extract_py_calls(tree, child, path, caller_id, class_name, out);
        k = k + 1;
    }
}

impl PythonExtractor {
    pub fn language(&self) -> (r: Language)
        ensures
            r == Language::Python,
    {
        Language::Python
    }

    /// The file extensions read as Python.
    pub fn file_extensions(&self) -> (r: Vec<&'static str>)
        ensures
            r@.len() == 1,
            r@[0]@ == "py"@,
    {
        let mut v: Vec<&'static str> = Vec::new();
        v.push("py");
        v
    }

    /// Extracts the symbols and raw edges of the Python file `path` from its
    /// tree: the `File` symbol first, every symbol of the file and in Python,
    /// parents before children, and every raw edge leaving an extracted symbol.
    pub fn extract(&self, tree: &SyntaxTree, path: &str) -> (r: ExtractResult)
        requires
            tree.wf(),
        ensures
            extraction_of(r, path@, Language::Python, tree.source@),
            (r.syms(), r.raws()) == python_extraction(*tree, path@),
    {
        let mut out = start_extraction(tree, path, Language::Python);
        proof {
            assert(out.raws() =~= Seq::<RawEdgeView>::empty());
        }
        let file_id = out.symbols[0].id;
        proof {
            assert(out.syms()[0].id == file_id);
        }
        walk_python(tree, 0, path, file_id, &None, &mut out);
        out
    }
}

} // verus!

use ast_graph::routes::{derive_route_path, nextjs_path, svelte_path, strip_ext, detect_filebased_routes};
use ast_graph::graph::CodeGraph;
use ast_graph::symbol::{SymbolNode, SymbolKind, Language, Visibility, NodeId};
use ast_graph::relation::EdgeKind;

#[test]
fn nextjs_app_router() {
    assert_eq!(derive_route_path("/repo/app/users/[id]/page.tsx"), Some("/users/:id".to_string()));
    assert_eq!(derive_route_path("/repo/app/page.tsx"), Some("/".to_string()));
    assert_eq!(
        derive_route_path("/repo/app/(dashboard)/settings/page.tsx"),
        Some("/settings".to_string())
    );
}

#[test]
fn nextjs_pages_router() {
    assert_eq!(derive_route_path("/repo/pages/users/[id].tsx"), Some("/users/:id".to_string()));
    assert_eq!(derive_route_path("/repo/pages/index.tsx"), Some("/".to_string()));
    assert_eq!(derive_route_path("/repo/pages/_app.tsx"), None);
    assert_eq!(derive_route_path("/repo/pages/api/users.ts"), None);
}

#[test]
fn nextjs_app_route_ts() {
    assert_eq!(derive_route_path("/repo/app/api/users/route.ts"), Some("/api/users".to_string()));
}

#[test]
fn remix() {
    assert_eq!(derive_route_path("/repo/routes/users.$id.tsx"), Some("/users/:id".to_string()));
}

#[test]
fn sveltekit() {
    assert_eq!(derive_route_path("/repo/routes/users/[id]/+page.svelte"), Some("/users/:id".to_string()));
}

#[test]
fn route_segments_render() {
    assert_eq!(nextjs_path(""), "/");
    assert_eq!(nextjs_path("/docs/[...slug]/"), "/docs/:slug*");
    assert_eq!(nextjs_path("(marketing)/about"), "/about");
    assert_eq!(svelte_path("blog/[...rest]"), "/blog/:rest");
    assert_eq!(svelte_path("(app)"), "/");
}

#[test]
fn strips_first_known_extension() {
    assert_eq!(strip_ext("a/b.tsx"), "a/b");
    assert_eq!(strip_ext("page.svelte"), "page");
    assert_eq!(strip_ext("readme.md"), "readme.md");
}

#[test]
fn other_conventions() {
    assert_eq!(derive_route_path("/r/pages/blog/index.vue"), Some("/blog".to_string()));
    assert_eq!(derive_route_path("/r/routes/_index.tsx"), Some("/".to_string()));
    assert_eq!(derive_route_path("/r/routes/users._index.tsx"), Some("/users".to_string()));
    assert_eq!(derive_route_path("/r/src/lib/util.ts"), None);
    assert_eq!(derive_route_path("/r/PAGES/About.TSX"), Some("/r/PAGES/About.TSX".to_string()));
}

fn sym(path: &str, name: &str, kind: SymbolKind, line: u32) -> SymbolNode {
    SymbolNode {
        id: NodeId::new(path, name, kind, line),
        name: name.to_string(),
        kind,
        file_path: path.to_string(),
        line_range: (line, line + 1),
        signature: None,
        doc_comment: None,
        visibility: Visibility::Public,
        language: Language::TypeScript,
        parent: None,
    }
}

#[test]
fn detects_page_and_verb_routes() {
    let mut g = CodeGraph::new("/repo".to_string());
    g.add_node(sym("/repo/app/users/page.tsx", "/repo/app/users/page.tsx", SymbolKind::File, 0));
    g.add_node(sym("/repo/app/users/page.tsx", "helper", SymbolKind::Function, 9));
    g.add_node(sym("/repo/app/users/page.tsx", "Page", SymbolKind::Function, 3));
    g.add_node(sym("/repo/app/api/route.ts", "/repo/app/api/route.ts", SymbolKind::File, 0));
    g.add_node(sym("/repo/app/api/route.ts", "GET", SymbolKind::Function, 1));
    g.add_node(sym("/repo/app/api/route.ts", "handlers.POST", SymbolKind::Function, 5));
    g.add_node(sym("/repo/lib/x.ts", "/repo/lib/x.ts", SymbolKind::File, 0));
    detect_filebased_routes(&mut g);
    let routes: Vec<&SymbolNode> = g.nodes.iter().filter(|n| n.kind == SymbolKind::Route).collect();
    let names: Vec<&str> = routes.iter().map(|n| n.name.as_str()).collect();
    assert_eq!(names, vec!["GET /users", "GET /api", "POST /api"]);
    assert_eq!(routes[0].signature.as_deref(), Some("route GET /users"));
    assert_eq!(g.raw_edges.len(), 3);
    let page = g.nodes.iter().find(|n| n.name == "Page").unwrap();
    assert_eq!(g.raw_edges[0].source, page.id);
    assert_eq!(g.raw_edges[0].kind, EdgeKind::HandlesRoute);
    assert_eq!(g.raw_edges[0].target_name, routes[0].id.to_hex());
    // A second pass adds no symbols, only edges.
    let before = g.nodes.len();
    detect_filebased_routes(&mut g);
    assert_eq!(g.nodes.len(), before);
    assert_eq!(g.raw_edges.len(), 6);
}

use ast_graph::symbol::{NodeId, SymbolKind, Language};
use ast_graph::grammar::parse_source;
use ast_graph::lang::javascript::JavaScriptExtractor;
use ast_graph::lang::rust::RustExtractor;
use ast_graph::lang::swift::SwiftExtractor;
use ast_graph::relation::EdgeKind;
use ast_graph::hash::hash_bytes;
use ast_graph::commands::backend::{build_storage, BackendArg, StorageChoice};
use sha2::{Digest, Sha256};

#[test]
fn node_id_is_sha256_prefix_of_key() {
    let id = NodeId::new("a.rs", "f", SymbolKind::Function, 3);
    let digest = Sha256::digest("a.rs\0f\0Function\03".as_bytes());
    let mut b = [0u8; 8];
    b.copy_from_slice(&digest[..8]);
    assert_eq!(id, NodeId(u64::from_be_bytes(b)));
    assert_ne!(id, NodeId::new("a.rs", "f", SymbolKind::Function, 4));
    assert_eq!(NodeId::from_hex(&id.to_hex()), Some(id));
    assert_eq!(id.to_hex().len(), 16);
}

#[test]
fn content_hash_is_sha256() {
    let h = hash_bytes(b"abc");
    let d = Sha256::digest(b"abc");
    assert_eq!(&h[..], &d[..]);
}

#[test]
fn file_symbol_is_named_after_the_file() {
    let tree = parse_source(Language::Rust, b"fn a() {}\n").unwrap();
    let r = RustExtractor.extract(&tree, "/p/src/lib.rs");
    assert_eq!(r.symbols[0].kind, SymbolKind::File);
    assert_eq!(r.symbols[0].name, "lib.rs");
    assert_eq!(r.symbols[0].file_path, "/p/src/lib.rs");
}

#[test]
fn relative_js_import_is_joined_to_the_file_directory() {
    let tree = parse_source(Language::JavaScript, b"import { x } from './util';\n").unwrap();
    let r = JavaScriptExtractor::new(Language::JavaScript).extract(&tree, "/p/src/app.js");
    let e = r.raw_edges.iter().find(|e| e.kind == EdgeKind::Imports).expect("import edge");
    assert_eq!(e.target_name, "./util");
    assert_eq!(e.target_module.as_deref(), Some("/p/src/./util"));
    let tree2 = parse_source(Language::JavaScript, b"import React from 'react';\n").unwrap();
    let r2 = JavaScriptExtractor::new(Language::JavaScript).extract(&tree2, "/p/src/app.js");
    let e2 = r2.raw_edges.iter().find(|e| e.kind == EdgeKind::Imports).expect("import edge");
    assert_eq!(e2.target_module, None);
}

#[test]
fn swift_self_call_reads_the_identifier() {
    let tree = parse_source(Language::Swift, b"class K {\n  func a() { self.run_1() }\n  func run_1() {}\n}\n").unwrap();
    let r = SwiftExtractor.extract(&tree, "k.swift");
    assert!(r.raw_edges.iter().any(|e| e.kind == EdgeKind::Calls && e.target_name == "K.run_1"));
}

#[test]
fn default_store_is_under_the_project_root() {
    match build_storage(BackendArg::Sqlite, None, "/proj", String::new(), String::new()) {
        StorageChoice::Sqlite { db_file } => assert_eq!(db_file, "/proj/.ast-graph/graph.db"),
        _ => panic!("expected a SQLite store"),
    }
    match build_storage(BackendArg::Sqlite, Some("x.db".to_string()), "/proj", String::new(), String::new()) {
        StorageChoice::Sqlite { db_file } => assert_eq!(db_file, "x.db"),
        _ => panic!("expected a SQLite store"),
    }
    match build_storage(BackendArg::Falkor, None, "/proj", "falkor://h:1".to_string(), "g".to_string()) {
        StorageChoice::Falkor { url, graph_name } => assert_eq!((url.as_str(), graph_name.as_str()), ("falkor://h:1", "g")),
        _ => panic!("expected a FalkorDB store"),
    }
}

#[test]
fn age_of_an_old_commit_reads_the_clock() {
    let text = ast_graph::git::humanize_ago(1);
    assert!(text.ends_with("mo ago"), "{text}");
    assert_ne!(text, "never");
}

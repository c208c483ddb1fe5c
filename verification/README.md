# ast_graph

A code-graph library: tree-sitter syntax trees of Rust, Python, JavaScript/TypeScript,
C#, Java, Go, PHP and Swift files are reduced to their structural symbols (files,
modules, types, functions, methods, fields, imports) and raw relationships; those are
resolved across files into a graph, stored as rows, and rendered as reports.

The library under `src/` is verified with Verus:

- `text`, `num`: character-level string and number handling with specifications.
- `symbol`, `relation`, `graph`: symbols, edges and the graph with its invariant
  (no two symbols share an identifier).
- `syntax`, `grammar`, `ts_bridge`: a syntax tree held as plain values, built from the
  preorder node records that tree-sitter reports for a parse, and the calls into
  tree-sitter that produce them (the parse result is named, `parsed_nodes`, and the
  tree is stated to be built exactly from it).
- `extract`, `lang::*`: the per-language extractors. Each states, as a spec function
  over the syntax tree (`rust_extraction`, `python_extraction`, `js_extraction`,
  `csharp_extraction`, `java_extraction`, `go_extraction`, `php_extraction`,
  `swift_extraction`), exactly which symbols and raw edges it emits and in what order,
  besides the invariant every extraction keeps.
- `resolve`: cross-file resolution of raw edges.
- `incremental`, `parser`, `hash`: discovered files, whole and incremental builds.
- `storage`: the rows a graph is saved as and loaded from, with round-trip laws.
- `routes`, `git`, `query`: file-based web routes, diff and log text, graph queries.
- `commands::*`: what each command-line command computes and prints.

`app/` is the command-line program: argument parsing, the SQLite store, walking the
file system, running `git`, and printing.

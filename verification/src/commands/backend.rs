//! Which store the commands read and write.
use vstd::prelude::*;
use crate::extract::{join_path, joined_path};

verus! {

/// The kinds of store.
#[derive(Clone, Copy, Debug, PartialEq, Eq, Structural)]
pub enum BackendArg {
    Sqlite,
    Falkor,
}

/// The store to open: a SQLite file, or a FalkorDB graph.
pub enum StorageChoice {
    Sqlite { db_file: String },
    Falkor { url: String, graph_name: String },
}

/// The default SQLite file of a project: `.ast-graph/graph.db` under its root.
pub open spec fn default_db_file(root: Seq<char>) -> Seq<char> {
    joined_path(joined_path(root, ".ast-graph"@), "graph.db"@)
}

/// The store chosen by the command line: for SQLite the file given, else the
/// project's default file under `fallback_root`; for FalkorDB its URL and
/// graph name.
pub fn build_storage(
    backend: BackendArg,
    db: Option<String>,
    fallback_root: &str,
    falkor_url: String,
    falkor_graph_name: String,
) -> (r: StorageChoice)
    ensures
        backend == BackendArg::Sqlite ==> (r matches StorageChoice::Sqlite { db_file } && db_file@
            == match db {
            Some(d) => d@,
            None => default_db_file(fallback_root@),
        }),
        backend == BackendArg::Falkor ==> (r matches StorageChoice::Falkor { url, graph_name } && url@
            == falkor_url@ && graph_name@ == falkor_graph_name@),
{
    match backend {
        BackendArg::Sqlite => {
            let db_file = match db {
                Some(d) => d,
                None => {
                    let dir = join_path(fallback_root, ".ast-graph");
                    join_path(dir.as_str(), "graph.db")
                },
            };
            StorageChoice::Sqlite { db_file }
        },
        BackendArg::Falkor => StorageChoice::Falkor { url: falkor_url, graph_name: falkor_graph_name },
    }
}

} // verus!

pub mod text;
pub mod num;
pub mod symbol;
pub mod relation;
pub mod graph;
pub mod resolve;
pub mod hash;
pub mod query;
pub mod routes;
pub mod git;
pub mod syntax;
pub mod ts_bridge;
pub mod grammar;
pub mod extract;
pub mod lang;
pub mod storage;
pub mod incremental;
pub mod parser;
pub mod commands;

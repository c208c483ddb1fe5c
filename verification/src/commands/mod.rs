//! What the command-line commands compute, apart from reading the store and
//! printing.
pub mod backend;
pub mod blast_radius;
pub mod call_chain;
pub mod changed_symbols;
pub mod dead_code;
pub mod export;
pub mod rows;
pub mod hotspots;
pub mod stats;
pub mod symbol;

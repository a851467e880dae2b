//! The parser: a minimal cursor over a token sequence, shared sub-grammar
//! routines, and one grammar parser per statement kind.

pub mod create_table;
pub mod delete;
pub mod drop_table;
pub mod insert;
pub mod parser;
pub mod select;
pub mod update;

//! teemlab — the verified core of an evolutionary simulation engine: scenario
//! tables, the species editor's structural operations, the breeding regime's
//! integer bookkeeping, the key-binding table and the small text formats the
//! tools read and write.

pub mod experiment;
pub mod text;
pub mod brain;
pub mod genotype;
pub mod config;
pub mod editor;
pub mod library;
pub mod keymap;
pub mod record;
pub mod sweep;
pub mod breeding;
pub mod decor;
pub mod session;

//! Code generation fragments for Rust source, with verified rendering.
pub mod text;
pub mod fragment;
pub mod order;
pub mod imports;
pub mod import_order;
pub mod layout;
pub mod render;
pub mod construct;
pub mod file;
pub mod naming;
pub mod concept;
pub mod intermediate;
pub mod markdown;
pub mod placement;
pub mod autogen;
pub mod release;
pub mod manifest;
pub mod code_fragment;
pub mod yaml;
pub mod definition;
pub mod traits;

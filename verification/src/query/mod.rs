//! The selections of a query: how they are read, what they leave out, and which paths into a
//! response run through them.

pub mod error_path;
pub mod field_type;
pub mod fragments;
pub mod hir;
pub mod include_skip;
pub mod laws;
pub mod schema;
pub mod selection;

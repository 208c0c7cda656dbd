//! Converts an array of JSON records into CSV rows whose columns are defined
//! by a declarative mapping document: each column names a JSON Pointer into
//! the record plus an optional chain of value transforms ("effects").
//!
//! The crate holds the resolution engine: the JSON value model, pointer
//! dereferencing, the effect library, mapping-document parsing, and the
//! projector that turns records into rows of canonical JSON cell text.
//! Reading documents, parsing JSON text, and CSV encoding are left to the
//! surrounding application.

pub mod cli;
pub mod effects;
pub mod errors;
pub mod mapping;
pub mod numbers;
pub mod pointer;
pub mod project;
pub mod render;
pub mod strutil;
pub mod value;

//! Builds a language-agnostic intermediate representation (IR) from an
//! OpenAPI-style document model.
//!
//! The core is the IR builder: canonical naming of wire identifiers, schema
//! reference resolution, type inference over schema shapes, hoisting and
//! structural deduplication of inline schemas, and assembly of per-operation
//! HTTP shapes grouped into services.  The walk is single-threaded and
//! sequential, so one document always produces one IR.

pub mod document;
pub mod hoist;
pub mod infer;
pub mod ir;
pub mod key;
pub mod naming;
pub mod ops;
pub mod params;
pub mod pointer;
pub mod resolve;
pub mod rust_axum;
pub mod service_codegen;
pub mod strutil;
pub mod typeref;
pub mod typescript;
pub mod vfs;

//! Code generator for JSON Type Definition (RFC 8927) schemas.
//!
//! The crate compiles a JTD schema, given as a JSON value, into an immutable
//! schema AST, and emits standalone validator modules from that AST.  Every
//! function is verified: the compiler against a specification of RFC 8927's
//! structural rules, and the emitters against spec-level descriptions of the
//! exact text they produce.

mod ast;
mod compiler;
mod decimal;
mod json;

pub mod emit_js;
pub mod emit_lua;
pub mod emit_py;
pub mod emit_rs;

pub use ast::CompiledSchema;
pub use ast::Node;
pub use ast::TypeKeyword;
pub use compiler::compile;
pub use compiler::CompileError;
pub use json::Json;

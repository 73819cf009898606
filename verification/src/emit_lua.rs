//! Lua back-end: writer and emission context.

pub mod context;
pub mod writer;

pub use context::EmitContext;
pub use writer::escape_lua;
pub use writer::CodeWriter;

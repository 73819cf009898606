//! Rust back-end: emission context and type-condition table.

pub mod context;
pub mod types;

pub use context::RsCtx;
pub use types::needs_timestamp_helper;
pub use types::type_condition;

//! JavaScript (ES2020) back-end: writer, context, type conditions, emitters.

pub mod context;
pub mod emit;
pub mod nodes;
pub mod types;
pub mod writer;

pub use context::EmitContext;
pub use emit::emit;
pub use emit::emit_discriminator;
pub use emit::emit_elements;
pub use emit::emit_nullable;
pub use emit::emit_properties;
pub use emit::emit_values;
pub use nodes::def_fn_name;
pub use nodes::emit_empty;
pub use nodes::emit_enum;
pub use nodes::emit_ref;
pub use nodes::emit_type;
pub use types::type_condition;
pub use writer::escape_js;
pub use writer::CodeWriter;

//! Python back-end: writer.

pub mod writer;

pub use writer::escape_py;
pub use writer::CodeWriter;

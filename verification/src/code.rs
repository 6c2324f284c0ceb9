//! The source buffer: raw program text and its line structure.

pub mod source_code;

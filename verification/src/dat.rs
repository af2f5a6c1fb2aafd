//! DAT tables: the column schema and the row decoder.

pub mod reader;
pub mod schema;

//! Shared vocabulary of the engine: errors, levels, sequence numbers,
//! schemas and row values.

pub mod error;
pub mod hexcode;
pub mod level;
pub mod meta_json;
pub mod schema;
pub mod sequence;
pub mod value;

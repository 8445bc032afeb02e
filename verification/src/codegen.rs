//! Generation of Rust code from the definitions of a schema.

pub mod enums;
pub mod grouper;
pub mod metadata;
pub mod order;
pub mod rustifier;

//! The wire format: how values become bytes and bytes become values.

pub mod decode;
pub mod encode;
pub mod laws;
pub mod schema;
pub mod value;
pub mod wire;

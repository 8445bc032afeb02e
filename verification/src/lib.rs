//! The core of a client for Telegram's MTProto: the Type Language in which
//! the protocol is described, the code and the wire format that follow from
//! a schema, and the decisions of the client.
//!
//! - [`tl`] parses definitions and whole schemas, and infers the identifier
//!   of a definition that names none.
//! - [`codegen`] groups the definitions of a schema, finds the recursive
//!   ones, and writes the Rust `enum` of every boxed type.
//! - [`codec`] writes the values of a schema as bytes and reads them back.
//! - [`client`] is the client as a state machine: it says what is to be done
//!   next and is told what came of it, and does no input or output itself.
//! - [`text`] and [`crc`] hold what the others need of characters and of
//!   checksums.

pub mod client;
pub mod codec;
pub mod codegen;
pub mod crc;
pub mod text;
pub mod tl;

//! The Type Language: the textual schema that describes every constructor
//! and every function of the protocol.

pub mod category;
pub mod definition;
pub mod errors;
pub mod file;
pub mod flag;
pub mod number;
pub mod parameter;
pub mod signature;
pub mod stability;
pub mod ty;

pub use category::Category;
pub use definition::Definition;
pub use errors::ParamParseError;
pub use errors::ParseError;
pub use file::parse_tl_file;
pub use flag::Flag;
pub use parameter::Parameter;
pub use parameter::ParameterType;
pub use ty::Type;

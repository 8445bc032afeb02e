//! The client: what it remembers, what it asks of the transport and of the
//! session store, and what it makes of their answers.

pub mod clock;
pub mod dialogs;
pub mod errors;
pub mod laws;
pub mod machine;
pub mod platform;
pub mod requests;
pub mod session;
pub mod types;

pub use clock::generate_random_message_id;
pub use errors::SignInError;
pub use machine::Client;
pub use machine::IntoInput;

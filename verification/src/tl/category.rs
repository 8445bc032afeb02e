//! The two sections of a schema.

use vstd::prelude::*;

verus! {

/// The category to which a definition belongs.
#[derive(Clone, Copy, Debug, PartialEq, Eq, Structural)]
pub enum Category {
    /// The definition of a constructor of a type.
    Types,
    /// The definition of a function: a request that can be invoked.
    Functions,
}

} // verus!

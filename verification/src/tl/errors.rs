//! The ways in which parsing a definition can fail.

use std::num::ParseIntError;
use vstd::prelude::*;

verus! {

/// Why a parameter could not be parsed.
#[derive(Debug, PartialEq)]
pub enum ParamParseError {
    /// The parameter, its name or its type is empty.
    Empty,
    /// A definition in braces that declares no type.
    UnknownDef,
    /// The flag of a conditional parameter is malformed.
    BadFlag,
    /// The generic argument of a type is not closed.
    BadGeneric,
    /// No real parameter: the declaration `{name:Type}` of a generic type.
    TypeDef { name: String },
    /// A parameter without a type.
    Unimplemented,
}

/// `ParamParseError` as a mathematical value.
pub enum ParamFailure {
    Empty,
    UnknownDef,
    BadFlag,
    BadGeneric,
    TypeDef { name: Seq<char> },
    Unimplemented,
}

impl View for ParamParseError {
    type V = ParamFailure;

    open spec fn view(&self) -> ParamFailure {
        match self {
            ParamParseError::Empty => ParamFailure::Empty,
            ParamParseError::UnknownDef => ParamFailure::UnknownDef,
            ParamParseError::BadFlag => ParamFailure::BadFlag,
            ParamParseError::BadGeneric => ParamFailure::BadGeneric,
            ParamParseError::TypeDef { name } => ParamFailure::TypeDef { name: name@ },
            ParamParseError::Unimplemented => ParamFailure::Unimplemented,
        }
    }
}

/// Why a definition could not be parsed.
#[derive(Debug, PartialEq)]
pub enum ParseError {
    /// The definition is empty.
    EmptyDefinition,
    /// The definition has no name.
    MissingName,
    /// The definition has no type.
    MissingType,
    /// The identifier after `#` is no 32-bit number in base 16.
    MalformedId(ParseIntError),
    /// One of the parameters is malformed.
    MalformedParam,
    /// The definition uses a form that is not supported.
    NotImplemented { line: String },
}

/// `ParseError` as a mathematical value.
pub enum ParseFailure {
    EmptyDefinition,
    MissingName,
    MissingType,
    MalformedId(ParseIntError),
    MalformedParam,
    NotImplemented { line: Seq<char> },
}

impl View for ParseError {
    type V = ParseFailure;

    open spec fn view(&self) -> ParseFailure {
        match self {
            ParseError::EmptyDefinition => ParseFailure::EmptyDefinition,
            ParseError::MissingName => ParseFailure::MissingName,
            ParseError::MissingType => ParseFailure::MissingType,
            ParseError::MalformedId(cause) => ParseFailure::MalformedId(*cause),
            ParseError::MalformedParam => ParseFailure::MalformedParam,
            ParseError::NotImplemented { line } => ParseFailure::NotImplemented { line: line@ },
        }
    }
}

} // verus!

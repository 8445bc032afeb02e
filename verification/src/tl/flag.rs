//! The condition under which a parameter is present.

use crate::text::chars_of;
use crate::text::find;
use crate::text::find_char;
use crate::text::string_of;
use crate::tl::errors::ParamFailure;
use crate::tl::errors::ParamParseError;
use crate::tl::number::decimal_usize;
use crate::tl::number::parse_usize;
use vstd::prelude::*;
use vstd::slice::slice_subrange;

verus! {

/// A bit of a flags parameter: the parameter that carries it is present only
/// if the bit is set.
#[derive(Debug, PartialEq, Clone)]
pub struct Flag {
    /// The name of the parameter that holds the flags.
    pub name: String,
    /// The index of the bit within that parameter.
    pub index: usize,
}

/// `Flag` as a mathematical value.
pub struct FlagView {
    pub name: Seq<char>,
    pub index: usize,
}

impl View for Flag {
    type V = FlagView;

    open spec fn view(&self) -> FlagView {
        FlagView { name: self.name@, index: self.index }
    }
}

/// The flag that `s` writes: the name of the flags parameter, a dot, and the
/// index of the bit in base 10.
pub open spec fn parse_flag(s: Seq<char>) -> Result<FlagView, ParamFailure> {
    let dot = find(s, '.');
    if dot >= s.len() {
        Err(ParamFailure::BadFlag)
    } else {
        match decimal_usize(s.skip(dot + 1)) {
            Some(index) => Ok(FlagView { name: s.take(dot), index }),
            None => Err(ParamFailure::BadFlag),
        }
    }
}

/// The outcome of parsing a flag as a mathematical value.
pub open spec fn flag_outcome(r: Result<Flag, ParamParseError>) -> Result<FlagView, ParamFailure> {
    match r {
        Ok(flag) => Ok(flag@),
        Err(e) => Err(e@),
    }
}

impl Flag {
    /// Parses a flag from its characters.
    pub fn parse(text: &[char]) -> (r: Result<Flag, ParamParseError>)
        ensures
            flag_outcome(r) == parse_flag(text@),
    {
        let dot = find_char(text, '.');
        if dot >= text.len() {
            return Err(ParamParseError::BadFlag);
        }
        match parse_usize(slice_subrange(text, dot + 1, text.len())) {
            Some(index) => Ok(Flag { name: string_of(slice_subrange(text, 0, dot)), index }),
            None => Err(ParamParseError::BadFlag),
        }
    }

    /// Parses a flag.
    pub fn from_str(flag: &str) -> (r: Result<Flag, ParamParseError>)
        ensures
            flag_outcome(r) == parse_flag(flag@),
    {
        let text = chars_of(flag);
        Flag::parse(text.as_slice())
    }
}

} // verus!

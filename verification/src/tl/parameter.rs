//! The parameters of a definition.

use crate::text::chars_end_with;
use crate::text::chars_of;
use crate::text::ends_with;
use crate::text::find;
use crate::text::find_char;
use crate::text::find_char_from;
use crate::text::find_from;
use crate::text::string_of;
use crate::tl::errors::ParamFailure;
use crate::tl::errors::ParamParseError;
use crate::tl::flag::parse_flag;
use crate::tl::flag::Flag;
use crate::tl::flag::FlagView;
use crate::tl::ty::parse_type;
use crate::tl::ty::Type;
use crate::tl::ty::TypeView;
use vstd::prelude::*;
use vstd::slice::slice_subrange;

verus! {

/// What a parameter holds.
#[derive(Debug, PartialEq, Clone)]
pub enum ParameterType {
    /// The parameter holds the 32 flags of the definition: the bits that say
    /// which conditional parameters are present.
    Flags,
    /// The parameter holds a value of a type, under a condition if `flag` is
    /// there.
    Normal { ty: Type, flag: Option<Flag> },
}

/// `ParameterType` as a mathematical value.
pub enum ParameterTypeView {
    Flags,
    Normal { ty: TypeView, flag: Option<FlagView> },
}

impl View for ParameterType {
    type V = ParameterTypeView;

    open spec fn view(&self) -> ParameterTypeView {
        match self {
            ParameterType::Flags => ParameterTypeView::Flags,
            ParameterType::Normal { ty, flag } => ParameterTypeView::Normal {
                ty: ty@,
                flag: match flag {
                    Some(f) => Some(f@),
                    None => None,
                },
            },
        }
    }
}

/// A parameter of a definition: a name and what it holds.
#[derive(Debug, PartialEq, Clone)]
pub struct Parameter {
    /// The name of the parameter.
    pub name: String,
    /// What the parameter holds.
    pub ty: ParameterType,
}

/// `Parameter` as a mathematical value.
pub struct ParameterView {
    pub name: Seq<char>,
    pub ty: ParameterTypeView,
}

impl View for Parameter {
    type V = ParameterView;

    open spec fn view(&self) -> ParameterView {
        ParameterView { name: self.name@, ty: self.ty@ }
    }
}

/// The end of the declaration of a generic type.
pub open spec fn typedef_suffix() -> Seq<char> {
    seq![':', 'T', 'y', 'p', 'e', '}']
}

/// What `s` says a parameter holds: `#` for the flags; otherwise a type,
/// with the flag and `?` before it where it is conditional.
pub open spec fn parse_parameter_type(s: Seq<char>) -> Result<ParameterTypeView, ParamFailure> {
    let mark = find(s, '?');
    if s.len() == 0 {
        Err(ParamFailure::Empty)
    } else if s.len() == 1 && s[0] == '#' {
        Ok(ParameterTypeView::Flags)
    } else if mark < s.len() {
        match parse_flag(s.take(mark)) {
            Err(_) => Err(ParamFailure::BadFlag),
            Ok(flag) => match parse_type(s.skip(mark + 1)) {
                Ok(ty) => Ok(ParameterTypeView::Normal { ty, flag: Some(flag) }),
                Err(e) => Err(e),
            },
        }
    } else {
        match parse_type(s) {
            Ok(ty) => Ok(ParameterTypeView::Normal { ty, flag: None }),
            Err(e) => Err(e),
        }
    }
}

/// The parameter that the word `s` writes. A word in braces is no parameter:
/// it gives `TypeDef` with the name it declares where it ends in `:Type}`.
/// Otherwise the name stands before the first colon, and what the parameter
/// holds between that colon and the next.
pub open spec fn parse_parameter(s: Seq<char>) -> Result<ParameterView, ParamFailure> {
    let colon = find(s, ':');
    if s.len() > 0 && s[0] == '{' {
        if ends_with(s, typedef_suffix()) {
            Err(ParamFailure::TypeDef { name: s.subrange(1, colon) })
        } else {
            Err(ParamFailure::UnknownDef)
        }
    } else if colon >= s.len() {
        Err(ParamFailure::Unimplemented)
    } else if colon == 0 {
        Err(ParamFailure::Empty)
    } else {
        match parse_parameter_type(s.subrange(colon + 1, find_from(s, ':', colon + 1))) {
            Ok(ty) => Ok(ParameterView { name: s.take(colon), ty }),
            Err(e) => Err(e),
        }
    }
}

/// The outcome of parsing what a parameter holds, as a mathematical value.
pub open spec fn parameter_type_outcome(r: Result<ParameterType, ParamParseError>) -> Result<
    ParameterTypeView,
    ParamFailure,
> {
    match r {
        Ok(ty) => Ok(ty@),
        Err(e) => Err(e@),
    }
}

/// The outcome of parsing a parameter as a mathematical value.
pub open spec fn parameter_outcome(r: Result<Parameter, ParamParseError>) -> Result<
    ParameterView,
    ParamFailure,
> {
    match r {
        Ok(param) => Ok(param@),
        Err(e) => Err(e@),
    }
}

impl ParameterType {
    /// Parses what a parameter holds from its characters.
    pub fn parse(text: &[char]) -> (r: Result<ParameterType, ParamParseError>)
        ensures
            parameter_type_outcome(r) == parse_parameter_type(text@),
    {
        if text.len() == 0 {
            return Err(ParamParseError::Empty);
        }
        if text.len() == 1 && text[0] == '#' {
            return Ok(ParameterType::Flags);
        }
        let mark = find_char(text, '?');
        if mark < text.len() {
            let flag = match Flag::parse(slice_subrange(text, 0, mark)) {
                Ok(flag) => flag,
                Err(_) => {
                    return Err(ParamParseError::BadFlag);
                },
            };
            match Type::parse(slice_subrange(text, mark + 1, text.len())) {
                Ok(ty) => Ok(ParameterType::Normal { ty, flag: Some(flag) }),
                Err(e) => Err(e),
            }
        } else {
            match Type::parse(text) {
                Ok(ty) => Ok(ParameterType::Normal { ty, flag: None }),
                Err(e) => Err(e),
            }
        }
    }

    /// Parses what a parameter holds.
    pub fn from_str(ty: &str) -> (r: Result<ParameterType, ParamParseError>)
        ensures
            parameter_type_outcome(r) == parse_parameter_type(ty@),
    {
        let text = chars_of(ty);
        ParameterType::parse(text.as_slice())
    }
}

impl Parameter {
    /// Parses a parameter from the characters of its word.
    pub fn parse(text: &[char]) -> (r: Result<Parameter, ParamParseError>)
        ensures
            parameter_outcome(r) == parse_parameter(text@),
    {
        let colon = find_char(text, ':');
        if text.len() > 0 && text[0] == '{' {
            let suffix: [char; 6] = [':', 'T', 'y', 'p', 'e', '}'];
            assert(suffix@ =~= typedef_suffix());
            if chars_end_with(text, suffix.as_slice()) {
                return Err(
                    ParamParseError::TypeDef { name: string_of(slice_subrange(text, 1, colon)) },
                );
            } else {
                return Err(ParamParseError::UnknownDef);
            }
        }
        if colon >= text.len() {
            return Err(ParamParseError::Unimplemented);
        }
        if colon == 0 {
            return Err(ParamParseError::Empty);
        }
        let end = find_char_from(text, ':', colon + 1);
        match ParameterType::parse(slice_subrange(text, colon + 1, end)) {
            Ok(ty) => Ok(Parameter { name: string_of(slice_subrange(text, 0, colon)), ty }),
            Err(e) => Err(e),
        }
    }

    /// Parses a parameter.
    pub fn from_str(param: &str) -> (r: Result<Parameter, ParamParseError>)
        ensures
            parameter_outcome(r) == parse_parameter(param@),
    {
        let text = chars_of(param);
        Parameter::parse(text.as_slice())
    }
}

} // verus!

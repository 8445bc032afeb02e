//! References to types.

use crate::text::chars_of;
use crate::text::find;
use crate::text::find_char;
use crate::text::lemma_split_nonempty;
use crate::text::split;
use crate::text::split_chars;
use crate::text::string_of;
use crate::text::string_views;
use crate::text::views;
use crate::tl::errors::ParamFailure;
use crate::tl::errors::ParamParseError;
use vstd::prelude::*;
use vstd::slice::slice_subrange;

verus! {

/// The type of a definition or of a parameter.
#[derive(Debug, PartialEq, Clone)]
pub struct Type {
    /// The namespaces in which the type lives, outermost first.
    pub namespace: Vec<String>,
    /// The name of the type.
    pub name: String,
    /// Whether the name refers to a generic type that the definition declares.
    pub generic_ref: bool,
    /// The generic argument of the type, if it has one.
    pub generic_arg: Option<String>,
}

/// `Type` as a mathematical value.
pub struct TypeView {
    pub namespace: Seq<Seq<char>>,
    pub name: Seq<char>,
    pub generic_ref: bool,
    pub generic_arg: Option<Seq<char>>,
}

impl View for Type {
    type V = TypeView;

    open spec fn view(&self) -> TypeView {
        TypeView {
            namespace: string_views(self.namespace@),
            name: self.name@,
            generic_ref: self.generic_ref,
            generic_arg: match self.generic_arg {
                Some(arg) => Some(arg@),
                None => None,
            },
        }
    }
}

/// Whether one of the pieces is empty.
pub open spec fn has_empty_piece(pieces: Seq<Seq<char>>) -> bool {
    exists|i: int| 0 <= i < pieces.len() && #[trigger] pieces[i].len() == 0
}

/// The type that `s` writes: an optional `!` for a generic reference, the
/// dotted path of namespaces that ends in the name, and an optional generic
/// argument between `<` and a final `>`.
pub open spec fn parse_type(s: Seq<char>) -> Result<TypeView, ParamFailure> {
    let generic_ref = s.len() > 0 && s[0] == '!';
    let body = if generic_ref {
        s.skip(1)
    } else {
        s
    };
    let open = find(body, '<');
    if open < body.len() && body.last() != '>' {
        Err(ParamFailure::BadGeneric)
    } else {
        let path = split(
            if open < body.len() {
                body.take(open)
            } else {
                body
            },
            '.',
        );
        if has_empty_piece(path) {
            Err(ParamFailure::Empty)
        } else {
            Ok(
                TypeView {
                    namespace: path.drop_last(),
                    name: path.last(),
                    generic_ref,
                    generic_arg: if open < body.len() {
                        Some(body.subrange(open + 1, body.len() - 1))
                    } else {
                        None
                    },
                },
            )
        }
    }
}

/// The outcome of parsing a type as a mathematical value.
pub open spec fn type_outcome(r: Result<Type, ParamParseError>) -> Result<TypeView, ParamFailure> {
    match r {
        Ok(ty) => Ok(ty@),
        Err(e) => Err(e@),
    }
}

impl Type {
    /// Parses a type from its characters.
    #[verifier::loop_isolation(false)]
    pub fn parse(text: &[char]) -> (r: Result<Type, ParamParseError>)
        ensures
            type_outcome(r) == parse_type(text@),
    {
        let generic_ref = text.len() > 0 && text[0] == '!';
        let body = if generic_ref {
            slice_subrange(text, 1, text.len())
        } else {
            text
        };
        assert(generic_ref ==> body@ =~= text@.skip(1));
        let open = find_char(body, '<');
        let (base, generic_arg) = if open < body.len() {
            if body[body.len() - 1] != '>' {
                return Err(ParamParseError::BadGeneric);
            }
            (
                slice_subrange(body, 0, open),
                Some(string_of(slice_subrange(body, open + 1, body.len() - 1))),
            )
        } else {
            (body, None)
        };
        let mut path = split_chars(base, '.');
        let ghost pieces = split(base@, '.');
        proof {
            lemma_split_nonempty(base@, '.', 0);
        }
        let mut namespace: Vec<String> = Vec::new();
        let mut i: usize = 0;
        while i + 1 < path.len()
            invariant
                views(path@) == pieces,
                pieces.len() >= 1,
                i + 1 <= path.len(),
                namespace@.len() == i,
                forall|j: int| 0 <= j < i ==> pieces[j].len() != 0,
                forall|j: int| 0 <= j < i ==> #[trigger] namespace@[j]@ == pieces[j],
            decreases path.len() - i,
        {
            assert(path@[i as int]@ == views(path@)[i as int]);
            if path[i].len() == 0 {
                return Err(ParamParseError::Empty);
            }
            namespace.push(string_of(path[i].as_slice()));
            i = i + 1;
        }
        assert(path@[i as int]@ == views(path@)[i as int]);
        if path[i].len() == 0 {
            return Err(ParamParseError::Empty);
        }
        let name = string_of(path[i].as_slice());
        assert(string_views(namespace@) =~= pieces.drop_last());
        Ok(Type { namespace, name, generic_ref, generic_arg })
    }

    /// Parses a type.
    pub fn from_str(ty: &str) -> (r: Result<Type, ParamParseError>)
        ensures
            type_outcome(r) == parse_type(ty@),
    {
        let text = chars_of(ty);
        Type::parse(text.as_slice())
    }
}

} // verus!

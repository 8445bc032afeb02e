//! Definitions: the lines of a schema.

use crate::text::chars_of;
use crate::text::find;
use crate::text::find_char;
use crate::text::find_char_from;
use crate::text::find_from;
use crate::text::split_whitespace;
use crate::text::string_of;
use crate::text::string_views;
use crate::text::trim;
use crate::text::trim_chars;
use crate::text::views;
use crate::text::words;
use crate::tl::category::Category;
use crate::tl::errors::ParamFailure;
use crate::tl::errors::ParamParseError;
use crate::tl::errors::ParseError;
use crate::tl::errors::ParseFailure;
use crate::tl::number::hex_error;
use crate::tl::number::hex_u32;
use crate::tl::number::parse_hex_u32;
use crate::tl::parameter::parse_parameter;
use crate::tl::parameter::Parameter;
use crate::tl::parameter::ParameterType;
use crate::tl::parameter::ParameterTypeView;
use crate::tl::parameter::ParameterView;
use crate::tl::signature::infer_id;
use crate::tl::signature::inferred_id;
use crate::tl::ty::parse_type;
use crate::tl::ty::Type;
use crate::tl::ty::TypeView;
use vstd::prelude::*;
use vstd::slice::slice_subrange;

verus! {

/// A definition of the Type Language: a constructor of a type, or a function.
#[derive(Debug, PartialEq, Clone)]
pub struct Definition {
    /// The name of the definition, with its namespaces.
    pub name: String,
    /// The number that identifies the definition: the one that the definition
    /// names, or else the one inferred from its signature.
    pub id: u32,
    /// The parameters of the definition, in order.
    pub params: Vec<Parameter>,
    /// The type that the definition constructs or returns.
    pub ty: Type,
    /// The category to which the definition belongs.
    pub category: Category,
}

/// `Definition` as a mathematical value.
pub struct DefinitionView {
    pub name: Seq<char>,
    pub id: u32,
    pub params: Seq<ParameterView>,
    pub ty: TypeView,
    pub category: Category,
}

/// The views of a vector of parameters.
pub open spec fn parameter_views(v: Seq<Parameter>) -> Seq<ParameterView> {
    Seq::new(v.len(), |i: int| v[i]@)
}

impl View for Definition {
    type V = DefinitionView;

    open spec fn view(&self) -> DefinitionView {
        DefinitionView {
            name: self.name@,
            id: self.id,
            params: parameter_views(self.params@),
            ty: self.ty@,
            category: self.category,
        }
    }
}

/// The views of a vector of definitions.
pub open spec fn all_views(v: Seq<Definition>) -> Seq<DefinitionView> {
    Seq::new(v.len(), |i: int| v[i]@)
}

/// The views of a vector of borrowed definitions.
pub open spec fn definition_views(v: Seq<&Definition>) -> Seq<DefinitionView> {
    Seq::new(v.len(), |i: int| v[i]@)
}

/// What stands before the first `=`, trimmed.
pub open spec fn definition_left(s: Seq<char>) -> Seq<char> {
    trim(s.take(find(s, '=')))
}

/// What stands after the first `=`, trimmed: the type.
pub open spec fn definition_right(s: Seq<char>) -> Seq<char> {
    trim(s.skip(find(s, '=') + 1))
}

/// The left side up to its first space: the name, with `#` and the
/// identifier where the definition names one.
pub open spec fn definition_head(s: Seq<char>) -> Seq<char> {
    let left = definition_left(s);
    left.take(find(left, ' '))
}

/// The left side from its first space on, trimmed: the parameters.
pub open spec fn definition_middle(s: Seq<char>) -> Seq<char> {
    let left = definition_left(s);
    trim(left.skip(find(left, ' ')))
}

/// The name of the definition: the head up to its first `#`.
pub open spec fn definition_name(s: Seq<char>) -> Seq<char> {
    let head = definition_head(s);
    head.take(find(head, '#'))
}

/// The text of the identifier that the definition names: what stands in the
/// head between the first `#` and the next.
pub open spec fn explicit_id(s: Seq<char>) -> Option<Seq<char>> {
    let head = definition_head(s);
    let hash = find(head, '#');
    if hash < head.len() {
        Some(head.subrange(hash + 1, find_from(head, '#', hash + 1)))
    } else {
        None
    }
}

/// The identifier of the definition: the one it names, in base 16, or else
/// the one inferred from the whole line. `None` where the one it names is
/// malformed.
pub open spec fn definition_id(s: Seq<char>) -> Option<u32> {
    match explicit_id(s) {
        Some(text) => hex_u32(text),
        None => Some(inferred_id(s)),
    }
}

/// The parameters read so far, and the generic types declared so far.
pub struct Scan {
    pub params: Seq<ParameterView>,
    pub type_defs: Seq<Seq<char>>,
}

/// Whether the parameter refers to a generic type that is not among
/// `type_defs`.
pub open spec fn dangling_generic(param: ParameterView, type_defs: Seq<Seq<char>>) -> bool {
    match param.ty {
        ParameterTypeView::Normal { ty, flag } => ty.generic_ref && !type_defs.contains(ty.name),
        ParameterTypeView::Flags => false,
    }
}

/// Reads one more word of the parameters. The declaration of a generic type
/// adds its name to the declared ones and no parameter; a parameter that
/// refers to a generic type needs the declaration to stand before it.
pub open spec fn scan_word(acc: Scan, word: Seq<char>, line: Seq<char>) -> Result<
    Scan,
    ParseFailure,
> {
    match parse_parameter(word) {
        Err(ParamFailure::TypeDef { name }) => Ok(
            Scan { params: acc.params, type_defs: acc.type_defs.push(name) },
        ),
        Ok(param) => if dangling_generic(param, acc.type_defs) {
            Err(ParseFailure::MalformedParam)
        } else {
            Ok(Scan { params: acc.params.push(param), type_defs: acc.type_defs })
        },
        Err(ParamFailure::Empty) => Err(ParseFailure::MissingType),
        Err(ParamFailure::Unimplemented) => Err(ParseFailure::NotImplemented { line }),
        Err(_) => Err(ParseFailure::MalformedParam),
    }
}

/// Reads the words of the parameters in order, up to the first that fails.
pub open spec fn scan_words(ws: Seq<Seq<char>>, line: Seq<char>) -> Result<Scan, ParseFailure>
    decreases ws.len(),
{
    if ws.len() == 0 {
        Ok(Scan { params: Seq::empty(), type_defs: Seq::empty() })
    } else {
        match scan_words(ws.drop_last(), line) {
            Ok(acc) => scan_word(acc, ws.last(), line),
            Err(e) => Err(e),
        }
    }
}

/// The definition that the line `s` writes:
/// `name[#id] parameters = type`.
///
/// The checks come in this order: the line is not blank; it has a `=`; the
/// type after it is well formed; the name is not empty; the identifier,
/// where one is named, is a 32-bit number in base 16, and is refused
/// otherwise with the error that the standard library has for its text; the
/// parameters are well formed, the first that is not deciding the error. The
/// type counts as a generic reference also where its name is one of the
/// declared generic types.
pub open spec fn parse_definition(s: Seq<char>) -> Result<DefinitionView, ParseFailure> {
    if trim(s).len() == 0 {
        Err(ParseFailure::EmptyDefinition)
    } else if find(s, '=') >= s.len() {
        Err(ParseFailure::MissingType)
    } else {
        match parse_type(definition_right(s)) {
            Err(_) => Err(ParseFailure::MissingType),
            Ok(ty) => if definition_name(s).len() == 0 {
                Err(ParseFailure::MissingName)
            } else {
                match definition_id(s) {
                    None => Err(ParseFailure::MalformedId(hex_error(explicit_id(s)->0))),
                    Some(id) => match scan_words(words(definition_middle(s)), trim(s)) {
                        Err(e) => Err(e),
                        Ok(scan) => Ok(
                            DefinitionView {
                                name: definition_name(s),
                                id,
                                params: scan.params,
                                ty: TypeView {
                                    namespace: ty.namespace,
                                    name: ty.name,
                                    generic_ref: ty.generic_ref || scan.type_defs.contains(
                                        ty.name,
                                    ),
                                    generic_arg: ty.generic_arg,
                                },
                                category: Category::Types,
                            },
                        ),
                    },
                }
            },
        }
    }
}

/// The outcome of parsing a definition as a mathematical value.
pub open spec fn definition_outcome(r: Result<Definition, ParseError>) -> Result<
    DefinitionView,
    ParseFailure,
> {
    match r {
        Ok(def) => Ok(def@),
        Err(e) => Err(e@),
    }
}

/// Once a word has failed, the words after it change nothing.
pub proof fn lemma_scan_failure_stays(ws: Seq<Seq<char>>, line: Seq<char>, k: int)
    requires
        0 <= k <= ws.len(),
        scan_words(ws.take(k), line) is Err,
    ensures
        scan_words(ws, line) == scan_words(ws.take(k), line),
    decreases ws.len(),
{
    if k == ws.len() {
        assert(ws.take(k) =~= ws);
    } else {
        assert(ws.drop_last().take(k) =~= ws.take(k));
        lemma_scan_failure_stays(ws.drop_last(), line, k);
    }
}

/// Every parameter that refers to a generic type refers to one that the
/// definition declares.
pub proof fn lemma_generics_are_declared(ws: Seq<Seq<char>>, line: Seq<char>)
    ensures
        scan_words(ws, line) matches Ok(scan) ==> forall|k: int|
            0 <= k < scan.params.len() ==> !dangling_generic(
                #[trigger] scan.params[k],
                scan.type_defs,
            ),
    decreases ws.len(),
{
    if ws.len() > 0 {
        lemma_generics_are_declared(ws.drop_last(), line);
        match scan_words(ws, line) {
            Ok(scan) => {
                let before = scan_words(ws.drop_last(), line)->Ok_0;
                assert forall|k: int| 0 <= k < scan.params.len() implies !dangling_generic(
                    #[trigger] scan.params[k],
                    scan.type_defs,
                ) by {
                    if k < before.params.len() {
                        assert(scan.params[k] == before.params[k]);
                        assert(!dangling_generic(before.params[k], before.type_defs));
                        match before.params[k].ty {
                            ParameterTypeView::Normal { ty, flag } => {
                                if ty.generic_ref {
                                    let at = choose|at: int|
                                        0 <= at < before.type_defs.len() && before.type_defs[at]
                                            == ty.name;
                                    assert(scan.type_defs[at] == ty.name);
                                }
                            },
                            ParameterTypeView::Flags => {},
                        }
                    }
                }
            },
            Err(_) => {},
        }
    }
}

/// What holds of every definition that parsing gives: it has a name; it
/// counts as the constructor of a type; its identifier is the one it names,
/// and else the one inferred; its parameters refer to generic types that it
/// declares only.
pub proof fn lemma_parsed_definition(s: Seq<char>)
    requires
        parse_definition(s) is Ok,
    ensures
        parse_definition(s)->Ok_0.name.len() > 0,
        parse_definition(s)->Ok_0.category == Category::Types,
        explicit_id(s) matches Some(text) ==> hex_u32(text) == Some(parse_definition(s)->Ok_0.id),
        explicit_id(s) is None ==> parse_definition(s)->Ok_0.id == inferred_id(s),
        scan_words(words(definition_middle(s)), trim(s)) matches Ok(scan) && parse_definition(
            s,
        )->Ok_0.params == scan.params && forall|k: int|
            0 <= k < scan.params.len() ==> !dangling_generic(
                #[trigger] scan.params[k],
                scan.type_defs,
            ),
{
    lemma_generics_are_declared(words(definition_middle(s)), trim(s));
}

/// Tests whether `name` is among `names`.
pub fn contains_name(names: &Vec<String>, name: &String) -> (found: bool)
    ensures
        found == string_views(names@).contains(name@),
{
    let mut i: usize = 0;
    while i < names.len()
        invariant
            i <= names@.len(),
            forall|j: int| 0 <= j < i ==> string_views(names@)[j] != name@,
        decreases names@.len() - i,
    {
        if names[i] == *name {
            assert(string_views(names@)[i as int] == name@);
            return true;
        }
        i = i + 1;
    }
    false
}

impl std::str::FromStr for Definition {
    type Err = ParseError;

    /// Parses a definition, as `Definition::from_str` does.
    fn from_str(definition: &str) -> (r: Result<Definition, ParseError>) {
        let chars = chars_of(definition);
        Definition::parse(chars.as_slice())
    }
}

impl Definition {
    /// Parses a definition.
    pub fn from_str(definition: &str) -> (r: Result<Definition, ParseError>)
        ensures
            definition_outcome(r) == parse_definition(definition@),
    {
        let chars = chars_of(definition);
        Definition::parse(chars.as_slice())
    }

    /// Parses a definition from its characters.
    #[verifier::loop_isolation(false)]
    pub fn parse(text: &[char]) -> (r: Result<Definition, ParseError>)
        ensures
            definition_outcome(r) == parse_definition(text@),
    {
        let line = trim_chars(text);
        if line.len() == 0 {
            return Err(ParseError::EmptyDefinition);
        }
        let eq = find_char(text, '=');
        if eq >= text.len() {
            return Err(ParseError::MissingType);
        }
        let left = trim_chars(slice_subrange(text, 0, eq));
        let right = trim_chars(slice_subrange(text, eq + 1, text.len()));
        let mut ty = match Type::parse(right) {
            Ok(ty) => ty,
            Err(_) => {
                return Err(ParseError::MissingType);
            },
        };
        let space = find_char(left, ' ');
        let head = slice_subrange(left, 0, space);
        let middle = trim_chars(slice_subrange(left, space, left.len()));
        let hash = find_char(head, '#');
        let name = slice_subrange(head, 0, hash);
        if name.len() == 0 {
            return Err(ParseError::MissingName);
        }
        let id = if hash < head.len() {
            let end = find_char_from(head, '#', hash + 1);
            let id_text = string_of(slice_subrange(head, hash + 1, end));
            match parse_hex_u32(id_text.as_str()) {
                Ok(id) => id,
                Err(cause) => {
                    return Err(ParseError::MalformedId(cause));
                },
            }
        } else {
            infer_id(text)
        };
        let ws = split_whitespace(middle);
        let ghost all = words(definition_middle(text@));
        let mut type_defs: Vec<String> = Vec::new();
        let mut params: Vec<Parameter> = Vec::new();
        let mut i: usize = 0;
        assert(all.take(0) =~= Seq::<Seq<char>>::empty());
        assert(parameter_views(params@) =~= Seq::<ParameterView>::empty());
        assert(string_views(type_defs@) =~= Seq::<Seq<char>>::empty());
        while i < ws.len()
            invariant
                i <= ws@.len(),
                views(ws@) == all,
                scan_words(all.take(i as int), line@) == Ok::<Scan, ParseFailure>(
                    Scan {
                        params: parameter_views(params@),
                        type_defs: string_views(type_defs@),
                    },
                ),
            decreases ws@.len() - i,
        {
            assert(ws@[i as int]@ == views(ws@)[i as int]);
            proof {
                assert(all.take(i + 1).drop_last() =~= all.take(i as int));
                assert(all.take(i + 1).last() == all[i as int]);
            }
            let ghost before_params = parameter_views(params@);
            let ghost before_defs = string_views(type_defs@);
            match Parameter::parse(ws[i].as_slice()) {
                Err(ParamParseError::TypeDef { name }) => {
                    type_defs.push(name);
                    assert(string_views(type_defs@) =~= before_defs.push(name@));
                },
                Ok(param) => {
                    let dangling = match &param.ty {
                        ParameterType::Normal { ty, flag } => ty.generic_ref && !contains_name(
                            &type_defs,
                            &ty.name,
                        ),
                        ParameterType::Flags => false,
                    };
                    if dangling {
                        proof {
                            lemma_scan_failure_stays(all, line@, i + 1);
                        }
                        return Err(ParseError::MalformedParam);
                    }
                    params.push(param);
                    assert(parameter_views(params@) =~= before_params.push(param@));
                },
                Err(ParamParseError::Empty) => {
                    proof {
                        lemma_scan_failure_stays(all, line@, i + 1);
                    }
                    return Err(ParseError::MissingType);
                },
                Err(ParamParseError::Unimplemented) => {
                    proof {
                        lemma_scan_failure_stays(all, line@, i + 1);
                    }
                    return Err(ParseError::NotImplemented { line: string_of(line) });
                },
                Err(_) => {
                    proof {
                        lemma_scan_failure_stays(all, line@, i + 1);
                    }
                    return Err(ParseError::MalformedParam);
                },
            }
            i = i + 1;
        }
        assert(all.take(i as int) =~= all);
        if contains_name(&type_defs, &ty.name) {
            ty.generic_ref = true;
        }
        Ok(Definition { name: string_of(name), id, params, ty, category: Category::Types })
    }
}

} // verus!

//! What the schema says of a type: how its values are written, and which
//! definitions construct them.

use crate::tl::definition::all_views;
use crate::text::is_ascii_lower;
use crate::text::chars_equal;
use crate::text::chars_of;
use crate::text::push_chars;
use crate::text::string_views;
use crate::tl::category::Category;
use crate::tl::definition::parameter_views;
use crate::tl::definition::Definition;
use crate::tl::definition::DefinitionView;
use crate::tl::parameter::Parameter;
use crate::tl::parameter::ParameterType;
use crate::tl::parameter::ParameterTypeView;
use crate::tl::parameter::ParameterView;
use crate::tl::ty::parse_type;
use crate::tl::ty::Type;
use crate::tl::ty::TypeView;
use vstd::prelude::*;
use vstd::string::StringExecFns;

verus! {

/// How the values of a type are written.
#[derive(Clone, Copy, Debug, PartialEq, Eq, Structural)]
pub enum Shape {
    /// `int`: four bytes.
    Int,
    /// `long`: eight bytes.
    Long,
    /// `double`: eight bytes.
    Double,
    /// `int128`: sixteen bytes as they are.
    Int128,
    /// `int256`: thirty-two bytes as they are.
    Int256,
    /// `bytes` and `string`: a length, the bytes, and padding.
    Bytes,
    /// `Bool`: one of two identifiers.
    Bool,
    /// `true`: nothing; that the parameter is present says it all.
    True,
    /// `Vector<t>`: the identifier of vectors, the count, the elements.
    BoxedVector,
    /// `vector<t>`: the count, the elements.
    BareVector,
    /// A boxed type of the schema: the identifier of a constructor, then its
    /// parameters.
    Boxed,
    /// A constructor of the schema: its parameters.
    Bare,
    /// None of these.
    Unknown,
}

/// Whether the type is the plain name `name`: without namespace and without
/// generic argument.
pub open spec fn is_plain(ty: TypeView, name: Seq<char>) -> bool {
    ty.namespace.len() == 0 && ty.generic_arg is None && ty.name == name
}

/// Whether the type is a vector called `name` of elements of a well-formed
/// type.
pub open spec fn is_vector(ty: TypeView, name: Seq<char>) -> bool {
    ty.namespace.len() == 0 && ty.name == name && (ty.generic_arg matches Some(arg) && parse_type(
        arg,
    ) is Ok)
}

/// The type of the elements of a vector.
pub open spec fn element_of(ty: TypeView) -> TypeView {
    parse_type(ty.generic_arg->0)->Ok_0
}

/// How the values of the type are written. A name that the format does not
/// know is a constructor of the schema if it starts with a small letter, and
/// a boxed type otherwise.
pub open spec fn shape_of(ty: TypeView) -> Shape {
    if ty.generic_ref || ty.name.len() == 0 {
        Shape::Unknown
    } else if is_vector(ty, "Vector"@) {
        Shape::BoxedVector
    } else if is_vector(ty, "vector"@) {
        Shape::BareVector
    } else if ty.generic_arg is Some {
        Shape::Unknown
    } else if is_plain(ty, "int"@) {
        Shape::Int
    } else if is_plain(ty, "long"@) {
        Shape::Long
    } else if is_plain(ty, "double"@) {
        Shape::Double
    } else if is_plain(ty, "int128"@) {
        Shape::Int128
    } else if is_plain(ty, "int256"@) {
        Shape::Int256
    } else if is_plain(ty, "bytes"@) || is_plain(ty, "string"@) {
        Shape::Bytes
    } else if is_plain(ty, "Bool"@) {
        Shape::Bool
    } else if is_plain(ty, "true"@) {
        Shape::True
    } else if is_ascii_lower(ty.name[0]) {
        Shape::Bare
    } else {
        Shape::Boxed
    }
}

/// The first `n` namespaces, each followed by a dot.
pub open spec fn dotted(namespace: Seq<Seq<char>>, n: int) -> Seq<char>
    decreases n,
{
    if n <= 0 {
        Seq::empty()
    } else {
        dotted(namespace, n - 1) + namespace[n - 1] + seq!['.']
    }
}

/// The name of the type with its namespaces.
pub open spec fn qualified_name(ty: TypeView) -> Seq<char> {
    dotted(ty.namespace, ty.namespace.len() as int) + ty.name
}

/// Whether `def` is a constructor of the boxed type `ty`.
pub open spec fn constructs_type(def: DefinitionView, ty: TypeView) -> bool {
    def.category == Category::Types && def.ty.namespace == ty.namespace && def.ty.name == ty.name
}

/// The constructor of the boxed type `ty` with the identifier `id`: the
/// first one at or after `from`.
pub open spec fn boxed_constructor(defs: Seq<DefinitionView>, ty: TypeView, id: u32, from: int) -> Option<
    int,
>
    decreases defs.len() - from,
{
    if from < 0 || from >= defs.len() {
        None
    } else if constructs_type(defs[from], ty) && defs[from].id == id {
        Some(from)
    } else {
        boxed_constructor(defs, ty, id, from + 1)
    }
}

/// The constructor that the bare type `ty` names: the first one at or after
/// `from`.
pub open spec fn bare_constructor(defs: Seq<DefinitionView>, ty: TypeView, from: int) -> Option<
    int,
>
    decreases defs.len() - from,
{
    if from < 0 || from >= defs.len() {
        None
    } else if defs[from].category == Category::Types && defs[from].name == qualified_name(ty) {
        Some(from)
    } else {
        bare_constructor(defs, ty, from + 1)
    }
}

/// The flags parameter called `name` among the first `k` parameters: the
/// first one at or after `from`.
pub open spec fn flags_position(params: Seq<ParameterView>, name: Seq<char>, k: int, from: int) -> Option<
    int,
>
    decreases k - from,
{
    if from < 0 || from >= k || from >= params.len() {
        None
    } else if params[from].ty is Flags && params[from].name == name {
        Some(from)
    } else {
        flags_position(params, name, k, from + 1)
    }
}

/// The flags parameter and the bit that say whether the parameter `k` is
/// present; `None` for a parameter that is always present, for a flags
/// parameter, and where the flag names no flags parameter before `k` or no
/// bit of it.
pub open spec fn condition_of(params: Seq<ParameterView>, k: int) -> Option<(int, u32)> {
    match params[k].ty {
        ParameterTypeView::Normal { ty, flag: Some(flag) } => match flags_position(
            params,
            flag.name,
            k,
            0,
        ) {
            Some(j) if flag.index < 32 => Some((j, flag.index as u32)),
            _ => None,
        },
        _ => None,
    }
}

/// Whether the parameter `k` is conditional.
pub open spec fn is_conditional(params: Seq<ParameterView>, k: int) -> bool {
    params[k].ty matches ParameterTypeView::Normal { ty, flag: Some(_) }
}

/// How many of the first `n` parameters are flags parameters.
pub open spec fn flags_count(params: Seq<ParameterView>, n: int) -> int
    decreases n,
{
    if n <= 0 {
        0
    } else if params[n - 1].ty is Flags {
        flags_count(params, n - 1) + 1
    } else {
        flags_count(params, n - 1)
    }
}

/// Whether the flags of the parameters are in order: there is one flags
/// parameter at most, and every conditional parameter names a bit of a
/// flags parameter before it.
pub open spec fn flags_in_order(params: Seq<ParameterView>) -> bool {
    flags_count(params, params.len() as int) <= 1 && forall|k: int|
        0 <= k < params.len() && is_conditional(params, k) ==> #[trigger] condition_of(
            params,
            k,
        ) is Some
}

pub proof fn lemma_boxed_constructor(defs: Seq<DefinitionView>, ty: TypeView, id: u32, from: int)
    requires
        0 <= from,
    ensures
        boxed_constructor(defs, ty, id, from) matches Some(c) ==> from <= c < defs.len()
            && constructs_type(defs[c], ty) && defs[c].id == id,
    decreases defs.len() - from,
{
    if from < defs.len() && !(constructs_type(defs[from], ty) && defs[from].id == id) {
        lemma_boxed_constructor(defs, ty, id, from + 1);
    }
}

pub proof fn lemma_bare_constructor(defs: Seq<DefinitionView>, ty: TypeView, from: int)
    requires
        0 <= from,
    ensures
        bare_constructor(defs, ty, from) matches Some(c) ==> from <= c < defs.len(),
    decreases defs.len() - from,
{
    if from < defs.len() && !(defs[from].category == Category::Types && defs[from].name
        == qualified_name(ty)) {
        lemma_bare_constructor(defs, ty, from + 1);
    }
}

pub proof fn lemma_flags_position(params: Seq<ParameterView>, name: Seq<char>, k: int, from: int)
    requires
        0 <= from,
    ensures
        flags_position(params, name, k, from) matches Some(j) ==> from <= j < k && j < params.len()
            && params[j].ty is Flags,
    decreases k - from,
{
    if from < k && from < params.len() && !(params[from].ty is Flags && params[from].name
        == name) {
        lemma_flags_position(params, name, k, from + 1);
    }
}

/// Tests whether the characters are those of the text.
fn is_text(chars: &[char], text: &str) -> (same: bool)
    ensures
        same == (chars@ == text@),
{
    let other = chars_of(text);
    chars_equal(chars, other.as_slice())
}

/// The type of the elements of a vector, where it is well formed.
pub fn element_type(ty: &Type) -> (element: Option<Type>)
    ensures
        match element {
            Some(e) => ty@.generic_arg is Some && parse_type(ty@.generic_arg->0) == Ok::<
                TypeView,
                crate::tl::errors::ParamFailure,
            >(e@),
            None => !(ty@.generic_arg matches Some(arg) && parse_type(arg) is Ok),
        },
{
    match &ty.generic_arg {
        Some(arg) => match Type::from_str(arg.as_str()) {
            Ok(element) => Some(element),
            Err(_) => None,
        },
        None => None,
    }
}

/// Says how the values of the type are written.
pub fn classify(ty: &Type) -> (shape: Shape)
    ensures
        shape == shape_of(ty@),
{
    let name = chars_of(ty.name.as_str());
    if ty.generic_ref || name.len() == 0 {
        return Shape::Unknown;
    }
    let top = ty.namespace.len() == 0;
    assert(top == (ty@.namespace.len() == 0));
    if top && is_text(name.as_slice(), "Vector") && element_type(ty).is_some() {
        return Shape::BoxedVector;
    }
    if top && is_text(name.as_slice(), "vector") && element_type(ty).is_some() {
        return Shape::BareVector;
    }
    if ty.generic_arg.is_some() {
        return Shape::Unknown;
    }
    if top && is_text(name.as_slice(), "int") {
        Shape::Int
    } else if top && is_text(name.as_slice(), "long") {
        Shape::Long
    } else if top && is_text(name.as_slice(), "double") {
        Shape::Double
    } else if top && is_text(name.as_slice(), "int128") {
        Shape::Int128
    } else if top && is_text(name.as_slice(), "int256") {
        Shape::Int256
    } else if top && (is_text(name.as_slice(), "bytes") || is_text(name.as_slice(), "string")) {
        Shape::Bytes
    } else if top && is_text(name.as_slice(), "Bool") {
        Shape::Bool
    } else if top && is_text(name.as_slice(), "true") {
        Shape::True
    } else if 'a' <= name[0] && name[0] <= 'z' {
        Shape::Bare
    } else {
        Shape::Boxed
    }
}

/// Tests whether two paths of namespaces are the same.
fn same_namespace(a: &Vec<String>, b: &Vec<String>) -> (equal: bool)
    ensures
        equal == (string_views(a@) == string_views(b@)),
{
    if a.len() != b.len() {
        assert(string_views(a@).len() != string_views(b@).len());
        return false;
    }
    let mut i: usize = 0;
    while i < a.len()
        invariant
            i <= a@.len(),
            a@.len() == b@.len(),
            forall|j: int| 0 <= j < i ==> a@[j]@ == b@[j]@,
        decreases a@.len() - i,
    {
        if a[i] != b[i] {
            assert(string_views(a@)[i as int] != string_views(b@)[i as int]);
            return false;
        }
        i = i + 1;
    }
    assert(string_views(a@) =~= string_views(b@));
    true
}

/// Finds the constructor of the boxed type `ty` with the identifier `id`.
pub fn find_boxed(definitions: &Vec<Definition>, ty: &Type, id: u32) -> (found: Option<usize>)
    ensures
        match found {
            Some(c) => boxed_constructor(all_views(definitions@), ty@, id, 0) == Some(c as int)
                && c < definitions@.len(),
            None => boxed_constructor(all_views(definitions@), ty@, id, 0) is None,
        },
{
    let ghost defs = all_views(definitions@);
    let mut i: usize = 0;
    while i < definitions.len()
        invariant
            i <= definitions@.len(),
            defs == all_views(definitions@),
            boxed_constructor(defs, ty@, id, i as int) == boxed_constructor(defs, ty@, id, 0),
        decreases definitions@.len() - i,
    {
        let def = &definitions[i];
        assert(defs[i as int] == def@);
        if def.category == Category::Types && def.id == id && def.ty.name == ty.name
            && same_namespace(&def.ty.namespace, &ty.namespace) {
            return Some(i);
        }
        i = i + 1;
    }
    None
}

/// Writes the name of the type with its namespaces.
fn qualified(ty: &Type) -> (name: String)
    ensures
        name@ == qualified_name(ty@),
{
    let mut name = String::new();
    let mut i: usize = 0;
    while i < ty.namespace.len()
        invariant
            i <= ty.namespace@.len(),
            name@ == dotted(ty@.namespace, i as int),
        decreases ty.namespace@.len() - i,
    {
        assert(ty@.namespace[i as int] == ty.namespace@[i as int]@);
        name.append(ty.namespace[i].as_str());
        let dot: [char; 1] = ['.'];
        assert(dot@ =~= seq!['.']);
        push_chars(&mut name, dot.as_slice());
        i = i + 1;
    }
    name.append(ty.name.as_str());
    name
}

/// Finds the constructor that the bare type `ty` names.
pub fn find_bare(definitions: &Vec<Definition>, ty: &Type) -> (found: Option<usize>)
    ensures
        match found {
            Some(c) => bare_constructor(all_views(definitions@), ty@, 0) == Some(c as int) && c
                < definitions@.len(),
            None => bare_constructor(all_views(definitions@), ty@, 0) is None,
        },
{
    let ghost defs = all_views(definitions@);
    let name = qualified(ty);
    let mut i: usize = 0;
    while i < definitions.len()
        invariant
            i <= definitions@.len(),
            defs == all_views(definitions@),
            name@ == qualified_name(ty@),
            bare_constructor(defs, ty@, i as int) == bare_constructor(defs, ty@, 0),
        decreases definitions@.len() - i,
    {
        let def = &definitions[i];
        assert(defs[i as int] == def@);
        if def.category == Category::Types && def.name == name {
            return Some(i);
        }
        i = i + 1;
    }
    None
}

/// Finds the flags parameter and the bit that say whether the parameter `k`
/// is present.
#[verifier::loop_isolation(false)]
pub(crate) fn find_condition(params: &Vec<Parameter>, k: usize) -> (found: Option<(usize, u32)>)
    requires
        k < params@.len(),
    ensures
        match found {
            Some((j, bit)) => condition_of(parameter_views(params@), k as int) == Some(
                (j as int, bit),
            ) && j < k && bit < 32,
            None => condition_of(parameter_views(params@), k as int) is None,
        },
{
    let ghost views = parameter_views(params@);
    assert(views[k as int] == params@[k as int]@);
    match &params[k].ty {
        ParameterType::Normal { ty, flag: Some(flag) } => {
            if flag.index >= 32 {
                proof {
                    lemma_flags_position(views, flag.name@, k as int, 0);
                }
                return None;
            }
            let mut j: usize = 0;
            while j < k
                invariant
                    j <= k,
                    k < params@.len(),
                    views == parameter_views(params@),
                    flags_position(views, flag.name@, k as int, j as int) == flags_position(
                        views,
                        flag.name@,
                        k as int,
                        0,
                    ),
                decreases k - j,
            {
                assert(views[j as int] == params@[j as int]@);
                let is_flags = match &params[j].ty {
                    ParameterType::Flags => true,
                    _ => false,
                };
                if is_flags && params[j].name == flag.name {
                    return Some((j, flag.index as u32));
                }
                j = j + 1;
            }
            None
        },
        _ => None,
    }
}

/// Tests whether the flags of the parameters of a definition are in order.
#[verifier::loop_isolation(false)]
pub fn has_flags_in_order(def: &Definition) -> (ok: bool)
    ensures
        ok == flags_in_order(def@.params),
{
    let ghost params = def@.params;
    let mut count: usize = 0;
    let mut k: usize = 0;
    while k < def.params.len()
        invariant
            k <= def.params@.len(),
            count == flags_count(params, k as int),
            count <= k,
            forall|j: int|
                0 <= j < k && is_conditional(params, j) ==> #[trigger] condition_of(
                    params,
                    j,
                ) is Some,
        decreases def.params@.len() - k,
    {
        assert(params[k as int] == def.params@[k as int]@);
        match &def.params[k].ty {
            ParameterType::Flags => {
                count = count + 1;
            },
            ParameterType::Normal { ty, flag } => {
                if flag.is_some() && find_condition(&def.params, k).is_none() {
                    return false;
                }
            },
        }
        k = k + 1;
    }
    count <= 1
}

} // verus!

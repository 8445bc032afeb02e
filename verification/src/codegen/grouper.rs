//! Grouping of the definitions of a schema by namespace and by type.

use crate::text::chars_of;
use crate::text::string_views;
use crate::tl::category::Category;
use crate::tl::definition::all_views;
use crate::tl::definition::definition_views;
use crate::tl::definition::Definition;
use crate::tl::definition::DefinitionView;
use crate::tl::ty::Type;
use crate::tl::ty::TypeView;
use vstd::prelude::*;

verus! {

/// Whether `a` comes before `b` from index `i` on, given that they agree
/// before it.
pub open spec fn lex_less_from(a: Seq<char>, b: Seq<char>, i: int) -> bool
    decreases a.len() - i,
{
    if i < 0 || i >= b.len() {
        false
    } else if i >= a.len() {
        true
    } else if a[i] != b[i] {
        a[i] < b[i]
    } else {
        lex_less_from(a, b, i + 1)
    }
}

/// Whether `a` comes before `b` in the order of strings: at the first
/// character in which they differ `a` has the smaller one, or `a` is a proper
/// prefix of `b`.
pub open spec fn lex_less(a: Seq<char>, b: Seq<char>) -> bool {
    lex_less_from(a, b, 0)
}

/// Whether the namespace `a` comes before `b`: no namespace comes first, then
/// the namespaces in the order of strings.
pub open spec fn key_less(a: Option<Seq<char>>, b: Option<Seq<char>>) -> bool {
    match (a, b) {
        (None, None) => false,
        (None, Some(_)) => true,
        (Some(_), None) => false,
        (Some(x), Some(y)) => lex_less(x, y),
    }
}

/// The first index at or after `i` whose name does not come before `x`.
pub open spec fn name_position(s: Seq<Seq<char>>, x: Seq<char>, i: int) -> int
    decreases s.len() - i,
{
    if 0 <= i < s.len() && lex_less(s[i], x) {
        name_position(s, x, i + 1)
    } else {
        i
    }
}

/// `s` with `x` put in its place, unless `x` already stands there.
pub open spec fn with_name(s: Seq<Seq<char>>, x: Seq<char>) -> Seq<Seq<char>> {
    let p = name_position(s, x, 0);
    if p < s.len() && s[p] == x {
        s
    } else {
        s.insert(p, x)
    }
}

/// The first index at or after `i` whose namespace does not come before `x`.
pub open spec fn key_position(s: Seq<Option<Seq<char>>>, x: Option<Seq<char>>, i: int) -> int
    decreases s.len() - i,
{
    if 0 <= i < s.len() && key_less(s[i], x) {
        key_position(s, x, i + 1)
    } else {
        i
    }
}

/// `s` with `x` put in its place, unless `x` already stands there.
pub open spec fn with_key(s: Seq<Option<Seq<char>>>, x: Option<Seq<char>>) -> Seq<
    Option<Seq<char>>,
> {
    let p = key_position(s, x, 0);
    if p < s.len() && s[p] == x {
        s
    } else {
        s.insert(p, x)
    }
}

/// The outermost namespace of a type, if it has one.
pub open spec fn type_key(ty: TypeView) -> Option<Seq<char>> {
    if ty.namespace.len() > 0 {
        Some(ty.namespace[0])
    } else {
        None
    }
}

/// Whether `def` is a constructor of a type in the namespace `key`.
pub open spec fn in_namespace(def: DefinitionView, key: Option<Seq<char>>) -> bool {
    def.category == Category::Types && type_key(def.ty) == key
}

/// Whether `def` is a constructor of the type `name` in the namespace `key`.
pub open spec fn constructs(def: DefinitionView, key: Option<Seq<char>>, name: Seq<char>) -> bool {
    in_namespace(def, key) && def.ty.name == name
}

/// The namespaces of the types that the first `n` of `defs` construct, in
/// order and each once.
pub open spec fn type_namespaces(defs: Seq<DefinitionView>, n: int) -> Seq<Option<Seq<char>>>
    decreases n,
{
    if n <= 0 {
        Seq::empty()
    } else if defs[n - 1].category == Category::Types {
        with_key(type_namespaces(defs, n - 1), type_key(defs[n - 1].ty))
    } else {
        type_namespaces(defs, n - 1)
    }
}

/// The names of the types in the namespace `key` that the first `n` of `defs`
/// construct, in order and each once.
pub open spec fn type_names(defs: Seq<DefinitionView>, key: Option<Seq<char>>, n: int) -> Seq<
    Seq<char>,
>
    decreases n,
{
    if n <= 0 {
        Seq::empty()
    } else if in_namespace(defs[n - 1], key) {
        with_name(type_names(defs, key, n - 1), defs[n - 1].ty.name)
    } else {
        type_names(defs, key, n - 1)
    }
}

/// The constructors of the type `name` in the namespace `key` among the
/// first `n` of `defs`, in the order of `defs`.
pub open spec fn constructors(
    defs: Seq<DefinitionView>,
    key: Option<Seq<char>>,
    name: Seq<char>,
    n: int,
) -> Seq<DefinitionView>
    decreases n,
{
    if n <= 0 {
        Seq::empty()
    } else if constructs(defs[n - 1], key, name) {
        constructors(defs, key, name, n - 1).push(defs[n - 1])
    } else {
        constructors(defs, key, name, n - 1)
    }
}

/// The view of a namespace.
pub open spec fn key_view(key: Option<String>) -> Option<Seq<char>> {
    match key {
        Some(ns) => Some(ns@),
        None => None,
    }
}

/// The views of a vector of namespaces.
pub open spec fn key_views(v: Seq<Option<String>>) -> Seq<Option<Seq<char>>> {
    Seq::new(v.len(), |i: int| key_view(v[i]))
}

/// The types of one namespace.
#[derive(Debug, PartialEq, Clone)]
pub struct TypeGroup {
    /// The namespace, if the types are in one.
    pub namespace: Option<String>,
    /// The names of the types, in order and each once.
    pub names: Vec<String>,
}

/// Whether `groups` lists the namespaces of the types that `defs` construct,
/// in order, each with the names of its types.
pub open spec fn groups_of(groups: Seq<TypeGroup>, defs: Seq<DefinitionView>) -> bool {
    let keys = type_namespaces(defs, defs.len() as int);
    &&& groups.len() == keys.len()
    &&& forall|i: int|
        0 <= i < groups.len() ==> {
            &&& key_view(#[trigger] groups[i].namespace) == keys[i]
            &&& string_views(groups[i].names@) == type_names(defs, keys[i], defs.len() as int)
        }
}

/// Tests whether `a` comes before `b` in the order of strings.
pub fn string_less(a: &str, b: &str) -> (less: bool)
    ensures
        less == lex_less(a@, b@),
{
    let x = chars_of(a);
    let y = chars_of(b);
    let mut i: usize = 0;
    while i < x.len() && i < y.len() && x[i] == y[i]
        invariant
            i <= x@.len(),
            i <= y@.len(),
            lex_less_from(x@, y@, i as int) == lex_less(x@, y@),
        decreases x@.len() - i,
    {
        i = i + 1;
    }
    if i >= y.len() {
        false
    } else if i >= x.len() {
        true
    } else {
        x[i] < y[i]
    }
}

/// Tests whether the namespace `a` comes before `b`.
fn namespace_less(a: &Option<String>, b: &Option<String>) -> (less: bool)
    ensures
        less == key_less(key_view(*a), key_view(*b)),
{
    match (a, b) {
        (None, None) => false,
        (None, Some(_)) => true,
        (Some(_), None) => false,
        (Some(x), Some(y)) => string_less(x.as_str(), y.as_str()),
    }
}

/// Tests whether two namespaces are the same.
fn namespace_equal(a: &Option<String>, b: &Option<String>) -> (equal: bool)
    ensures
        equal == (key_view(*a) == key_view(*b)),
{
    match (a, b) {
        (None, None) => true,
        (Some(x), Some(y)) => *x == *y,
        _ => false,
    }
}

/// The outermost namespace of a type.
fn namespace_of(ty: &Type) -> (key: Option<String>)
    ensures
        key_view(key) == type_key(ty@),
{
    if ty.namespace.len() > 0 {
        Some(ty.namespace[0].clone())
    } else {
        None
    }
}

/// Puts `name` in its place among `names`.
fn insert_name(names: &mut Vec<String>, name: &String)
    ensures
        string_views(final(names)@) == with_name(string_views(old(names)@), name@),
{
    let ghost before = string_views(names@);
    let mut p: usize = 0;
    while p < names.len() && string_less(names[p].as_str(), name.as_str())
        invariant
            p <= names@.len(),
            names@ == old(names)@,
            before == string_views(names@),
            name_position(before, name@, p as int) == name_position(before, name@, 0),
        decreases names@.len() - p,
    {
        assert(before[p as int] == names@[p as int]@);
        p = p + 1;
    }
    if p < names.len() {
        assert(before[p as int] == names@[p as int]@);
    }
    if p < names.len() && names[p] == *name {
        return ;
    }
    names.insert(p, name.clone());
    assert(string_views(names@) =~= before.insert(p as int, name@));
}

/// Puts `key` in its place among `keys`.
fn insert_namespace(keys: &mut Vec<Option<String>>, key: Option<String>)
    ensures
        key_views(final(keys)@) == with_key(key_views(old(keys)@), key_view(key)),
{
    let ghost before = key_views(keys@);
    let mut p: usize = 0;
    while p < keys.len() && namespace_less(&keys[p], &key)
        invariant
            p <= keys@.len(),
            keys@ == old(keys)@,
            before == key_views(keys@),
            key_position(before, key_view(key), p as int) == key_position(
                before,
                key_view(key),
                0,
            ),
        decreases keys@.len() - p,
    {
        assert(before[p as int] == key_view(keys@[p as int]));
        p = p + 1;
    }
    if p < keys.len() {
        assert(before[p as int] == key_view(keys@[p as int]));
    }
    if p < keys.len() && namespace_equal(&keys[p], &key) {
        return ;
    }
    keys.insert(p, key);
    assert(key_views(keys@) =~= before.insert(p as int, key_view(key)));
}

/// Tests whether `def` is a constructor of a type in the namespace `key`.
fn is_in_namespace(def: &Definition, key: &Option<String>) -> (b: bool)
    ensures
        b == in_namespace(def@, key_view(*key)),
{
    def.category == Category::Types && namespace_equal(&namespace_of(&def.ty), key)
}

/// The namespaces of the types that the definitions construct, each with the
/// names of its types.
pub fn group_types_by_ns(definitions: &Vec<Definition>) -> (groups: Vec<TypeGroup>)
    ensures
        groups_of(groups@, all_views(definitions@)),
{
    let ghost defs = all_views(definitions@);
    let mut keys: Vec<Option<String>> = Vec::new();
    let mut i: usize = 0;
    assert(key_views(keys@) =~= Seq::<Option<Seq<char>>>::empty());
    while i < definitions.len()
        invariant
            i <= definitions@.len(),
            defs == all_views(definitions@),
            key_views(keys@) == type_namespaces(defs, i as int),
        decreases definitions@.len() - i,
    {
        if definitions[i].category == Category::Types {
            insert_namespace(&mut keys, namespace_of(&definitions[i].ty));
        }
        i = i + 1;
    }
    let mut groups: Vec<TypeGroup> = Vec::new();
    let mut k: usize = 0;
    while k < keys.len()
        invariant
            k <= keys@.len(),
            defs == all_views(definitions@),
            key_views(keys@) == type_namespaces(defs, defs.len() as int),
            groups@.len() == k,
            forall|g: int|
                0 <= g < k ==> {
                    &&& key_view(#[trigger] groups@[g].namespace) == key_views(keys@)[g]
                    &&& string_views(groups@[g].names@) == type_names(
                        defs,
                        key_views(keys@)[g],
                        defs.len() as int,
                    )
                },
        decreases keys@.len() - k,
    {
        let key = keys[k].clone();
        assert(key_view(key) == key_views(keys@)[k as int]);
        let mut names: Vec<String> = Vec::new();
        let mut j: usize = 0;
        assert(string_views(names@) =~= Seq::<Seq<char>>::empty());
        while j < definitions.len()
            invariant
                j <= definitions@.len(),
                defs == all_views(definitions@),
                string_views(names@) == type_names(defs, key_view(key), j as int),
            decreases definitions@.len() - j,
        {
            if is_in_namespace(&definitions[j], &key) {
                insert_name(&mut names, &definitions[j].ty.name);
            }
            j = j + 1;
        }
        groups.push(TypeGroup { namespace: key, names });
        k = k + 1;
    }
    groups
}

/// The constructors of the type `name` in the namespace `key`.
pub fn constructors_of<'a>(
    definitions: &'a Vec<Definition>,
    key: &Option<String>,
    name: &String,
) -> (found: Vec<&'a Definition>)
    ensures
        definition_views(found@) == constructors(
            all_views(definitions@),
            key_view(*key),
            name@,
            definitions@.len() as int,
        ),
{
    let ghost defs = all_views(definitions@);
    let mut found: Vec<&Definition> = Vec::new();
    let mut i: usize = 0;
    assert(definition_views(found@) =~= Seq::<DefinitionView>::empty());
    while i < definitions.len()
        invariant
            i <= definitions@.len(),
            defs == all_views(definitions@),
            definition_views(found@) == constructors(defs, key_view(*key), name@, i as int),
        decreases definitions@.len() - i,
    {
        let def = &definitions[i];
        let ghost before = definition_views(found@);
        if is_in_namespace(def, key) && def.ty.name == *name {
            found.push(def);
            assert(definition_views(found@) =~= before.push(def@));
        }
        i = i + 1;
    }
    found
}

} // verus!

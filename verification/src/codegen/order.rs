//! The order of names, and what it makes of the groups: every namespace and
//! every type stands once, in its place.

use crate::codegen::grouper::constructors;
use crate::codegen::grouper::constructs;
use crate::codegen::grouper::in_namespace;
use crate::codegen::grouper::key_less;
use crate::codegen::grouper::key_position;
use crate::codegen::grouper::lex_less;
use crate::codegen::grouper::lex_less_from;
use crate::codegen::grouper::name_position;
use crate::codegen::grouper::type_key;
use crate::codegen::grouper::type_names;
use crate::codegen::grouper::type_namespaces;
use crate::codegen::grouper::with_key;
use crate::codegen::grouper::with_name;
use crate::tl::category::Category;
use crate::tl::definition::DefinitionView;
use vstd::prelude::*;

verus! {

/// Whether the names stand in order, each before all that follow.
pub open spec fn names_in_order(s: Seq<Seq<char>>) -> bool {
    forall|i: int, j: int| 0 <= i < j < s.len() ==> lex_less(s[i], s[j])
}

/// Whether the namespaces stand in order, each before all that follow.
pub open spec fn keys_in_order(s: Seq<Option<Seq<char>>>) -> bool {
    forall|i: int, j: int| 0 <= i < j < s.len() ==> key_less(s[i], s[j])
}

proof fn lemma_lex_irreflexive_from(a: Seq<char>, i: int)
    requires
        0 <= i,
    ensures
        !lex_less_from(a, a, i),
    decreases a.len() - i,
{
    if i < a.len() {
        lemma_lex_irreflexive_from(a, i + 1);
    }
}

proof fn lemma_lex_total_from(a: Seq<char>, b: Seq<char>, i: int)
    requires
        0 <= i <= a.len(),
        i <= b.len(),
        a.take(i) == b.take(i),
        a != b,
    ensures
        lex_less_from(a, b, i) || lex_less_from(b, a, i),
    decreases a.len() - i,
{
    if i >= a.len() || i >= b.len() {
        if i >= a.len() && i >= b.len() {
            assert(a.take(i) =~= a);
            assert(b.take(i) =~= b);
        }
    } else if a[i] == b[i] {
        assert(a.take(i + 1) =~= a.take(i).push(a[i]));
        assert(b.take(i + 1) =~= b.take(i).push(b[i]));
        lemma_lex_total_from(a, b, i + 1);
    }
}

proof fn lemma_lex_transitive_from(a: Seq<char>, b: Seq<char>, c: Seq<char>, i: int)
    requires
        0 <= i,
        lex_less_from(a, b, i),
        lex_less_from(b, c, i),
    ensures
        lex_less_from(a, c, i),
    decreases b.len() - i,
{
    if i < a.len() && a[i] == b[i] && b[i] == c[i] {
        lemma_lex_transitive_from(a, b, c, i + 1);
    }
}

/// No name comes before itself.
pub proof fn lemma_lex_irreflexive(a: Seq<char>)
    ensures
        !lex_less(a, a),
{
    lemma_lex_irreflexive_from(a, 0);
}

/// Names in order are all different.
pub proof fn lemma_names_distinct(s: Seq<Seq<char>>)
    requires
        names_in_order(s),
    ensures
        s.no_duplicates(),
{
    assert forall|i: int, j: int| 0 <= i < s.len() && 0 <= j < s.len() && i != j implies s[i]
        != s[j] by {
        lemma_lex_irreflexive(s[i]);
        if i < j {
            assert(lex_less(s[i], s[j]));
        } else {
            assert(lex_less(s[j], s[i]));
        }
    }
}

/// Of two different names one comes before the other.
pub proof fn lemma_lex_total(a: Seq<char>, b: Seq<char>)
    requires
        a != b,
    ensures
        lex_less(a, b) || lex_less(b, a),
{
    assert(a.take(0) =~= b.take(0));
    lemma_lex_total_from(a, b, 0);
}

/// What comes before a name comes before all that the name comes before.
pub proof fn lemma_lex_transitive(a: Seq<char>, b: Seq<char>, c: Seq<char>)
    requires
        lex_less(a, b),
        lex_less(b, c),
    ensures
        lex_less(a, c),
{
    lemma_lex_transitive_from(a, b, c, 0);
}

proof fn lemma_key_total(a: Option<Seq<char>>, b: Option<Seq<char>>)
    requires
        a != b,
    ensures
        key_less(a, b) || key_less(b, a),
{
    match (a, b) {
        (Some(x), Some(y)) => {
            lemma_lex_total(x, y);
        },
        _ => {},
    }
}

proof fn lemma_key_transitive(a: Option<Seq<char>>, b: Option<Seq<char>>, c: Option<Seq<char>>)
    requires
        key_less(a, b),
        key_less(b, c),
    ensures
        key_less(a, c),
{
    match (a, b, c) {
        (Some(x), Some(y), Some(z)) => {
            lemma_lex_transitive(x, y, z);
        },
        _ => {},
    }
}

proof fn lemma_name_position(s: Seq<Seq<char>>, x: Seq<char>, i: int)
    requires
        0 <= i <= s.len(),
    ensures
        i <= name_position(s, x, i) <= s.len(),
        forall|j: int| i <= j < name_position(s, x, i) ==> lex_less(s[j], x),
        name_position(s, x, i) < s.len() ==> !lex_less(s[name_position(s, x, i)], x),
    decreases s.len() - i,
{
    if i < s.len() && lex_less(s[i], x) {
        lemma_name_position(s, x, i + 1);
    }
}

proof fn lemma_key_position(s: Seq<Option<Seq<char>>>, x: Option<Seq<char>>, i: int)
    requires
        0 <= i <= s.len(),
    ensures
        i <= key_position(s, x, i) <= s.len(),
        forall|j: int| i <= j < key_position(s, x, i) ==> key_less(s[j], x),
        key_position(s, x, i) < s.len() ==> !key_less(s[key_position(s, x, i)], x),
    decreases s.len() - i,
{
    if i < s.len() && key_less(s[i], x) {
        lemma_key_position(s, x, i + 1);
    }
}

/// A name put in its place leaves the names in order, and is the only one
/// that may have come to them.
proof fn lemma_with_name(s: Seq<Seq<char>>, x: Seq<char>, y: Seq<char>)
    requires
        names_in_order(s),
    ensures
        names_in_order(with_name(s, x)),
        with_name(s, x).contains(y) <==> (s.contains(y) || y == x),
{
    lemma_name_position(s, x, 0);
    let p = name_position(s, x, 0);
    let t = with_name(s, x);
    if p < s.len() && s[p] == x {
    } else {
        assert(t == s.insert(p, x));
        if p < s.len() {
            lemma_lex_total(s[p], x);
        }
        assert forall|i: int, j: int| 0 <= i < j < t.len() implies lex_less(t[i], t[j]) by {
            if j < p {
                assert(lex_less(s[i], s[j]));
            } else if j == p {
                assert(lex_less(s[i], x));
            } else if i < p {
                assert(t[j] == s[j - 1]);
                assert(lex_less(s[i], s[j - 1]));
            } else if i == p {
                assert(t[j] == s[j - 1]);
                if j - 1 > p {
                    assert(lex_less(s[p], s[j - 1]));
                    lemma_lex_transitive(x, s[p], s[j - 1]);
                }
            } else {
                assert(t[i] == s[i - 1]);
                assert(t[j] == s[j - 1]);
                assert(lex_less(s[i - 1], s[j - 1]));
            }
        }
    }
    assert(t.contains(y) <==> (s.contains(y) || y == x)) by {
        if p < s.len() && s[p] == x {
            assert(s.contains(x));
        } else {
            if t.contains(y) {
                let k = choose|k: int| 0 <= k < t.len() && t[k] == y;
                if k < p {
                    assert(s[k] == y);
                } else if k > p {
                    assert(s[k - 1] == y);
                }
            }
            if s.contains(y) {
                let k = choose|k: int| 0 <= k < s.len() && s[k] == y;
                if k < p {
                    assert(t[k] == y);
                } else {
                    assert(t[k + 1] == y);
                }
            }
            if y == x {
                assert(t[p] == x);
            }
        }
    }
}

/// A namespace put in its place leaves the namespaces in order, and is the
/// only one that may have come to them.
proof fn lemma_with_key(
    s: Seq<Option<Seq<char>>>,
    x: Option<Seq<char>>,
    y: Option<Seq<char>>,
)
    requires
        keys_in_order(s),
    ensures
        keys_in_order(with_key(s, x)),
        with_key(s, x).contains(y) <==> (s.contains(y) || y == x),
{
    lemma_key_position(s, x, 0);
    let p = key_position(s, x, 0);
    let t = with_key(s, x);
    if p < s.len() && s[p] == x {
    } else {
        assert(t == s.insert(p, x));
        if p < s.len() {
            lemma_key_total(s[p], x);
        }
        assert forall|i: int, j: int| 0 <= i < j < t.len() implies key_less(t[i], t[j]) by {
            if j < p {
                assert(key_less(s[i], s[j]));
            } else if j == p {
                assert(key_less(s[i], x));
            } else if i < p {
                assert(t[j] == s[j - 1]);
                assert(key_less(s[i], s[j - 1]));
            } else if i == p {
                assert(t[j] == s[j - 1]);
                if j - 1 > p {
                    assert(key_less(s[p], s[j - 1]));
                    lemma_key_transitive(x, s[p], s[j - 1]);
                }
            } else {
                assert(t[i] == s[i - 1]);
                assert(t[j] == s[j - 1]);
                assert(key_less(s[i - 1], s[j - 1]));
            }
        }
    }
    assert(t.contains(y) <==> (s.contains(y) || y == x)) by {
        if p < s.len() && s[p] == x {
            assert(s.contains(x));
        } else {
            if t.contains(y) {
                let k = choose|k: int| 0 <= k < t.len() && t[k] == y;
                if k < p {
                    assert(s[k] == y);
                } else if k > p {
                    assert(s[k - 1] == y);
                }
            }
            if s.contains(y) {
                let k = choose|k: int| 0 <= k < s.len() && s[k] == y;
                if k < p {
                    assert(t[k] == y);
                } else {
                    assert(t[k + 1] == y);
                }
            }
            if y == x {
                assert(t[p] == x);
            }
        }
    }
}

/// The names of the types of a namespace stand in order, each once, and
/// they are the names of the types that the definitions construct in that
/// namespace.
pub proof fn lemma_type_names(defs: Seq<DefinitionView>, key: Option<Seq<char>>, n: int)
    requires
        0 <= n <= defs.len(),
    ensures
        names_in_order(type_names(defs, key, n)),
        forall|name: Seq<char>|
            type_names(defs, key, n).contains(name) <==> exists|i: int|
                0 <= i < n && #[trigger] constructs(defs[i], key, name),
    decreases n,
{
    if n > 0 {
        lemma_type_names(defs, key, n - 1);
        let before = type_names(defs, key, n - 1);
        let after = type_names(defs, key, n);
        if in_namespace(defs[n - 1], key) {
            lemma_with_name(before, defs[n - 1].ty.name, defs[n - 1].ty.name);
        }
        assert forall|name: Seq<char>| after.contains(name) <==> exists|i: int|
            0 <= i < n && #[trigger] constructs(defs[i], key, name) by {
            let hit = in_namespace(defs[n - 1], key) && name == defs[n - 1].ty.name;
            if in_namespace(defs[n - 1], key) {
                let x = defs[n - 1].ty.name;
                assert(after == with_name(before, x));
                lemma_with_name(before, x, name);
            } else {
                assert(after == before);
            }
            assert(after.contains(name) <==> (before.contains(name) || hit));
            assert(hit == constructs(defs[n - 1], key, name));
            if before.contains(name) {
                let i = choose|i: int| 0 <= i < n - 1 && #[trigger] constructs(defs[i], key, name);
                assert(0 <= i < n && constructs(defs[i], key, name));
            }
            if exists|i: int| 0 <= i < n && #[trigger] constructs(defs[i], key, name) {
                let i = choose|i: int| 0 <= i < n && #[trigger] constructs(defs[i], key, name);
                if i < n - 1 {
                    assert(0 <= i < n - 1 && constructs(defs[i], key, name));
                    assert(before.contains(name));
                }
            }
        }
    } else {
        assert forall|name: Seq<char>| !type_names(defs, key, n).contains(name) by {}
    }
}

/// The namespaces stand in order, each once, and they are the namespaces of
/// the types that the definitions construct.
pub proof fn lemma_type_namespaces(defs: Seq<DefinitionView>, n: int)
    requires
        0 <= n <= defs.len(),
    ensures
        keys_in_order(type_namespaces(defs, n)),
        forall|key: Option<Seq<char>>|
            type_namespaces(defs, n).contains(key) <==> exists|i: int|
                0 <= i < n && #[trigger] in_namespace(defs[i], key),
    decreases n,
{
    if n > 0 {
        lemma_type_namespaces(defs, n - 1);
        let before = type_namespaces(defs, n - 1);
        let after = type_namespaces(defs, n);
        if defs[n - 1].category == Category::Types {
            lemma_with_key(before, type_key(defs[n - 1].ty), type_key(defs[n - 1].ty));
        }
        assert forall|key: Option<Seq<char>>| after.contains(key) <==> exists|i: int|
            0 <= i < n && #[trigger] in_namespace(defs[i], key) by {
            let hit = defs[n - 1].category == Category::Types && key == type_key(defs[n - 1].ty);
            if defs[n - 1].category == Category::Types {
                let x = type_key(defs[n - 1].ty);
                assert(after == with_key(before, x));
                lemma_with_key(before, x, key);
            } else {
                assert(after == before);
            }
            assert(after.contains(key) <==> (before.contains(key) || hit));
            assert(hit == in_namespace(defs[n - 1], key));
            if before.contains(key) {
                let i = choose|i: int| 0 <= i < n - 1 && #[trigger] in_namespace(defs[i], key);
                assert(0 <= i < n && in_namespace(defs[i], key));
            }
            if exists|i: int| 0 <= i < n && #[trigger] in_namespace(defs[i], key) {
                let i = choose|i: int| 0 <= i < n && #[trigger] in_namespace(defs[i], key);
                if i < n - 1 {
                    assert(0 <= i < n - 1 && in_namespace(defs[i], key));
                    assert(before.contains(key));
                }
            }
        }
    } else {
        assert forall|key: Option<Seq<char>>| !type_namespaces(defs, n).contains(key) by {}
    }
}

/// Every constructor of a type is among the constructors of its group, and
/// no other definition is.
pub proof fn lemma_constructors(
    defs: Seq<DefinitionView>,
    key: Option<Seq<char>>,
    name: Seq<char>,
    n: int,
)
    requires
        0 <= n <= defs.len(),
    ensures
        forall|d: DefinitionView|
            constructors(defs, key, name, n).contains(d) <==> exists|i: int|
                0 <= i < n && #[trigger] defs[i] == d && constructs(d, key, name),
    decreases n,
{
    if n > 0 {
        lemma_constructors(defs, key, name, n - 1);
        let before = constructors(defs, key, name, n - 1);
        let after = constructors(defs, key, name, n);
        assert forall|d: DefinitionView| after.contains(d) <==> exists|i: int|
            0 <= i < n && #[trigger] defs[i] == d && constructs(d, key, name) by {
            if after.contains(d) {
                let k = choose|k: int| 0 <= k < after.len() && after[k] == d;
                if k < before.len() {
                    assert(before[k] == d);
                    assert(before.contains(d));
                    let i = choose|i: int|
                        0 <= i < n - 1 && #[trigger] defs[i] == d && constructs(d, key, name);
                    assert(0 <= i < n && defs[i] == d && constructs(d, key, name));
                } else {
                    assert(defs[n - 1] == d);
                }
            }
            if exists|i: int| 0 <= i < n && #[trigger] defs[i] == d && constructs(d, key, name) {
                let i = choose|i: int|
                    0 <= i < n && #[trigger] defs[i] == d && constructs(d, key, name);
                if i < n - 1 {
                    assert(before.contains(d));
                    let k = choose|k: int| 0 <= k < before.len() && before[k] == d;
                    assert(after[k] == d);
                } else {
                    assert(after[after.len() - 1] == d);
                }
            }
        }
    } else {
        assert forall|d: DefinitionView| !constructors(defs, key, name, n).contains(d) by {}
    }
}

/// Every type of a group has a constructor: the code of no type is empty.
pub proof fn lemma_groups_have_constructors(
    defs: Seq<DefinitionView>,
    key: Option<Seq<char>>,
    name: Seq<char>,
)
    requires
        type_names(defs, key, defs.len() as int).contains(name),
    ensures
        constructors(defs, key, name, defs.len() as int).len() > 0,
{
    lemma_type_names(defs, key, defs.len() as int);
    let i = choose|i: int| 0 <= i < defs.len() && #[trigger] constructs(defs[i], key, name);
    lemma_constructors(defs, key, name, defs.len() as int);
    assert(defs[i] == defs[i] && constructs(defs[i], key, name));
    assert(constructors(defs, key, name, defs.len() as int).contains(defs[i]));
}

} // verus!

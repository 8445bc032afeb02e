//! The Rust names of definitions and of types.

use crate::text::ascii_lower;
use crate::text::ascii_upper;
use crate::text::chars_of;
use crate::text::is_ascii_upper;
use crate::text::lemma_split_nonempty;
use crate::text::push_chars;
use crate::text::split;
use crate::text::split_chars;
use crate::text::to_ascii_lower;
use crate::text::to_ascii_upper;
use crate::text::views;
use crate::tl::category::Category;
use crate::tl::definition::Definition;
use crate::tl::definition::DefinitionView;
use vstd::prelude::*;
use vstd::string::StringExecFns;

verus! {

/// How the next character of a name is written.
pub enum Casing {
    /// In upper case: it starts a word.
    Upper,
    /// In lower case: it follows the first letter of a word.
    Lower,
    /// As it stands.
    Preserve,
}

/// The first `n` characters of `s` in camel case, and how the next one is
/// to be written. An underscore is dropped and starts a word; a word starts
/// in upper case; the letter after an upper case one is written in lower
/// case; all others stay.
pub open spec fn camel_case(s: Seq<char>, n: int) -> (Seq<char>, Casing)
    decreases n,
{
    if n <= 0 {
        (Seq::empty(), Casing::Upper)
    } else {
        let (out, casing) = camel_case(s, n - 1);
        let c = s[n - 1];
        let next = if is_ascii_upper(c) {
            Casing::Lower
        } else {
            Casing::Preserve
        };
        if c == '_' {
            (out, Casing::Upper)
        } else {
            match casing {
                Casing::Upper => (out.push(ascii_upper(c)), Casing::Lower),
                Casing::Lower => (out.push(ascii_lower(c)), next),
                Casing::Preserve => (out.push(c), next),
            }
        }
    }
}

/// The name of the Rust type for a definition or a type called `name`: what
/// follows the last dot of `name`, in camel case.
pub open spec fn class_name(name: Seq<char>) -> Seq<char> {
    let last = split(name, '.').last();
    camel_case(last, last.len() as int).0
}

/// The first `n` of `pieces`, each followed by `::`.
pub open spec fn namespace_path(pieces: Seq<Seq<char>>, n: int) -> Seq<char>
    decreases n,
{
    if n <= 0 {
        Seq::empty()
    } else {
        namespace_path(pieces, n - 1) + pieces[n - 1] + "::"@
    }
}

/// The module of the crate that holds the Rust types of a category.
pub open spec fn category_root(category: Category) -> Seq<char> {
    match category {
        Category::Types => "crate::types::"@,
        Category::Functions => "crate::functions::"@,
    }
}

/// The full path of the Rust type for a definition: the module of its
/// category, one module for each namespace of its name, and its class name.
pub open spec fn namespaced_type_name(def: DefinitionView) -> Seq<char> {
    let pieces = split(def.name, '.');
    category_root(def.category) + namespace_path(pieces, pieces.len() - 1) + class_name(def.name)
}

/// Appends the class name for `name` to `out`.
pub fn push_class_name(out: &mut String, name: &[char])
    ensures
        final(out)@ == old(out)@ + class_name(name@),
{
    let pieces = split_chars(name, '.');
    proof {
        lemma_split_nonempty(name@, '.', 0);
    }
    let last = pieces[pieces.len() - 1].as_slice();
    assert(last@ == views(pieces@)[pieces@.len() - 1]);
    let mut word: Vec<char> = Vec::new();
    let mut casing = Casing::Upper;
    let mut i: usize = 0;
    while i < last.len()
        invariant
            i <= last@.len(),
            camel_case(last@, i as int) == (word@, casing),
        decreases last@.len() - i,
    {
        let c = last[i];
        if c == '_' {
            casing = Casing::Upper;
        } else {
            let upper = 'A' <= c && c <= 'Z';
            match casing {
                Casing::Upper => {
                    word.push(to_ascii_upper(c));
                    casing = Casing::Lower;
                },
                Casing::Lower => {
                    word.push(to_ascii_lower(c));
                    casing = if upper {
                        Casing::Lower
                    } else {
                        Casing::Preserve
                    };
                },
                Casing::Preserve => {
                    word.push(c);
                    casing = if upper {
                        Casing::Lower
                    } else {
                        Casing::Preserve
                    };
                },
            }
        }
        i = i + 1;
    }
    push_chars(out, word.as_slice());
}

/// The name of the Rust type for a definition or a type.
pub fn rusty_class_name(name: &str) -> (out: String)
    ensures
        out@ == class_name(name@),
{
    let mut out = String::new();
    let chars = chars_of(name);
    push_class_name(&mut out, chars.as_slice());
    out
}

/// The full path of the Rust type for a definition.
pub fn rusty_namespaced_type_name(def: &Definition) -> (out: String)
    ensures
        out@ == namespaced_type_name(def@),
{
    let mut out = String::new();
    match def.category {
        Category::Types => out.append("crate::types::"),
        Category::Functions => out.append("crate::functions::"),
    }
    let name = chars_of(def.name.as_str());
    let pieces = split_chars(name.as_slice(), '.');
    let ghost all = split(def.name@, '.');
    proof {
        lemma_split_nonempty(def.name@, '.', 0);
    }
    let count = pieces.len();
    let mut i: usize = 0;
    while i + 1 < count
        invariant
            i + 1 <= count,
            count == pieces@.len(),
            views(pieces@) == all,
            out@ == category_root(def.category) + namespace_path(all, i as int),
        decreases count - i,
    {
        assert(pieces@[i as int]@ == views(pieces@)[i as int]);
        push_chars(&mut out, pieces[i].as_slice());
        out.append("::");
        assert(out@ =~= category_root(def.category) + namespace_path(all, i + 1));
        i = i + 1;
    }
    push_class_name(&mut out, name.as_slice());
    out
}

} // verus!

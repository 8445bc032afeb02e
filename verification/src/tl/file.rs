//! Whole schemas: definitions that end in `;`, comments, and the lines that
//! say whether constructors or functions follow.

use crate::text::chars_of;
use crate::text::chars_start_with;
use crate::text::find_char_from;
use crate::text::find_from;
use crate::text::lemma_find_from;
use crate::text::split;
use crate::text::split_chars;
use crate::text::starts_with;
use crate::text::trim;
use crate::text::trim_chars;
use crate::text::views;
use crate::tl::category::Category;
use crate::tl::definition::parse_definition;
use crate::tl::definition::Definition;
use crate::tl::definition::DefinitionView;
use crate::tl::errors::ParseError;
use crate::tl::errors::ParseFailure;
use vstd::prelude::*;
use vstd::slice::slice_subrange;

verus! {

/// The line after which functions follow.
pub open spec fn functions_separator() -> Seq<char> {
    "---functions---"@
}

/// The line after which constructors follow.
pub open spec fn types_separator() -> Seq<char> {
    "---types---"@
}

/// Whether a comment starts at `i`.
pub open spec fn comment_at(s: Seq<char>, i: int) -> bool {
    0 <= i && i + 1 < s.len() && s[i] == '/' && s[i + 1] == '/'
}

/// `s` from `i` on without its comments: what stands from `//` to the end of
/// the line.
pub open spec fn without_comments_from(s: Seq<char>, i: int) -> Seq<char>
    decreases s.len() - i,
    via without_comments_decreases
{
    if i < 0 || i >= s.len() {
        Seq::empty()
    } else if comment_at(s, i) {
        without_comments_from(s, find_from(s, '\n', i))
    } else {
        seq![s[i]] + without_comments_from(s, i + 1)
    }
}

#[via_fn]
proof fn without_comments_decreases(s: Seq<char>, i: int) {
    if 0 <= i < s.len() {
        lemma_find_from(s, '\n', i);
        lemma_find_from(s, '\n', i + 1);
    }
}

/// `s` without its comments.
pub open spec fn without_comments(s: Seq<char>) -> Seq<char> {
    without_comments_from(s, 0)
}

/// The category under which a piece of the schema stands: the one that a
/// separator at its start names, or else the one before.
pub open spec fn category_of(piece: Seq<char>, before: Category) -> Category {
    if starts_with(trim(piece), functions_separator()) {
        Category::Functions
    } else if starts_with(trim(piece), types_separator()) {
        Category::Types
    } else {
        before
    }
}

/// The definition in a piece of the schema: the piece without the separator
/// at its start, trimmed.
pub open spec fn definition_of(piece: Seq<char>) -> Seq<char> {
    let text = trim(piece);
    if starts_with(text, functions_separator()) {
        trim(text.skip(functions_separator().len() as int))
    } else if starts_with(text, types_separator()) {
        trim(text.skip(types_separator().len() as int))
    } else {
        text
    }
}

/// What parsing gave under a category.
pub open spec fn in_category(
    outcome: Result<DefinitionView, ParseFailure>,
    category: Category,
) -> Result<DefinitionView, ParseFailure> {
    match outcome {
        Ok(def) => Ok(
            DefinitionView {
                name: def.name,
                id: def.id,
                params: def.params,
                ty: def.ty,
                category,
            },
        ),
        Err(e) => Err(e),
    }
}

/// The category after the first `n` pieces: constructors come first.
pub open spec fn category_after(pieces: Seq<Seq<char>>, n: int) -> Category
    decreases n,
{
    if n <= 0 {
        Category::Types
    } else {
        category_of(pieces[n - 1], category_after(pieces, n - 1))
    }
}

/// What parsing the first `n` pieces gives: for every piece that holds a
/// definition, the definition under its category, or why it is none.
pub open spec fn parse_pieces(pieces: Seq<Seq<char>>, n: int) -> Seq<
    Result<DefinitionView, ParseFailure>,
>
    decreases n,
{
    if n <= 0 {
        Seq::empty()
    } else if definition_of(pieces[n - 1]).len() == 0 {
        parse_pieces(pieces, n - 1)
    } else {
        parse_pieces(pieces, n - 1).push(
            in_category(parse_definition(definition_of(pieces[n - 1])), category_after(pieces, n)),
        )
    }
}

/// What parsing a schema gives: its comments are dropped, it is split at
/// every `;`, and every piece is parsed on its own.
pub open spec fn parse_file(s: Seq<char>) -> Seq<Result<DefinitionView, ParseFailure>> {
    let pieces = split(without_comments(s), ';');
    parse_pieces(pieces, pieces.len() as int)
}

/// What parsing gave, as mathematical values.
pub open spec fn outcome_views(v: Seq<Result<Definition, ParseError>>) -> Seq<
    Result<DefinitionView, ParseFailure>,
> {
    Seq::new(
        v.len(),
        |i: int|
            match v[i] {
                Ok(def) => Ok(def@),
                Err(e) => Err(e@),
            },
    )
}

/// Drops the comments.
pub fn remove_tl_comments(text: &[char]) -> (out: Vec<char>)
    ensures
        out@ == without_comments(text@),
{
    let mut out: Vec<char> = Vec::new();
    let mut i: usize = 0;
    assert(out@ + without_comments_from(text@, 0) =~= without_comments(text@));
    while i < text.len()
        invariant
            i <= text@.len(),
            out@ + without_comments_from(text@, i as int) == without_comments(text@),
        decreases text@.len() - i,
    {
        if text[i] == '/' && i + 1 < text.len() && text[i + 1] == '/' {
            let end = find_char_from(text, '\n', i);
            assert(end > i);
            i = end;
        } else {
            let ghost before = out@;
            out.push(text[i]);
            assert(out@ + without_comments_from(text@, i + 1) =~= before + (seq![text@[i as int]]
                + without_comments_from(text@, i + 1)));
            i = i + 1;
        }
    }
    assert(out@ + Seq::<char>::empty() =~= out@);
    out
}

/// Parses a schema. A piece that is no definition gives its error and does
/// not stop the others.
pub fn parse_tl_file(contents: &str) -> (outcomes: Vec<Result<Definition, ParseError>>)
    ensures
        outcome_views(outcomes@) == parse_file(contents@),
{
    let text = chars_of(contents);
    let plain = remove_tl_comments(text.as_slice());
    let pieces = split_chars(plain.as_slice(), ';');
    let functions = chars_of("---functions---");
    let types = chars_of("---types---");
    let ghost all = split(without_comments(contents@), ';');
    let mut outcomes: Vec<Result<Definition, ParseError>> = Vec::new();
    let mut category = Category::Types;
    let mut n: usize = 0;
    assert(outcome_views(outcomes@) =~= parse_pieces(all, 0));
    while n < pieces.len()
        invariant
            n <= pieces@.len(),
            views(pieces@) == all,
            functions@ == functions_separator(),
            types@ == types_separator(),
            category == category_after(all, n as int),
            outcome_views(outcomes@) == parse_pieces(all, n as int),
        decreases pieces@.len() - n,
    {
        assert(pieces@[n as int]@ == all[n as int]);
        let piece = trim_chars(pieces[n].as_slice());
        let definition = if chars_start_with(piece, functions.as_slice()) {
            category = Category::Functions;
            trim_chars(slice_subrange(piece, functions.len(), piece.len()))
        } else if chars_start_with(piece, types.as_slice()) {
            category = Category::Types;
            trim_chars(slice_subrange(piece, types.len(), piece.len()))
        } else {
            piece
        };
        assert(definition@ == definition_of(all[n as int]));
        if definition.len() > 0 {
            let ghost before = outcome_views(outcomes@);
            let outcome = match Definition::parse(definition) {
                Ok(def) => Ok(
                    Definition {
                        name: def.name,
                        id: def.id,
                        params: def.params,
                        ty: def.ty,
                        category,
                    },
                ),
                Err(e) => Err(e),
            };
            outcomes.push(outcome);
            assert(outcome_views(outcomes@) =~= before.push(
                in_category(parse_definition(definition@), category),
            ));
        }
        n = n + 1;
    }
    outcomes
}

} // verus!

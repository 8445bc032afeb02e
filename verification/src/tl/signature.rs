//! The identifier that a definition has when it names none: the checksum of
//! its normalized signature.

use crate::crc::checksum;
use crate::crc::crc32;
use crate::text::chars_end_with;
use crate::text::ends_with;
use crate::text::push_chars;
use crate::text::split_whitespace;
use crate::text::views;
use crate::text::words;
use vstd::prelude::*;
use vstd::slice::slice_subrange;
use vstd::utf8::encode_utf8;

verus! {

/// The brackets of generic arguments and of declarations of generic types.
pub open spec fn is_bracket(c: char) -> bool {
    c == '<' || c == '>' || c == '{' || c == '}'
}

/// `s` with a space in place of every bracket.
pub open spec fn without_brackets(s: Seq<char>) -> Seq<char> {
    Seq::new(
        s.len(),
        |i: int|
            if is_bracket(s[i]) {
                ' '
            } else {
                s[i]
            },
    )
}

/// The end of a parameter that holds `bytes`.
pub open spec fn bytes_suffix() -> Seq<char> {
    seq![':', 'b', 'y', 't', 'e', 's']
}

/// The end of a parameter that holds a `string`.
pub open spec fn string_suffix() -> Seq<char> {
    seq![':', 's', 't', 'r', 'i', 'n', 'g']
}

/// A word of the signature: a parameter that holds `bytes` counts as one
/// that holds a `string`.
pub open spec fn normalize_word(w: Seq<char>) -> Seq<char> {
    if ends_with(w, bytes_suffix()) {
        w.take(w.len() - 6) + string_suffix()
    } else {
        w
    }
}

/// The normalized forms of the first `n` of `ws`, with a space between
/// every two of them.
pub open spec fn join_normalized(ws: Seq<Seq<char>>, n: int) -> Seq<char>
    decreases n,
{
    if n <= 0 {
        Seq::empty()
    } else if n == 1 {
        normalize_word(ws[0])
    } else {
        join_normalized(ws, n - 1) + seq![' '] + normalize_word(ws[n - 1])
    }
}

/// The normalized signature of a definition: its words, those that the
/// brackets separate too, each in its normalized form, with one space between
/// every two of them.
pub open spec fn normalized_signature(s: Seq<char>) -> Seq<char> {
    let ws = words(without_brackets(s));
    join_normalized(ws, ws.len() as int)
}

/// The identifier inferred for a definition: the CRC-32 of its normalized
/// signature in UTF-8.
pub open spec fn inferred_id(s: Seq<char>) -> u32 {
    crc32(encode_utf8(normalized_signature(s)))
}

/// Replaces every bracket by a space.
fn replace_brackets(text: &[char]) -> (out: Vec<char>)
    ensures
        out@ == without_brackets(text@),
{
    let mut out: Vec<char> = Vec::new();
    let mut i: usize = 0;
    while i < text.len()
        invariant
            i <= text@.len(),
            out@.len() == i,
            forall|j: int| 0 <= j < i ==> out@[j] == without_brackets(text@)[j],
        decreases text@.len() - i,
    {
        let c = text[i];
        if c == '<' || c == '>' || c == '{' || c == '}' {
            out.push(' ');
        } else {
            out.push(c);
        }
        i = i + 1;
    }
    assert(out@ =~= without_brackets(text@));
    out
}

/// Appends the normalized form of `word` to `out`.
fn push_normalized(out: &mut String, word: &[char])
    ensures
        final(out)@ == old(out)@ + normalize_word(word@),
{
    let bytes: [char; 6] = [':', 'b', 'y', 't', 'e', 's'];
    assert(bytes@ =~= bytes_suffix());
    if chars_end_with(word, bytes.as_slice()) {
        let string: [char; 7] = [':', 's', 't', 'r', 'i', 'n', 'g'];
        assert(string@ =~= string_suffix());
        push_chars(out, slice_subrange(word, 0, word.len() - 6));
        push_chars(out, string.as_slice());
        assert(out@ =~= old(out)@ + normalize_word(word@));
    } else {
        push_chars(out, word);
    }
}

/// Writes the normalized signature of a definition.
pub fn signature_of(definition: &[char]) -> (out: String)
    ensures
        out@ == normalized_signature(definition@),
{
    let plain = replace_brackets(definition);
    let ws = split_whitespace(plain.as_slice());
    let ghost all = words(without_brackets(definition@));
    let mut out = String::new();
    let mut i: usize = 0;
    while i < ws.len()
        invariant
            i <= ws@.len(),
            views(ws@) == all,
            out@ == join_normalized(all, i as int),
        decreases ws@.len() - i,
    {
        assert(ws@[i as int]@ == views(ws@)[i as int]);
        if i > 0 {
            let space: [char; 1] = [' '];
            assert(space@ =~= seq![' ']);
            push_chars(&mut out, space.as_slice());
        }
        push_normalized(&mut out, ws[i].as_slice());
        assert(out@ =~= join_normalized(all, i + 1));
        i = i + 1;
    }
    out
}

/// Infers the identifier of a definition that names none.
pub fn infer_id(definition: &[char]) -> (id: u32)
    ensures
        id == inferred_id(definition@),
{
    let signature = signature_of(definition);
    checksum(signature.as_str().as_bytes())
}

} // verus!

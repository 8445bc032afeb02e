//! The inferred identifier is stable: a normalized signature is its own
//! normalized signature.

use crate::text::is_whitespace;
use crate::text::lemma_skip_whitespace;
use crate::text::lemma_skip_word;
use crate::text::skip_whitespace;
use crate::text::skip_word;
use crate::text::words;
use crate::text::words_from;
use crate::text::ends_with;
use crate::tl::definition::explicit_id;
use crate::tl::definition::parse_definition;
use crate::tl::signature::bytes_suffix;
use crate::tl::signature::inferred_id;
use crate::tl::signature::is_bracket;
use crate::tl::signature::join_normalized;
use crate::tl::signature::normalize_word;
use crate::tl::signature::normalized_signature;
use crate::tl::signature::string_suffix;
use crate::tl::signature::without_brackets;
use vstd::prelude::*;

verus! {

/// Whether `w` is a word of a signature: not empty, and without whitespace
/// and brackets.
pub open spec fn is_word(w: Seq<char>) -> bool {
    w.len() > 0 && forall|i: int|
        0 <= i < w.len() ==> !is_whitespace(#[trigger] w[i]) && !is_bracket(w[i])
}

/// Whether `s` holds no bracket.
pub open spec fn no_brackets(s: Seq<char>) -> bool {
    forall|i: int| 0 <= i < s.len() ==> !is_bracket(#[trigger] s[i])
}

/// The normalized forms of the first `n` of `ws`.
pub open spec fn normalized_words(ws: Seq<Seq<char>>, n: int) -> Seq<Seq<char>> {
    Seq::new(n as nat, |k: int| normalize_word(ws[k]))
}

proof fn lemma_skip_whitespace_is(s: Seq<char>, i: int, r: int)
    requires
        0 <= i <= r <= s.len(),
        forall|j: int| i <= j < r ==> is_whitespace(s[j]),
        r < s.len() ==> !is_whitespace(s[r]),
    ensures
        skip_whitespace(s, i) == r,
    decreases r - i,
{
    if i < r {
        lemma_skip_whitespace_is(s, i + 1, r);
    }
}

proof fn lemma_skip_word_is(s: Seq<char>, i: int, r: int)
    requires
        0 <= i <= r <= s.len(),
        forall|j: int| i <= j < r ==> !is_whitespace(s[j]),
        r < s.len() ==> is_whitespace(s[r]),
    ensures
        skip_word(s, i) == r,
    decreases r - i,
{
    if i < r {
        lemma_skip_word_is(s, i + 1, r);
    }
}

/// The words of a text without brackets are words of a signature.
proof fn lemma_words_are_words(s: Seq<char>, i: int)
    requires
        0 <= i <= s.len(),
        no_brackets(s),
    ensures
        forall|k: int| 0 <= k < words_from(s, i).len() ==> is_word(#[trigger] words_from(s, i)[k]),
    decreases s.len() - i,
{
    lemma_skip_whitespace(s, i);
    let a = skip_whitespace(s, i);
    if a < s.len() {
        lemma_skip_word(s, a);
        let b = skip_word(s, a);
        lemma_words_are_words(s, b);
        let first = s.subrange(a, b);
        assert(is_word(first)) by {
            assert forall|m: int| 0 <= m < first.len() implies !is_whitespace(#[trigger] first[m])
                && !is_bracket(first[m]) by {
                assert(first[m] == s[a + m]);
            }
        }
        let rest = words_from(s, b);
        assert forall|k: int| 0 <= k < words_from(s, i).len() implies is_word(
            #[trigger] words_from(s, i)[k],
        ) by {
            if k > 0 {
                assert(words_from(s, i)[k] == rest[k - 1]);
            }
        }
    }
}

/// A word alone is its only word.
proof fn lemma_words_of_word(w: Seq<char>)
    requires
        is_word(w),
    ensures
        words(w) == seq![w],
{
    lemma_skip_whitespace_is(w, 0, 0);
    lemma_skip_word_is(w, 0, w.len() as int);
    lemma_skip_whitespace_is(w, w.len() as int, w.len() as int);
    assert(w.subrange(0, w.len() as int) =~= w);
    assert(words_from(w, w.len() as int) =~= Seq::<Seq<char>>::empty());
    assert(words_from(w, 0) =~= seq![w] + words_from(w, w.len() as int));
}

/// A word after a text and a space is one more word of the text.
proof fn lemma_words_of_appended(a: Seq<char>, w: Seq<char>, i: int)
    requires
        is_word(w),
        0 <= i <= a.len(),
    ensures
        words_from(a + seq![' '] + w, i) == words_from(a, i).push(w),
    decreases a.len() - i,
{
    let t = a + seq![' '] + w;
    let start: int = a.len() as int + 1;
    assert(is_whitespace(' '));
    assert(t[a.len() as int] == ' ');
    assert forall|m: int| 0 <= m < a.len() implies t[m] == a[m] by {}
    assert forall|m: int| 0 <= m < w.len() implies t[start + m] == w[m] by {}
    lemma_skip_whitespace(a, i);
    let p = skip_whitespace(a, i);
    if p >= a.len() {
        lemma_skip_whitespace_is(t, i, start);
        lemma_skip_word_is(t, start, t.len() as int);
        lemma_skip_whitespace_is(t, t.len() as int, t.len() as int);
        assert(t.subrange(start, t.len() as int) =~= w);
        assert(words_from(t, t.len() as int) =~= Seq::<Seq<char>>::empty());
        assert(words_from(a, i) =~= Seq::<Seq<char>>::empty());
        assert(words_from(t, i) =~= seq![w]);
        assert(words_from(a, i).push(w) =~= seq![w]);
    } else {
        lemma_skip_word(a, p);
        let q = skip_word(a, p);
        lemma_skip_whitespace_is(t, i, p);
        lemma_skip_word_is(t, p, q);
        lemma_words_of_appended(a, w, q);
        assert(t.subrange(p, q) =~= a.subrange(p, q));
        assert(words_from(t, i) =~= seq![a.subrange(p, q)] + words_from(t, q));
        assert(words_from(a, i) =~= seq![a.subrange(p, q)] + words_from(a, q));
        assert(words_from(t, i) =~= words_from(a, i).push(w));
    }
}

/// The normalized form of a word is a word, and is its own normalized form.
proof fn lemma_normalize_word(w: Seq<char>)
    requires
        is_word(w),
    ensures
        is_word(normalize_word(w)),
        normalize_word(normalize_word(w)) == normalize_word(w),
{
    let n = normalize_word(w);
    if ends_with(w, bytes_suffix()) {
        let stem = w.take(w.len() - 6);
        assert(n == stem + string_suffix());
        assert(n[n.len() - 1] == string_suffix()[6]);
        assert forall|i: int| 0 <= i < n.len() implies !is_whitespace(#[trigger] n[i])
            && !is_bracket(n[i]) by {
            if i < stem.len() {
                assert(n[i] == w[i]);
            } else {
                assert(n[i] == string_suffix()[i - stem.len()]);
            }
        }
        let tail = n.subrange(n.len() - 6, n.len() as int);
        assert(tail[5] == 'g');
        assert(bytes_suffix()[5] == 's');
        assert(!ends_with(n, bytes_suffix()));
    }
}

/// The first `n` normalized words, joined, have these words and no others.
proof fn lemma_words_of_joined(ws: Seq<Seq<char>>, n: int)
    requires
        0 <= n <= ws.len(),
        forall|k: int| 0 <= k < ws.len() ==> is_word(#[trigger] ws[k]),
    ensures
        words(join_normalized(ws, n)) == normalized_words(ws, n),
        no_brackets(join_normalized(ws, n)),
    decreases n,
{
    if n <= 0 {
        lemma_skip_whitespace_is(Seq::<char>::empty(), 0, 0);
        assert(words(join_normalized(ws, n)) =~= normalized_words(ws, n));
    } else if n == 1 {
        assert(is_word(ws[0]));
        lemma_normalize_word(ws[0]);
        lemma_words_of_word(normalize_word(ws[0]));
        assert(normalized_words(ws, n) =~= seq![normalize_word(ws[0])]);
    } else {
        lemma_words_of_joined(ws, n - 1);
        assert(is_word(ws[n - 1]));
        lemma_normalize_word(ws[n - 1]);
        let before = join_normalized(ws, n - 1);
        let last = normalize_word(ws[n - 1]);
        lemma_words_of_appended(before, last, 0);
        assert(normalized_words(ws, n) =~= normalized_words(ws, n - 1).push(last));
        let all = before + seq![' '] + last;
        assert forall|i: int| 0 <= i < all.len() implies !is_bracket(#[trigger] all[i]) by {
            if i < before.len() {
                assert(all[i] == before[i]);
            } else if i == before.len() {
                assert(all[i] == ' ');
            } else {
                assert(all[i] == last[i - before.len() - 1]);
            }
        }
    }
}

/// Joining normalized words again changes nothing.
proof fn lemma_join_again(ws: Seq<Seq<char>>, n: int)
    requires
        0 <= n <= ws.len(),
        forall|k: int| 0 <= k < ws.len() ==> is_word(#[trigger] ws[k]),
    ensures
        join_normalized(normalized_words(ws, ws.len() as int), n) == join_normalized(ws, n),
    decreases n,
{
    if n > 0 {
        lemma_join_again(ws, n - 1);
        assert(is_word(ws[n - 1]));
        lemma_normalize_word(ws[n - 1]);
    }
}

/// A normalized signature is its own normalized signature.
pub proof fn lemma_normalized_signature_idempotent(s: Seq<char>)
    ensures
        normalized_signature(normalized_signature(s)) == normalized_signature(s),
{
    let plain = without_brackets(s);
    let ws = words(plain);
    let n = ws.len() as int;
    let text = join_normalized(ws, n);
    assert(no_brackets(plain));
    lemma_words_are_words(plain, 0);
    lemma_words_of_joined(ws, n);
    assert(without_brackets(text) =~= text);
    let again = normalized_words(ws, n);
    assert(words(without_brackets(text)) == again);
    lemma_join_again(ws, n);
}

/// The inferred identifier is stable: the normalized signature of a
/// definition has the identifier that is inferred for the definition. So a
/// definition that names no identifier, written again as its normalized
/// signature, parses to the same identifier wherever that signature parses
/// and names none either.
pub proof fn lemma_inferred_id_stable(s: Seq<char>)
    ensures
        inferred_id(normalized_signature(s)) == inferred_id(s),
        parse_definition(s) is Ok && explicit_id(s) is None && parse_definition(
            normalized_signature(s),
        ) is Ok && explicit_id(normalized_signature(s)) is None ==> parse_definition(
            normalized_signature(s),
        )->Ok_0.id == parse_definition(s)->Ok_0.id,
{
    lemma_normalized_signature_idempotent(s);
}

} // verus!

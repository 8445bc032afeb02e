//! Sequences of characters: conversion from and to strings, whitespace,
//! searching and splitting.

use vstd::prelude::*;
use vstd::slice::slice_subrange;
use vstd::slice::slice_to_vec;

verus! {

/// Whether `c` has the Unicode property `White_Space`.
pub open spec fn is_whitespace(c: char) -> bool {
    let u = c as u32;
    ||| 0x09 <= u <= 0x0D
    ||| u == 0x20
    ||| u == 0x85
    ||| u == 0xA0
    ||| u == 0x1680
    ||| 0x2000 <= u <= 0x200A
    ||| u == 0x2028
    ||| u == 0x2029
    ||| u == 0x202F
    ||| u == 0x205F
    ||| u == 0x3000
}

/// Whether `c` is one of `A` to `Z`.
pub open spec fn is_ascii_upper(c: char) -> bool {
    'A' <= c <= 'Z'
}

/// Whether `c` is one of `a` to `z`.
pub open spec fn is_ascii_lower(c: char) -> bool {
    'a' <= c <= 'z'
}

/// `c` in upper case, if it is one of `a` to `z`.
pub open spec fn ascii_upper(c: char) -> char {
    if is_ascii_lower(c) {
        ((c as u8) - 32) as char
    } else {
        c
    }
}

/// `c` in lower case, if it is one of `A` to `Z`.
pub open spec fn ascii_lower(c: char) -> char {
    if is_ascii_upper(c) {
        ((c as u8) + 32) as char
    } else {
        c
    }
}

/// The first index at or after `i` that holds `c`; `s.len()` where there is none.
pub open spec fn find_from(s: Seq<char>, c: char, i: int) -> int
    decreases s.len() - i,
{
    if 0 <= i < s.len() && s[i] != c {
        find_from(s, c, i + 1)
    } else {
        i
    }
}

/// The index of the first `c` in `s`; `s.len()` where there is none.
pub open spec fn find(s: Seq<char>, c: char) -> int {
    find_from(s, c, 0)
}

/// The first index at or after `i` that holds no whitespace; `s.len()` where
/// there is none.
pub open spec fn skip_whitespace(s: Seq<char>, i: int) -> int
    decreases s.len() - i,
{
    if 0 <= i < s.len() && is_whitespace(s[i]) {
        skip_whitespace(s, i + 1)
    } else {
        i
    }
}

/// The first index at or after `i` that holds whitespace; `s.len()` where
/// there is none.
pub open spec fn skip_word(s: Seq<char>, i: int) -> int
    decreases s.len() - i,
{
    if 0 <= i < s.len() && !is_whitespace(s[i]) {
        skip_word(s, i + 1)
    } else {
        i
    }
}

/// The least end `k <= j` such that `s[k..j]` is whitespace only.
pub open spec fn back_whitespace(s: Seq<char>, j: int) -> int
    decreases j,
{
    if 0 < j <= s.len() && is_whitespace(s[j - 1]) {
        back_whitespace(s, j - 1)
    } else {
        j
    }
}

/// `s` without its leading and trailing whitespace.
pub open spec fn trim(s: Seq<char>) -> Seq<char> {
    let a = skip_whitespace(s, 0);
    let b = back_whitespace(s, s.len() as int);
    if a < b {
        s.subrange(a, b)
    } else {
        Seq::empty()
    }
}

/// The maximal runs of non-whitespace characters of `s` that start at or
/// after `i`, in order.
pub open spec fn words_from(s: Seq<char>, i: int) -> Seq<Seq<char>>
    decreases s.len() - i,
    via words_from_decreases
{
    let a = skip_whitespace(s, i);
    if i < 0 || a >= s.len() {
        Seq::empty()
    } else {
        let b = skip_word(s, a);
        seq![s.subrange(a, b)] + words_from(s, b)
    }
}

#[via_fn]
proof fn words_from_decreases(s: Seq<char>, i: int) {
    if 0 <= i <= s.len() {
        lemma_skip_whitespace(s, i);
        let a = skip_whitespace(s, i);
        if a < s.len() {
            lemma_skip_word(s, a);
        }
    }
}

/// The words of `s`: its maximal runs of non-whitespace characters.
pub open spec fn words(s: Seq<char>) -> Seq<Seq<char>> {
    words_from(s, 0)
}

/// The pieces of `s` between the occurrences of `c` at or after `i`.
pub open spec fn split_from(s: Seq<char>, c: char, i: int) -> Seq<Seq<char>>
    decreases s.len() - i,
    via split_from_decreases
{
    let p = find_from(s, c, i);
    if i < 0 || i > s.len() {
        Seq::empty()
    } else if p >= s.len() {
        seq![s.subrange(i, s.len() as int)]
    } else {
        seq![s.subrange(i, p)] + split_from(s, c, p + 1)
    }
}

#[via_fn]
proof fn split_from_decreases(s: Seq<char>, c: char, i: int) {
    if 0 <= i <= s.len() {
        lemma_find_from(s, c, i);
    }
}

/// The pieces of `s` between the occurrences of `c`: one more than there are
/// occurrences.
pub open spec fn split(s: Seq<char>, c: char) -> Seq<Seq<char>> {
    split_from(s, c, 0)
}

/// The views of a vector of character vectors.
pub open spec fn views(v: Seq<Vec<char>>) -> Seq<Seq<char>> {
    Seq::new(v.len(), |i: int| v[i]@)
}

/// The views of a vector of strings.
pub open spec fn string_views(v: Seq<String>) -> Seq<Seq<char>> {
    Seq::new(v.len(), |i: int| v[i]@)
}

/// `find_from` returns the first occurrence at or after `i`.
pub proof fn lemma_find_from(s: Seq<char>, c: char, i: int)
    requires
        0 <= i <= s.len(),
    ensures
        i <= find_from(s, c, i) <= s.len(),
        forall|j: int| i <= j < find_from(s, c, i) ==> s[j] != c,
        find_from(s, c, i) < s.len() ==> s[find_from(s, c, i)] == c,
    decreases s.len() - i,
{
    if i < s.len() && s[i] != c {
        lemma_find_from(s, c, i + 1);
    }
}

/// `skip_whitespace` returns the first non-whitespace index at or after `i`.
pub proof fn lemma_skip_whitespace(s: Seq<char>, i: int)
    requires
        0 <= i <= s.len(),
    ensures
        i <= skip_whitespace(s, i) <= s.len(),
        forall|j: int| i <= j < skip_whitespace(s, i) ==> is_whitespace(s[j]),
        skip_whitespace(s, i) < s.len() ==> !is_whitespace(s[skip_whitespace(s, i)]),
    decreases s.len() - i,
{
    if i < s.len() && is_whitespace(s[i]) {
        lemma_skip_whitespace(s, i + 1);
    }
}

/// `skip_word` returns the first whitespace index at or after `i`.
pub proof fn lemma_skip_word(s: Seq<char>, i: int)
    requires
        0 <= i <= s.len(),
    ensures
        i <= skip_word(s, i) <= s.len(),
        forall|j: int| i <= j < skip_word(s, i) ==> !is_whitespace(s[j]),
        skip_word(s, i) < s.len() ==> is_whitespace(s[skip_word(s, i)]),
        i < s.len() && !is_whitespace(s[i]) ==> i < skip_word(s, i),
    decreases s.len() - i,
{
    if i < s.len() && !is_whitespace(s[i]) {
        lemma_skip_word(s, i + 1);
    }
}

/// `back_whitespace` returns the end of the last non-whitespace character
/// before `j`.
pub proof fn lemma_back_whitespace(s: Seq<char>, j: int)
    requires
        0 <= j <= s.len(),
    ensures
        0 <= back_whitespace(s, j) <= j,
        forall|k: int| back_whitespace(s, j) <= k < j ==> is_whitespace(s[k]),
        back_whitespace(s, j) > 0 ==> !is_whitespace(s[back_whitespace(s, j) - 1]),
    decreases j,
{
    if 0 < j && is_whitespace(s[j - 1]) {
        lemma_back_whitespace(s, j - 1);
    }
}

/// What `trim` gives neither starts nor ends with whitespace, and all that
/// it leaves out of `s` before and after is whitespace.
pub proof fn lemma_trim(s: Seq<char>)
    ensures
        trim(s).len() > 0 ==> !is_whitespace(trim(s).first()) && !is_whitespace(trim(s).last()),
        exists|a: int, b: int|
            0 <= a <= b <= s.len() && trim(s) == s.subrange(a, b) && (forall|i: int|
                0 <= i < a ==> is_whitespace(s[i])) && (forall|i: int|
                b <= i < s.len() ==> is_whitespace(s[i])),
{
    lemma_skip_whitespace(s, 0);
    lemma_back_whitespace(s, s.len() as int);
    let a = skip_whitespace(s, 0);
    let b = back_whitespace(s, s.len() as int);
    if a < b {
        assert(trim(s).first() == s[a]);
        assert(trim(s).last() == s[b - 1]);
        assert(0 <= a <= b <= s.len() && trim(s) == s.subrange(a, b));
    } else {
        assert(trim(s) =~= s.subrange(a, a));
        assert forall|i: int| a <= i < s.len() implies is_whitespace(s[i]) by {
            if i >= b {
            } else {
                assert(i < a);
            }
        }
        assert(0 <= a <= a <= s.len() && trim(s) == s.subrange(a, a));
    }
}

/// A split has at least one piece.
pub proof fn lemma_split_nonempty(s: Seq<char>, c: char, i: int)
    requires
        0 <= i <= s.len(),
    ensures
        split_from(s, c, i).len() >= 1,
{
    lemma_find_from(s, c, i);
}

/// Tests whether `c` is whitespace.
pub fn char_is_whitespace(c: char) -> (b: bool)
    ensures
        b == is_whitespace(c),
{
    let u: u32 = c as u32;
    (0x09 <= u && u <= 0x0D) || u == 0x20 || u == 0x85 || u == 0xA0 || u == 0x1680 || (0x2000 <= u
        && u <= 0x200A) || u == 0x2028 || u == 0x2029 || u == 0x202F || u == 0x205F || u == 0x3000
}

/// Writes `c` in upper case.
pub fn to_ascii_upper(c: char) -> (r: char)
    ensures
        r == ascii_upper(c),
{
    if 'a' <= c && c <= 'z' {
        ((c as u8) - 32) as char
    } else {
        c
    }
}

/// Writes `c` in lower case.
pub fn to_ascii_lower(c: char) -> (r: char)
    ensures
        r == ascii_lower(c),
{
    if 'A' <= c && c <= 'Z' {
        ((c as u8) + 32) as char
    } else {
        c
    }
}

/// The characters of a string, in order.
pub fn chars_of(s: &str) -> (v: Vec<char>)
    ensures
        v@ == s@,
{
    let mut v: Vec<char> = Vec::new();
    for c in it: s.chars()
        invariant
            it.seq() == s@,
            v@ == s@.take(it.index()),
    {
        assert(s@.take(it.index() + 1) =~= s@.take(it.index()).push(c));
        v.push(c);
    }
    assert(s@.take(s@.len() as int) =~= s@);
    v
}

/// `String::push`: appends one character to the string.
#[verifier::external_body]
fn push_char(s: &mut String, c: char)
    ensures
        final(s)@ == old(s)@.push(c),
{
    s.push(c)
}

/// Appends the characters of `chars` to `out`.
pub fn push_chars(out: &mut String, chars: &[char])
    ensures
        final(out)@ == old(out)@ + chars@,
{
    let mut i: usize = 0;
    while i < chars.len()
        invariant
            i <= chars.len(),
            out@ == old(out)@ + chars@.take(i as int),
        decreases chars.len() - i,
    {
        assert(chars@.take(i + 1) =~= chars@.take(i as int).push(chars@[i as int]));
        push_char(out, chars[i]);
        i = i + 1;
    }
    assert(chars@.take(i as int) =~= chars@);
}

/// The string made of the characters of `chars`.
pub fn string_of(chars: &[char]) -> (s: String)
    ensures
        s@ == chars@,
{
    let mut s = String::new();
    push_chars(&mut s, chars);
    s
}

/// Finds the first `c` in `s` at or after `from`.
pub fn find_char_from(s: &[char], c: char, from: usize) -> (r: usize)
    ensures
        r == find_from(s@, c, from as int),
        from <= r,
        from <= s@.len() ==> r <= s@.len(),
        forall|j: int| from <= j < r ==> s@[j] != c,
        r < s@.len() ==> s@[r as int] == c,
{
    let mut i: usize = from;
    while i < s.len() && s[i] != c
        invariant
            from <= i,
            from <= s@.len() ==> i <= s@.len(),
            find_from(s@, c, i as int) == find_from(s@, c, from as int),
            forall|j: int| from <= j < i ==> s@[j] != c,
        decreases s@.len() - i,
    {
        i = i + 1;
    }
    i
}

/// Finds the first `c` in `s`.
pub fn find_char(s: &[char], c: char) -> (r: usize)
    ensures
        r == find(s@, c),
        r <= s@.len(),
        forall|j: int| 0 <= j < r ==> s@[j] != c,
        r < s@.len() ==> s@[r as int] == c,
{
    find_char_from(s, c, 0)
}

/// Finds the first character at or after `from` that is no whitespace.
pub fn skip_whitespace_from(s: &[char], from: usize) -> (r: usize)
    ensures
        r == skip_whitespace(s@, from as int),
        from <= r,
        from <= s@.len() ==> r <= s@.len(),
{
    let mut i: usize = from;
    while i < s.len() && char_is_whitespace(s[i])
        invariant
            from <= i,
            from <= s@.len() ==> i <= s@.len(),
            skip_whitespace(s@, i as int) == skip_whitespace(s@, from as int),
        decreases s@.len() - i,
    {
        i = i + 1;
    }
    i
}

/// Finds the first whitespace character at or after `from`.
pub fn skip_word_from(s: &[char], from: usize) -> (r: usize)
    ensures
        r == skip_word(s@, from as int),
        from <= r,
        from <= s@.len() ==> r <= s@.len(),
{
    let mut i: usize = from;
    while i < s.len() && !char_is_whitespace(s[i])
        invariant
            from <= i,
            from <= s@.len() ==> i <= s@.len(),
            skip_word(s@, i as int) == skip_word(s@, from as int),
        decreases s@.len() - i,
    {
        i = i + 1;
    }
    i
}

/// Removes leading and trailing whitespace.
pub fn trim_chars(s: &[char]) -> (r: &[char])
    ensures
        r@ == trim(s@),
{
    let a = skip_whitespace_from(s, 0);
    let mut b: usize = s.len();
    while b > 0 && char_is_whitespace(s[b - 1])
        invariant
            b <= s@.len(),
            back_whitespace(s@, b as int) == back_whitespace(s@, s@.len() as int),
        decreases b,
    {
        b = b - 1;
    }
    if a < b {
        slice_subrange(s, a, b)
    } else {
        slice_subrange(s, 0, 0)
    }
}

/// Splits `s` into its words.
pub fn split_whitespace(s: &[char]) -> (out: Vec<Vec<char>>)
    ensures
        views(out@) == words(s@),
{
    let mut out: Vec<Vec<char>> = Vec::new();
    let mut i: usize = 0;
    loop
        invariant
            i <= s@.len(),
            words(s@) == views(out@) + words_from(s@, i as int),
        decreases s@.len() - i,
    {
        let a = skip_whitespace_from(s, i);
        if a >= s.len() {
            assert(views(out@) + Seq::<Seq<char>>::empty() =~= views(out@));
            return out;
        }
        let b = skip_word_from(s, a);
        proof {
            lemma_skip_whitespace(s@, i as int);
            lemma_skip_word(s@, a as int);
        }
        let ghost before = views(out@);
        out.push(slice_to_vec(slice_subrange(s, a, b)));
        assert(views(out@) =~= before.push(s@.subrange(a as int, b as int)));
        assert(before + (seq![s@.subrange(a as int, b as int)] + words_from(s@, b as int))
            =~= before.push(s@.subrange(a as int, b as int)) + words_from(s@, b as int));
        i = b;
    }
}

/// Splits `s` at every `c`.
pub fn split_chars(s: &[char], c: char) -> (out: Vec<Vec<char>>)
    ensures
        views(out@) == split(s@, c),
{
    let mut out: Vec<Vec<char>> = Vec::new();
    let mut i: usize = 0;
    loop
        invariant
            i <= s@.len(),
            split(s@, c) == views(out@) + split_from(s@, c, i as int),
        decreases s@.len() - i,
    {
        let p = find_char_from(s, c, i);
        let ghost before = views(out@);
        out.push(slice_to_vec(slice_subrange(s, i, p)));
        assert(views(out@) =~= before.push(s@.subrange(i as int, p as int)));
        if p >= s.len() {
            assert(before + seq![s@.subrange(i as int, s@.len() as int)] =~= before.push(
                s@.subrange(i as int, p as int),
            ));
            return out;
        }
        assert(before + (seq![s@.subrange(i as int, p as int)] + split_from(s@, c, p + 1))
            =~= before.push(s@.subrange(i as int, p as int)) + split_from(s@, c, p + 1));
        i = p + 1;
    }
}

/// Whether `s` ends with `pat`.
pub open spec fn ends_with(s: Seq<char>, pat: Seq<char>) -> bool {
    pat.len() <= s.len() && s.subrange(s.len() - pat.len(), s.len() as int) == pat
}

/// Tests whether `s` ends with `pat`.
pub fn chars_end_with(s: &[char], pat: &[char]) -> (b: bool)
    ensures
        b == ends_with(s@, pat@),
{
    if pat.len() > s.len() {
        return false;
    }
    let base: usize = s.len() - pat.len();
    let mut i: usize = 0;
    while i < pat.len()
        invariant
            i <= pat@.len(),
            base + pat@.len() == s@.len(),
            s@.len() <= usize::MAX,
            forall|j: int| 0 <= j < i ==> s@[base + j] == pat@[j],
        decreases pat@.len() - i,
    {
        if s[base + i] != pat[i] {
            assert(s@.subrange(s@.len() - pat@.len(), s@.len() as int)[i as int] != pat@[i as int]);
            return false;
        }
        i = i + 1;
    }
    assert(s@.subrange(s@.len() - pat@.len(), s@.len() as int) =~= pat@);
    true
}

/// Whether `s` starts with `pat`.
pub open spec fn starts_with(s: Seq<char>, pat: Seq<char>) -> bool {
    pat.len() <= s.len() && s.subrange(0, pat.len() as int) == pat
}

/// Tests whether `s` starts with `pat`.
pub fn chars_start_with(s: &[char], pat: &[char]) -> (b: bool)
    ensures
        b == starts_with(s@, pat@),
{
    if pat.len() > s.len() {
        return false;
    }
    let mut i: usize = 0;
    while i < pat.len()
        invariant
            i <= pat@.len(),
            pat@.len() <= s@.len(),
            forall|j: int| 0 <= j < i ==> s@[j] == pat@[j],
        decreases pat@.len() - i,
    {
        if s[i] != pat[i] {
            assert(s@.subrange(0, pat@.len() as int)[i as int] != pat@[i as int]);
            return false;
        }
        i = i + 1;
    }
    assert(s@.subrange(0, pat@.len() as int) =~= pat@);
    true
}

/// Tests whether two character sequences are equal.
pub fn chars_equal(a: &[char], b: &[char]) -> (r: bool)
    ensures
        r == (a@ == b@),
{
    if a.len() != b.len() {
        return false;
    }
    let mut i: usize = 0;
    while i < a.len()
        invariant
            i <= a@.len(),
            a@.len() == b@.len(),
            forall|j: int| 0 <= j < i ==> a@[j] == b@[j],
        decreases a@.len() - i,
    {
        if a[i] != b[i] {
            return false;
        }
        i = i + 1;
    }
    assert(a@ =~= b@);
    true
}

} // verus!

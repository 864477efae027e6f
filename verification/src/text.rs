//! Small helpers on strings and their characters.

use vstd::prelude::*;
use vstd::string::*;
use vstd::utf8::{encode_utf8, encode_utf8_decode_utf8};

verus! {

/// The characters of `s`, in order, as a vector that can be indexed in constant time.
pub fn chars_of(s: &str) -> (chars: Vec<char>)
    ensures
        chars@ == s@,
{
    let mut chars: Vec<char> = Vec::new();
    for c in it: s.chars()
        invariant
            chars@ == it.seq().take(it.index()),
            it.seq() == s@,
    {
        chars.push(c);
    }
    chars
}

/// The characters of an optional string.
pub open spec fn text_of(text: Option<String>) -> Option<Seq<char>> {
    match text {
        Some(t) => Some(t@),
        None => None,
    }
}

/// Whether the two strings hold the same characters.
pub fn same_text(a: &str, b: &str) -> (same: bool)
    ensures
        same == (a@ == b@),
{
    let left = a.as_bytes();
    let right = b.as_bytes();
    proof {
        encode_utf8_decode_utf8(a@);
        encode_utf8_decode_utf8(b@);
    }
    if left.len() != right.len() {
        return false;
    }
    let mut i: usize = 0;
    while i < left.len()
        invariant
            i <= left@.len() == right@.len(),
            left@ == encode_utf8(a@),
            right@ == encode_utf8(b@),
            forall|j: int| 0 <= j < i ==> left@[j] == right@[j],
        decreases left@.len() - i,
    {
        if left[i] != right[i] {
            return false;
        }
        i += 1;
    }
    assert(left@ =~= right@);
    true
}

/// Calls `String::push`: appends one character.
#[verifier::external_body]
pub(crate) fn push_char(text: &mut String, c: char)
    ensures
        final(text)@ == old(text)@.push(c),
{
    text.push(c)
}

/// `pattern` stands in `text` at index `at`.
pub open spec fn stands_at(text: Seq<char>, at: int, pattern: Seq<char>) -> bool {
    0 <= at <= text.len() && pattern.is_prefix_of(text.skip(at))
}

/// Whether `pattern` stands in `text` at index `at`.
pub fn starts_with_at(text: &Vec<char>, at: usize, pattern: &Vec<char>) -> (yes: bool)
    ensures
        yes == stands_at(text@, at as int, pattern@),
{
    if at > text.len() || pattern.len() > text.len() - at {
        return false;
    }
    let ghost rest = text@.skip(at as int);
    let mut i: usize = 0;
    while i < pattern.len()
        invariant
            at <= text@.len(),
            rest == text@.skip(at as int),
            text@.len() <= usize::MAX,
            i <= pattern.len() <= text@.len() - at,
            forall|j: int| 0 <= j < i ==> rest[j] == pattern@[j],
        decreases pattern.len() - i,
    {
        if text[at + i] != pattern[i] {
            assert(rest.subrange(0, pattern@.len() as int)[i as int] != pattern@[i as int]);
            return false;
        }
        i += 1;
    }
    assert(rest.subrange(0, pattern@.len() as int) =~= pattern@);
    true
}

/// `text` starts with `pattern`, which is not empty.
pub open spec fn opens_with(text: Seq<char>, pattern: Seq<char>) -> bool {
    0 < pattern.len() && pattern.is_prefix_of(text)
}

/// What follows index `at` of `text`, with `to` in place of each `from`: read from left
/// to right, and what has been replaced is not read again. An empty `from` stands nowhere.
pub open spec fn replaced_from(text: Seq<char>, at: int, from: Seq<char>, to: Seq<char>) -> Seq<
    char,
>
    decreases text.len() - at,
{
    if at < 0 || at >= text.len() {
        Seq::<char>::empty()
    } else if opens_with(text.skip(at), from) {
        to + replaced_from(text, at + from.len(), from, to)
    } else {
        seq![text[at]] + replaced_from(text, at + 1, from, to)
    }
}

/// `text` with `to` in place of each `from`.
pub open spec fn replaced(text: Seq<char>, from: Seq<char>, to: Seq<char>) -> Seq<char> {
    replaced_from(text, 0, from, to)
}

/// Puts `to` in place of each `from` in `text`.
pub fn replace_all(text: &str, from: &str, to: &str) -> (result: String)
    ensures
        result@ == replaced(text@, from@, to@),
{
    let chars = chars_of(text);
    let pattern = chars_of(from);
    let n = chars.len();
    let mut result = String::new();
    let mut i: usize = 0;
    while i < n
        invariant
            n == chars@.len(),
            chars@ == text@,
            pattern@ == from@,
            i <= n,
            replaced(text@, from@, to@) == result@ + replaced_from(text@, i as int, from@, to@),
        decreases n - i,
    {
        let ghost before = result@;
        if pattern.len() > 0 && starts_with_at(&chars, i, &pattern) {
            result.append(to);
            assert(result@ + replaced_from(text@, i + pattern@.len(), from@, to@) =~= before
                + replaced_from(text@, i as int, from@, to@));
            i += pattern.len();
        } else {
            push_char(&mut result, chars[i]);
            assert(result@ + replaced_from(text@, i + 1, from@, to@) =~= before + replaced_from(
                text@,
                i as int,
                from@,
                to@,
            ));
            i += 1;
        }
    }
    assert(result@ + Seq::<char>::empty() =~= result@);
    result
}

/// Appends the characters of `chars` from index `from` up to index `to`.
pub(crate) fn push_range(text: &mut String, chars: &Vec<char>, from: usize, to: usize)
    requires
        from <= to <= chars@.len(),
    ensures
        final(text)@ == old(text)@ + chars@.subrange(from as int, to as int),
{
    let mut i: usize = from;
    assert(chars@.subrange(from as int, from as int) =~= Seq::<char>::empty());
    assert(text@ + Seq::<char>::empty() =~= text@);
    while i < to
        invariant
            from <= i <= to <= chars@.len(),
            text@ == old(text)@ + chars@.subrange(from as int, i as int),
        decreases to - i,
    {
        push_char(text, chars[i]);
        assert(chars@.subrange(from as int, i + 1) =~= chars@.subrange(from as int, i as int).push(
            chars@[i as int],
        ));
        i += 1;
    }
}

/// The index of the first `c` in `text`, or the length of `text` where it holds none.
pub open spec fn index_of(text: Seq<char>, c: char) -> int
    decreases text.len(),
{
    if text.len() == 0 || text[0] == c {
        0
    } else {
        1 + index_of(text.skip(1), c)
    }
}

/// Finds the first `c` in `chars`; gives the length of `chars` where it holds none.
pub fn find_char(chars: &Vec<char>, c: char) -> (at: usize)
    ensures
        at == index_of(chars@, c),
        at <= chars@.len(),
        at < chars@.len() ==> chars@[at as int] == c,
{
    let mut i: usize = 0;
    assert(chars@.skip(0) =~= chars@);
    while i < chars.len() && chars[i] != c
        invariant
            i <= chars@.len(),
            index_of(chars@, c) == i + index_of(chars@.skip(i as int), c),
        decreases chars@.len() - i,
    {
        assert(chars@.skip(i as int).skip(1) =~= chars@.skip(i + 1));
        i += 1;
    }
    i
}

} // verus!

//! Vocabulary over character sequences that the declaration and scanning
//! modules share: what counts as a flag token, upper-casing of display
//! labels, and runs of blanks for column alignment.

use vstd::prelude::*;
use vstd::utf8::encode_utf8;

verus! {

/// A token is read as a flag when its first character is a hyphen.
pub open spec fn is_flag_token(token: Seq<char>) -> bool {
    token.len() > 0 && token[0] == '-'
}

/// The letters `a` to `z` and `A` to `Z`.
pub open spec fn is_ascii_letter(c: char) -> bool {
    ('a' <= c && c <= 'z') || ('A' <= c && c <= 'Z')
}

/// `a` to `z` become `A` to `Z`; every other character stays as it is.
pub open spec fn ascii_upper(c: char) -> char {
    if 'a' <= c && c <= 'z' {
        ((c as u8 - 32) as u8) as char
    } else {
        c
    }
}

/// `text` with each character replaced by its `ascii_upper`.
pub open spec fn to_ascii_upper(text: Seq<char>) -> Seq<char> {
    Seq::new(text.len(), |i: int| ascii_upper(text[i]))
}

/// `n` blanks.
pub open spec fn spaces(n: nat) -> Seq<char> {
    Seq::new(n, |i: int| ' ')
}

/// The number of bytes that `text` occupies in a `String`.
pub open spec fn byte_len(text: Seq<char>) -> nat {
    encode_utf8(text).len()
}

/// Tells whether `token` begins with a hyphen.
pub(crate) fn starts_with_hyphen(token: &str) -> (b: bool)
    ensures
        b == is_flag_token(token@),
{
    !token.is_empty() && token.get_char(0) == '-'
}

/// Tells whether `c` is one of the letters `a` to `z` or `A` to `Z`.
pub(crate) fn is_letter(c: char) -> (b: bool)
    ensures
        b == is_ascii_letter(c),
{
    ('a' <= c && c <= 'z') || ('A' <= c && c <= 'Z')
}

/// Calls `str::to_ascii_uppercase`. Trusted: the result has as many
/// characters as `text`, the letters `a` to `z` are replaced by `A` to `Z`, and
/// every other character, ASCII or not, is kept.
#[verifier::external_body]
pub(crate) fn ascii_uppercase(text: &str) -> (upper: String)
    ensures
        upper@ == to_ascii_upper(text@),
{
    text.to_ascii_uppercase()
}

/// A string of `n` blanks.
pub(crate) fn padding(n: usize) -> (pad: String)
    ensures
        pad@ == spaces(n as nat),
{
    let mut pad = String::new();
    let mut i: usize = 0;
    while i < n
        invariant
            i <= n,
            pad@ == spaces(i as nat),
        decreases n - i,
    {
        proof {
            reveal_strlit(" ");
        }
        pad.append(" ");
        i = i + 1;
    }
    pad
}

/// A copy of `items`.
pub(crate) fn copy_strings(items: &[String]) -> (copy: Vec<String>)
    ensures
        copy.deep_view() == items.deep_view(),
{
    let mut copy: Vec<String> = Vec::new();
    let mut i: usize = 0;
    while i < items.len()
        invariant
            i <= items.len(),
            copy.len() == i,
            forall|k: int| 0 <= k < i ==> copy[k]@ == items[k]@,
        decreases items.len() - i,
    {
        copy.push(items[i].clone());
        i = i + 1;
    }
    copy
}

/// Two laws of `to_ascii_upper`: the length is kept, and upper-casing twice
/// is upper-casing once.
pub proof fn lemma_to_ascii_upper_idempotent(text: Seq<char>)
    ensures
        to_ascii_upper(text).len() == text.len(),
        to_ascii_upper(to_ascii_upper(text)) == to_ascii_upper(text),
{
    assert forall|i: int| 0 <= i < text.len() implies ascii_upper(ascii_upper(text[i]))
        == ascii_upper(text[i]) by {
        lemma_ascii_upper_fixed(text[i]);
    }
}

/// An upper-cased character is no lower-case letter, so upper-casing it again
/// changes nothing.
pub proof fn lemma_ascii_upper_fixed(c: char)
    ensures
        !('a' <= ascii_upper(c) && ascii_upper(c) <= 'z'),
        ascii_upper(ascii_upper(c)) == ascii_upper(c),
{
}

} // verus!

//! Text operations of the search: lower-casing, substring tests and the
//! rewriting of letters into classes of look-alike characters.

use vstd::prelude::*;
use vstd::string::*;

verus! {

/// The ASCII lower-case form of one character.
pub open spec fn lower_char(c: char) -> char {
    if 'A' <= c && c <= 'Z' {
        ((c as u8 + 32) as u8) as char
    } else {
        c
    }
}

/// The ASCII lower-case form of a text, character by character.
pub open spec fn lower(s: Seq<char>) -> Seq<char> {
    s.map_values(|c: char| lower_char(c))
}

/// `needle` stands in `hay` at position `i`.
pub open spec fn occurs_at(hay: Seq<char>, needle: Seq<char>, i: int) -> bool {
    0 <= i && i + needle.len() <= hay.len() && hay.subrange(i, i + needle.len()) == needle
}

/// `needle` stands somewhere in `hay`.
pub open spec fn contains_text(hay: Seq<char>, needle: Seq<char>) -> bool {
    exists|i: int| occurs_at(hay, needle, i)
}

/// `str::to_ascii_lowercase` of std: the letters `A` to `Z` become `a` to `z`,
/// every other character stays.
#[verifier::external_body]
pub(crate) fn ascii_lowercase(s: &str) -> (r: String)
    ensures
        r@ == lower(s@),
{
    s.to_ascii_lowercase()
}

/// `str::contains` of std with a string pattern: whether the pattern is a
/// contiguous part of the text.
#[verifier::external_body]
pub(crate) fn str_contains(hay: &str, needle: &str) -> (found: bool)
    ensures
        found == contains_text(hay@, needle@),
{
    hay.contains(needle)
}

/// The class of look-alike characters that a lower-case letter is rewritten
/// to; any other character stands for itself.
pub open spec fn class_of(c: char) -> Seq<char> {
    if c == 'a' {
        "[a4]"@
    } else if c == 'e' {
        "[e3]"@
    } else if c == 'g' {
        "[gq9]"@
    } else if c == 'i' || c == 'l' {
        "[il1]"@
    } else if c == 'o' {
        "[o0]"@
    } else if c == 's' {
        "[s5]"@
    } else if c == 'u' {
        "[uv]"@
    } else if c == 'z' {
        "[z2]"@
    } else {
        seq![c]
    }
}

/// A text with every character replaced by its class.
pub open spec fn expand(s: Seq<char>) -> Seq<char>
    decreases s.len(),
{
    if s.len() == 0 {
        Seq::empty()
    } else {
        expand(s.drop_last()) + class_of(s.last())
    }
}

/// Rewrites each letter that has look-alikes into a bracketed class.
pub fn expand_classes(s: &str) -> (out: String)
    ensures
        out@ == expand(s@),
{
    let n = s.unicode_len();
    let mut out = String::new();
    let mut i: usize = 0;
    while i < n
        invariant
            n == s@.len(),
            i <= n,
            out@ == expand(s@.subrange(0, i as int)),
        decreases n - i,
    {
        let c = s.get_char(i);
        if c == 'a' {
            out.append("[a4]");
        } else if c == 'e' {
            out.append("[e3]");
        } else if c == 'g' {
            out.append("[gq9]");
        } else if c == 'i' || c == 'l' {
            out.append("[il1]");
        } else if c == 'o' {
            out.append("[o0]");
        } else if c == 's' {
            out.append("[s5]");
        } else if c == 'u' {
            out.append("[uv]");
        } else if c == 'z' {
            out.append("[z2]");
        } else {
            out.append(s.substring_char(i, i + 1));
            assert(s@.subrange(i as int, i + 1) == seq![c]);
        }
        proof {
            let next = s@.subrange(0, i + 1);
            assert(next.drop_last() == s@.subrange(0, i as int));
            assert(next.last() == c);
        }
        i += 1;
    }
    assert(s@.subrange(0, n as int) == s@);
    out
}

} // verus!

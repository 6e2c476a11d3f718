//! Reading user names out of pasted text: one link to a user per line.

use vstd::prelude::*;
use vstd::string::*;
use crate::model::{hit, Match, UsernameView};
use crate::text::lower;

verus! {

/// The shortest and the longest name that a link may hold.
pub const MIN_NAME_LEN: usize = 2;

pub const MAX_NAME_LEN: usize = 40;

/// A character that a user name is made of.
pub open spec fn is_name_char(c: char) -> bool {
    ('a' <= c && c <= 'z') || ('A' <= c && c <= 'Z') || ('0' <= c && c <= '9') || c == '_' || c == '-'
}

/// A white-space character.
pub open spec fn is_space(c: char) -> bool {
    ('\t' <= c && c <= '\r') || c == ' ' || c == '\u{85}' || c == '\u{a0}' || c == '\u{1680}' || (
    '\u{2000}' <= c && c <= '\u{200a}') || c == '\u{2028}' || c == '\u{2029}' || c == '\u{202f}' || c
        == '\u{205f}' || c == '\u{3000}'
}

/// The site's address as it may stand before the path of a link. At the
/// place of its dot any character but a line break is taken.
pub open spec fn site() -> Seq<char> {
    "https://lichess.org/@"@
}

/// The place of the dot in `site`.
pub const SITE_DOT: usize = 15;

/// The number of characters of `site`.
pub const SITE_LEN: usize = 21;

/// The line begins with the site's address.
pub open spec fn begins_with_site(s: Seq<char>) -> bool {
    &&& s.len() >= SITE_LEN
    &&& forall|i: int|
        0 <= i < SITE_LEN ==> if i == SITE_DOT {
            s[i] != '\n'
        } else {
            #[trigger] s[i] == site()[i]
        }
}

/// Where the name of a link begins: behind the slash that opens the line or
/// follows the site's address.
pub open spec fn name_start(s: Seq<char>) -> Option<int> {
    if s.len() > 0 && s[0] == '/' {
        Some(1)
    } else if begins_with_site(s) && s.len() > SITE_LEN && s[SITE_LEN as int] == '/' {
        Some(SITE_LEN + 1)
    } else {
        None
    }
}

/// The number of name characters that follow one another from `from` on.
pub open spec fn name_run(s: Seq<char>, from: int) -> int
    decreases s.len() - from,
{
    if 0 <= from < s.len() && is_name_char(s[from]) {
        1 + name_run(s, from + 1)
    } else {
        0
    }
}

/// The user name that a line links to: a run of 2 to 40 name characters
/// behind the opening slash, with the end of the line or white space behind
/// it. What follows the white space does not matter.
pub open spec fn linked_name(s: Seq<char>) -> Option<Seq<char>> {
    match name_start(s) {
        Some(at) => {
            let n = name_run(s, at);
            if MIN_NAME_LEN <= n <= MAX_NAME_LEN && (at + n == s.len() || is_space(s[at + n])) {
                Some(s.subrange(at, at + n))
            } else {
                None
            }
        },
        None => None,
    }
}

/// Decides `is_name_char`.
fn name_char(c: char) -> (r: bool)
    ensures
        r == is_name_char(c),
{
    ('a' <= c && c <= 'z') || ('A' <= c && c <= 'Z') || ('0' <= c && c <= '9') || c == '_' || c == '-'
}

/// Decides `is_space`.
fn space(c: char) -> (r: bool)
    ensures
        r == is_space(c),
{
    ('\t' <= c && c <= '\r') || c == ' ' || c == '\u{85}' || c == '\u{a0}' || c == '\u{1680}' || (
    '\u{2000}' <= c && c <= '\u{200a}') || c == '\u{2028}' || c == '\u{2029}' || c == '\u{202f}' || c
        == '\u{205f}' || c == '\u{3000}'
}

/// Decides `begins_with_site`.
fn starts_with_site(line: &str, len: usize) -> (r: bool)
    requires
        len == line@.len(),
    ensures
        r == begins_with_site(line@),
{
    if len < SITE_LEN {
        return false;
    }
    let address = "https://lichess.org/@";
    proof {
        reveal_strlit("https://lichess.org/@");
    }
    let mut i: usize = 0;
    while i < SITE_LEN
        invariant
            i <= SITE_LEN <= len,
            len == line@.len(),
            address@ == site(),
            address@.len() == SITE_LEN,
            forall|k: int|
                0 <= k < i ==> if k == SITE_DOT {
                    line@[k] != '\n'
                } else {
                    #[trigger] line@[k] == site()[k]
                },
        decreases SITE_LEN - i,
    {
        let c = line.get_char(i);
        if i == SITE_DOT {
            if c == '\n' {
                return false;
            }
        } else if c != address.get_char(i) {
            return false;
        }
        i += 1;
    }
    true
}

/// Counts the name characters that follow one another from `from` on, up to
/// one more than the longest name.
fn count_name_chars(line: &str, len: usize, from: usize) -> (n: usize)
    requires
        len == line@.len(),
        from <= len,
    ensures
        n <= MAX_NAME_LEN + 1,
        from + n <= len,
        n <= MAX_NAME_LEN ==> n == name_run(line@, from as int),
        n == MAX_NAME_LEN + 1 ==> name_run(line@, from as int) > MAX_NAME_LEN,
{
    let mut n: usize = 0;
    while n <= MAX_NAME_LEN && from + n < len
        invariant
            len == line@.len(),
            from + n <= len,
            n <= MAX_NAME_LEN + 1,
            name_run(line@, from as int) == n + name_run(line@, from + n),
        decreases MAX_NAME_LEN + 1 - n,
    {
        if !name_char(line.get_char(from + n)) {
            return n;
        }
        n += 1;
    }
    proof {
        if n <= MAX_NAME_LEN {
            assert(name_run(line@, from + n) == 0);
        } else {
            lemma_name_run_bounds(line@, from + n);
        }
    }
    n
}

/// A run has no negative length and ends within the line.
proof fn lemma_name_run_bounds(s: Seq<char>, from: int)
    requires
        0 <= from <= s.len(),
    ensures
        0 <= name_run(s, from) <= s.len() - from,
    decreases s.len() - from,
{
    if from < s.len() && is_name_char(s[from]) {
        lemma_name_run_bounds(s, from + 1);
    }
}

/// Reads the user name that a line links to, as a result to show.
pub fn linked_match(line: &str) -> (r: Option<Match>)
    ensures
        match linked_name(line@) {
            Some(name) => r is Some && r->Some_0@ == hit(
                UsernameView { id: lower(name), name },
                0,
            ),
            None => r is None,
        },
{
    let len = line.unicode_len();
    let at: usize = if len > 0 && line.get_char(0) == '/' {
        1
    } else if starts_with_site(line, len) && len > SITE_LEN && line.get_char(SITE_LEN) == '/' {
        SITE_LEN + 1
    } else {
        return None;
    };
    let n = count_name_chars(line, len, at);
    if n < MIN_NAME_LEN || n > MAX_NAME_LEN {
        return None;
    }
    if at + n < len && !space(line.get_char(at + n)) {
        return None;
    }
    Some(Match::from_name(line.substring_char(at, at + n)))
}

} // verus!

//! Compiling a pattern into a searcher, and testing one key against it.

use vstd::prelude::*;
use vstd::string::*;
use vstd::utf8::encode_utf8;
use triple_accel::levenshtein::{levenshtein_naive_k_with_opts, EditCosts};
use crate::model::{LevenshteinSettings, SearchMode, MAX_KEY_EXCESS, MAX_PATTERN_LEN};
use crate::text::{ascii_lowercase, contains_text, expand, expand_classes, lower, str_contains};

verus! {

/// The compiled regular expression of the `regex` crate.
#[verifier::external_type_specification]
#[verifier::external_body]
pub struct ExRegex(regex::Regex);

/// The error that the `regex` crate gives for a pattern it does not take.
#[verifier::external_type_specification]
#[verifier::external_body]
pub struct ExRegexError(regex::Error);

/// Whether `regex::Regex::new` accepts the pattern.
pub uninterp spec fn regex_parses(pattern: Seq<char>) -> bool;

/// Whether a regular expression that `regex::Regex::new` made of the pattern
/// finds a match anywhere in the text (`regex::Regex::is_match`).
pub uninterp spec fn regex_matches(pattern: Seq<char>, text: Seq<char>) -> bool;

/// What `triple_accel::levenshtein::levenshtein_naive_k_with_opts` gives as
/// the distance between `a` and `b` as wholes, with the given threshold,
/// mismatch cost, gap cost and transposition cost and no cost for opening a
/// gap: the weighted edit distance where it is within the threshold, `None`
/// where it is beyond.
pub uninterp spec fn bounded_distance(
    a: Seq<u8>,
    b: Seq<u8>,
    max_k: u32,
    mismatch_cost: u8,
    gap_cost: u8,
    swap_cost: u8,
) -> Option<u32>;

/// A regular expression together with the text it was compiled from. The
/// fields are private and `parse` is the only way to a value, so the
/// expression is always the one that `regex::Regex::new` made of `source`.
pub struct Pattern {
    source: String,
    regex: regex::Regex,
}

/// Why a pattern could not be compiled.
#[derive(Debug)]
pub enum CompileError {
    /// The text is no regular expression; the message says why.
    Pattern(String),
    /// The edit-distance settings are not ones a search can run with.
    Settings,
    /// The pattern is longer than an edit-distance search takes.
    TooLong,
}

/// `regex::Regex::new`: compiles the pattern, or says why it cannot. Succeeds
/// exactly on the patterns that `regex_parses` names, and the value keeps the
/// text it was given.
#[verifier::external_body]
fn regex_new(source: &str) -> (r: Result<Pattern, regex::Error>)
    ensures
        r is Ok <==> regex_parses(source@),
        r matches Ok(p) ==> p.source@ == source@,
{
    match regex::Regex::new(source) {
        Ok(regex) => Ok(Pattern { source: source.to_owned(), regex }),
        Err(e) => Err(e),
    }
}

/// The message of a `regex::Error`, as its `Display` writes it. Nothing is
/// claimed of the text.
#[verifier::external_body]
fn regex_error_text(e: &regex::Error) -> (text: String) {
    format!("{}", e)
}

/// `regex::Regex::is_match`: whether the expression matches anywhere in the
/// text. The expression of a `Pattern` was compiled from its source, so the
/// answer is the one that `regex_matches` names for that source.
#[verifier::external_body]
fn regex_is_match(p: &Pattern, text: &str) -> (found: bool)
    ensures
        found == regex_matches(p.source@, text@),
{
    p.regex.is_match(text)
}

/// `triple_accel::levenshtein::levenshtein_naive_k_with_opts`, without a
/// traceback and with costs built by `EditCosts::new` with no cost for
/// opening a gap: the distance between the two texts as wholes, or `None`
/// where it is beyond the threshold. The routine has a single scalar
/// implementation. The settings asked for are the ones that `EditCosts::new`
/// accepts; the lengths asked for keep its cost table within a `u32`. A
/// distance that it gives is never beyond the threshold.
#[verifier::external_body]
fn distance_within(needle: &str, hay: &str, lev: &LevenshteinSettings) -> (r: Option<u32>)
    requires
        lev.valid(),
        needle.spec_bytes().len() <= MAX_PATTERN_LEN,
        needle.spec_bytes().len() <= hay.spec_bytes().len(),
        hay.spec_bytes().len() - needle.spec_bytes().len() <= MAX_KEY_EXCESS,
    ensures
        r == bounded_distance(
            needle.spec_bytes(),
            hay.spec_bytes(),
            lev.max_k,
            lev.mismatch_cost,
            lev.gap_cost,
            lev.swap_cost,
        ),
        r matches Some(cost) ==> cost <= lev.max_k,
{
    let costs = EditCosts::new(lev.mismatch_cost, lev.gap_cost, 0, Some(lev.swap_cost));
    let (needle, hay) = (needle.as_bytes(), hay.as_bytes());
    levenshtein_naive_k_with_opts(needle, hay, lev.max_k, false, costs).map(|found| found.0)
}

impl Pattern {
    /// The text that the expression was compiled from.
    pub closed spec fn source(&self) -> Seq<char> {
        self.source@
    }

    /// Compiles a regular expression. It succeeds exactly when the `regex`
    /// crate accepts the text; a refusal carries the crate's message.
    pub fn parse(source: &str) -> (r: Result<Pattern, CompileError>)
        ensures
            r is Ok <==> regex_parses(source@),
            r matches Ok(p) ==> p.source() == source@,
            r matches Err(e) ==> e is Pattern,
    {
        match regex_new(source) {
            Ok(p) => Ok(p),
            Err(e) => Err(CompileError::Pattern(regex_error_text(&e))),
        }
    }

    /// The text that the expression was compiled from.
    pub fn as_str(&self) -> (s: &str)
        ensures
            s@ == self.source(),
    {
        self.source.as_str()
    }

    /// Whether the expression matches anywhere in the text.
    pub fn is_match(&self, text: &str) -> (found: bool)
        ensures
            found == regex_matches(self.source(), text@),
    {
        regex_is_match(self, text)
    }
}

/// A compiled pattern, ready to test keys.
pub enum Searcher {
    /// The lower-case text that a key has to contain.
    Plain(String),
    /// The regular expression that a key has to match.
    Regex(Pattern),
    /// The lower-case text that a key has to be near, and the costs.
    Levenshtein(String, LevenshteinSettings),
}

/// What a `Searcher` is, as plain values.
pub ghost enum Matcher {
    Plain(Seq<char>),
    Regex(Seq<char>),
    Levenshtein(Seq<char>, LevenshteinSettings),
}

impl View for Searcher {
    type V = Matcher;

    open spec fn view(&self) -> Matcher {
        match self {
            Searcher::Plain(p) => Matcher::Plain(p@),
            Searcher::Regex(p) => Matcher::Regex(p.source()),
            Searcher::Levenshtein(p, lev) => Matcher::Levenshtein(p@, *lev),
        }
    }
}

impl Matcher {
    /// An edit-distance matcher holds settings a search can run with and a
    /// pattern of at most `MAX_PATTERN_LEN` bytes.
    pub open spec fn wf(self) -> bool {
        match self {
            Matcher::Levenshtein(p, lev) => lev.valid() && encode_utf8(p).len() <= MAX_PATTERN_LEN,
            _ => true,
        }
    }

    /// The score that a key gets, or `None` where it does not match. Plain and
    /// regular-expression matches score 0. An edit-distance search passes over
    /// a key that is out of reach, and otherwise scores the distance between
    /// the pattern and the whole key where it is within the threshold.
    pub open spec fn score(self, key: Seq<char>) -> Option<u32> {
        match self {
            Matcher::Plain(p) => hit_score_spec(contains_text(key, p)),
            Matcher::Regex(p) => hit_score_spec(regex_matches(p, key)),
            Matcher::Levenshtein(p, lev) => if out_of_reach(
                encode_utf8(p).len(),
                encode_utf8(key).len(),
                lev.max_k,
            ) {
                None
            } else {
                bounded_distance(
                    encode_utf8(p),
                    encode_utf8(key),
                    lev.max_k,
                    lev.mismatch_cost,
                    lev.gap_cost,
                    lev.swap_cost,
                )
            },
        }
    }
}

/// A key that an edit-distance search does not measure: one with fewer bytes
/// than the pattern; one that is longer than the pattern by more bytes than
/// the threshold, since every byte more costs a gap of at least 1; and one
/// that is longer by more than `MAX_KEY_EXCESS` bytes.
pub open spec fn out_of_reach(pattern_len: nat, key_len: nat, max_k: u32) -> bool {
    key_len < pattern_len || key_len - pattern_len > max_k || key_len - pattern_len > MAX_KEY_EXCESS
}

/// Score 0 for a key that passed a yes-or-no test, no score for one that
/// failed it.
pub open spec fn hit_score_spec(found: bool) -> Option<u32> {
    if found {
        Some(0u32)
    } else {
        None
    }
}

/// Score 0 for a key that passed a yes-or-no test, no score for one that
/// failed it.
pub fn hit_score(found: bool) -> (r: Option<u32>)
    ensures
        r == hit_score_spec(found),
{
    if found {
        Some(0)
    } else {
        None
    }
}

/// The settings that an edit-distance search uses: the given ones, or the
/// defaults where none are given.
pub open spec fn settings_or_default(settings: Option<LevenshteinSettings>) -> LevenshteinSettings {
    match settings {
        Some(lev) => lev,
        None => LevenshteinSettings { max_k: 3, mismatch_cost: 1, gap_cost: 1, swap_cost: 1 },
    }
}

/// The matcher that compiling a pattern gives, or `None` where the pattern is
/// refused: a regular expression that the `regex` crate does not accept,
/// edit-distance settings that are not valid, or an edit-distance pattern of
/// more than `MAX_PATTERN_LEN` bytes.
pub open spec fn compiled(
    pattern: Seq<char>,
    mode: SearchMode,
    settings: Option<LevenshteinSettings>,
) -> Option<Matcher> {
    match mode {
        SearchMode::Plain => Some(Matcher::Plain(lower(pattern))),
        SearchMode::NumberReplacements => if regex_parses(expand(lower(pattern))) {
            Some(Matcher::Regex(expand(lower(pattern))))
        } else {
            None
        },
        SearchMode::RegEx => if regex_parses(pattern) {
            Some(Matcher::Regex(pattern))
        } else {
            None
        },
        SearchMode::Levenshtein => {
            let lev = settings_or_default(settings);
            if lev.valid() && encode_utf8(lower(pattern)).len() <= MAX_PATTERN_LEN {
                Some(Matcher::Levenshtein(lower(pattern), lev))
            } else {
                None
            }
        },
    }
}

/// Every setting with a distance of at least one, positive costs and a swap
/// cheaper than two mismatches and than two gaps is taken: with such settings
/// an edit-distance search is refused only for an over-long pattern.
pub proof fn law_settings_admitted(pattern: Seq<char>, lev: LevenshteinSettings)
    requires
        lev.max_k >= 1,
        lev.mismatch_cost >= 1,
        lev.gap_cost >= 1,
        1 <= lev.swap_cost,
        lev.swap_cost < 2 * lev.mismatch_cost,
        lev.swap_cost < 2 * lev.gap_cost,
        encode_utf8(lower(pattern)).len() <= MAX_PATTERN_LEN,
    ensures
        compiled(pattern, SearchMode::Levenshtein, Some(lev)) == Some(
            Matcher::Levenshtein(lower(pattern), lev),
        ),
{
}

/// Whether `e` is the refusal that the mode and the settings call for: bad
/// settings before an over-long pattern in an edit-distance search, a pattern
/// error in the two modes that compile a regular expression.
pub open spec fn refusal_fits(
    e: CompileError,
    mode: SearchMode,
    settings: Option<LevenshteinSettings>,
) -> bool {
    match mode {
        SearchMode::Levenshtein => if settings_or_default(settings).valid() {
            e is TooLong
        } else {
            e is Settings
        },
        _ => e is Pattern,
    }
}

impl Searcher {
    /// See `Matcher::wf`.
    pub open spec fn wf(&self) -> bool {
        self@.wf()
    }

    /// Turns the outcome of parsing a regular expression into a searcher, or
    /// hands the refusal on.
    pub fn from_parsed(parsed: Result<Pattern, CompileError>) -> (r: Result<Searcher, CompileError>)
        ensures
            match parsed {
                Ok(p) => r is Ok && r->Ok_0@ == Matcher::Regex(p.source()),
                Err(e) => r == Err::<Searcher, CompileError>(e),
            },
            r matches Ok(s) ==> s.wf(),
    {
        match parsed {
            Ok(p) => Ok(Searcher::Regex(p)),
            Err(e) => Err(e),
        }
    }

    /// Compiles a pattern for the given mode.
    ///
    /// Plain search lower-cases the pattern. Look-alike search lower-cases it,
    /// rewrites its letters into classes and compiles the result as a regular
    /// expression. Regular-expression search compiles the pattern as it
    /// stands. Edit-distance search lower-cases the pattern and checks the
    /// settings, the defaults where none are given.
    pub fn compile(pattern: &str, mode: SearchMode, settings: Option<LevenshteinSettings>) -> (r:
        Result<Searcher, CompileError>)
        ensures
            match compiled(pattern@, mode, settings) {
                Some(m) => r is Ok && r->Ok_0@ == m && r->Ok_0.wf(),
                None => r is Err && refusal_fits(r->Err_0, mode, settings),
            },
    {
        match mode {
            SearchMode::Plain => Ok(Searcher::Plain(ascii_lowercase(pattern))),
            SearchMode::NumberReplacements => {
                let lowered = ascii_lowercase(pattern);
                let expanded = expand_classes(lowered.as_str());
                Searcher::from_parsed(Pattern::parse(expanded.as_str()))
            },
            SearchMode::RegEx => Searcher::from_parsed(Pattern::parse(pattern)),
            SearchMode::Levenshtein => {
                let lev = match settings {
                    Some(lev) => lev,
                    None => LevenshteinSettings::default(),
                };
                let lowered = ascii_lowercase(pattern);
                if !lev.is_valid() {
                    Err(CompileError::Settings)
                } else if lowered.as_str().as_bytes().len() > MAX_PATTERN_LEN {
                    Err(CompileError::TooLong)
                } else {
                    Ok(Searcher::Levenshtein(lowered, lev))
                }
            },
        }
    }

    /// Tests one key: its score where it matches, `None` where it does not.
    pub fn matches(&self, username: &str) -> (r: Option<u32>)
        requires
            self.wf(),
        ensures
            r == self@.score(username@),
            self@ is Levenshtein ==> (r matches Some(cost) ==> cost <= self@->Levenshtein_1.max_k),
            !(self@ is Levenshtein) ==> (r matches Some(cost) ==> cost == 0),
    {
        match self {
            Searcher::Plain(pattern) => hit_score(str_contains(username, pattern.as_str())),
            Searcher::Regex(pattern) => hit_score(pattern.is_match(username)),
            Searcher::Levenshtein(pattern, lev) => {
                let key_len = username.as_bytes().len();
                let pattern_len = pattern.as_str().as_bytes().len();
                if key_len < pattern_len {
                    None
                } else if key_len - pattern_len > MAX_KEY_EXCESS || (key_len - pattern_len) as u64
                    > lev.max_k as u64 {
                    None
                } else {
                    distance_within(pattern.as_str(), username, lev)
                }
            },
        }
    }
}

} // verus!


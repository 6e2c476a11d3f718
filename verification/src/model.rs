//! The records that the search works on.

use vstd::prelude::*;
use crate::text::{ascii_lowercase, lower};

verus! {

/// One entry of the corpus: the name as it was read and its lower-case key.
pub struct Username {
    pub id: String,
    pub name: String,
}

/// What a `Username` is, as plain sequences of characters.
pub struct UsernameView {
    pub id: Seq<char>,
    pub name: Seq<char>,
}

impl View for Username {
    type V = UsernameView;

    open spec fn view(&self) -> UsernameView {
        UsernameView { id: self.id@, name: self.name@ }
    }
}

impl Username {
    /// The key is the ASCII lower-case form of the name.
    pub open spec fn wf(&self) -> bool {
        self.id@ == lower(self.name@)
    }

    /// Builds the record for a name, deriving its key.
    pub fn new(name: String) -> (user: Username)
        ensures
            user.name@ == name@,
            user.id@ == lower(name@),
            user.wf(),
    {
        let id = ascii_lowercase(name.as_str());
        Username { id, name }
    }
}

/// One search result. Times are seconds since the Unix epoch.
#[derive(Clone, Debug)]
pub struct Match {
    pub id: String,
    pub name: String,
    pub enabled: bool,
    pub created_at: Option<i64>,
    pub seen_at: Option<i64>,
    pub games: u32,
    pub k: u32,
}

/// What a `Match` is, as plain values.
pub struct MatchView {
    pub id: Seq<char>,
    pub name: Seq<char>,
    pub enabled: bool,
    pub created_at: Option<i64>,
    pub seen_at: Option<i64>,
    pub games: u32,
    pub k: u32,
}

impl View for Match {
    type V = MatchView;

    open spec fn view(&self) -> MatchView {
        MatchView {
            id: self.id@,
            name: self.name@,
            enabled: self.enabled,
            created_at: self.created_at,
            seen_at: self.seen_at,
            games: self.games,
            k: self.k,
        }
    }
}

/// The result that a corpus entry gives when it matches with score `k`:
/// enabled, with no times and no games known yet.
pub open spec fn hit(user: UsernameView, k: u32) -> MatchView {
    MatchView {
        id: user.id,
        name: user.name,
        enabled: true,
        created_at: None,
        seen_at: None,
        games: 0,
        k,
    }
}

/// The views of a sequence of results, in order.
pub open spec fn match_views(s: Seq<Match>) -> Seq<MatchView> {
    s.map_values(|m: Match| m@)
}

/// The views of a sequence of corpus entries, in order.
pub open spec fn user_views(s: Seq<Username>) -> Seq<UsernameView> {
    s.map_values(|u: Username| u@)
}

impl Match {
    /// The result for a corpus entry that matched with score `k`.
    pub fn new(user: &Username, k: u32) -> (m: Match)
        ensures
            m@ == hit(user@, k),
    {
        Match {
            id: user.id.clone(),
            name: user.name.clone(),
            enabled: true,
            created_at: None,
            seen_at: None,
            games: 0,
            k,
        }
    }

    /// The result that stands for a bare name, as when a saved list is shown.
    pub fn from_name(name: &str) -> (m: Match)
        ensures
            m@ == hit(UsernameView { id: lower(name@), name: name@ }, 0),
    {
        Match {
            id: ascii_lowercase(name),
            name: name.to_owned(),
            enabled: true,
            created_at: None,
            seen_at: None,
            games: 0,
            k: 0,
        }
    }

    /// A copy with the same contents.
    pub fn copy(&self) -> (m: Match)
        ensures
            m == *self,
    {
        Match {
            id: self.id.clone(),
            name: self.name.clone(),
            enabled: self.enabled,
            created_at: self.created_at,
            seen_at: self.seen_at,
            games: self.games,
            k: self.k,
        }
    }
}

/// How a pattern is read.
#[derive(Clone, Copy, Debug, PartialEq, Eq, Structural)]
pub enum SearchMode {
    Plain,
    NumberReplacements,
    Levenshtein,
    RegEx,
}

impl Default for SearchMode {
    fn default() -> (mode: SearchMode)
        ensures
            mode == SearchMode::Plain,
    {
        SearchMode::Plain
    }
}

/// The longest pattern, in bytes, that an edit-distance search takes. It keeps
/// every entry of the cost table far below the largest `u32`.
pub const MAX_PATTERN_LEN: usize = 65_536;

/// The most bytes by which a key may be longer than the pattern and still be
/// measured against it in an edit-distance search. Like `MAX_PATTERN_LEN` it
/// keeps the cost table within a `u32`.
pub const MAX_KEY_EXCESS: usize = 1_048_576;

/// The largest distance and the largest cost of a mismatch or a gap that the
/// controls allow.
pub const MAX_SETTING: u8 = 10;

/// A number brought into the range from 1 to `MAX_SETTING`.
pub open spec fn clamp_setting(n: int) -> int {
    if n < 1 {
        1
    } else if n > MAX_SETTING {
        MAX_SETTING as int
    } else {
        n
    }
}

/// Brings a cost into the range from 1 to `MAX_SETTING`.
fn clamp_cost(cost: u8) -> (r: u8)
    ensures
        r == clamp_setting(cost as int),
{
    if cost < 1 {
        1
    } else if cost > MAX_SETTING {
        MAX_SETTING
    } else {
        cost
    }
}

/// The costs of an edit-distance search and the largest total cost accepted.
#[derive(Clone, Copy, Debug, PartialEq, Eq, Structural)]
pub struct LevenshteinSettings {
    pub max_k: u32,
    pub mismatch_cost: u8,
    pub gap_cost: u8,
    pub swap_cost: u8,
}

impl LevenshteinSettings {
    /// The settings a search can run with: a distance of at least one,
    /// positive costs, and a swap cheaper than two mismatches and than two
    /// gaps.
    pub open spec fn valid(&self) -> bool {
        &&& self.max_k >= 1
        &&& self.mismatch_cost >= 1
        &&& self.gap_cost >= 1
        &&& self.swap_cost >= 1
        &&& self.swap_cost < 2 * self.mismatch_cost
        &&& self.swap_cost < 2 * self.gap_cost
    }

    /// The largest swap cost that the costs of a mismatch and of a gap leave
    /// room for: one less than twice the smaller of the two, as far as a `u8`
    /// counts.
    pub fn swap_limit(&self) -> (limit: u8)
        requires
            self.mismatch_cost >= 1,
            self.gap_cost >= 1,
        ensures
            limit >= 1,
            self.mismatch_cost <= self.gap_cost ==> limit == if self.mismatch_cost <= 127 {
                2 * self.mismatch_cost - 1
            } else {
                255
            },
            self.gap_cost <= self.mismatch_cost ==> limit == if self.gap_cost <= 127 {
                2 * self.gap_cost - 1
            } else {
                255
            },
    {
        let least = if self.mismatch_cost <= self.gap_cost {
            self.mismatch_cost
        } else {
            self.gap_cost
        };
        if least <= 127 {
            2 * least - 1
        } else {
            255
        }
    }

    /// The settings as the controls allow them: the distance and the costs of
    /// a mismatch and of a gap between 1 and `MAX_SETTING`, the swap cost
    /// between 1 and the limit that those two costs leave.
    pub open spec fn in_range(&self) -> bool {
        &&& 1 <= self.max_k <= MAX_SETTING
        &&& 1 <= self.mismatch_cost <= MAX_SETTING
        &&& 1 <= self.gap_cost <= MAX_SETTING
        &&& 1 <= self.swap_cost
        &&& self.swap_cost < 2 * self.mismatch_cost
        &&& self.swap_cost < 2 * self.gap_cost
    }

    /// Brings each setting into the range that the controls allow: a value
    /// below its range becomes the lowest, one above it the highest, and one
    /// within it stays.
    pub fn clamped(self) -> (r: LevenshteinSettings)
        ensures
            r.in_range(),
            r.valid(),
            self.in_range() ==> r == self,
            r.max_k == clamp_setting(self.max_k as int),
            r.mismatch_cost == clamp_setting(self.mismatch_cost as int),
            r.gap_cost == clamp_setting(self.gap_cost as int),
            self.swap_cost < 1 ==> r.swap_cost == 1,
            1 <= self.swap_cost && self.swap_cost < 2 * r.mismatch_cost && self.swap_cost < 2
                * r.gap_cost ==> r.swap_cost == self.swap_cost,
            self.swap_cost >= 2 * r.mismatch_cost && r.mismatch_cost <= r.gap_cost ==> r.swap_cost == 2
                * r.mismatch_cost - 1,
            self.swap_cost >= 2 * r.gap_cost && r.gap_cost <= r.mismatch_cost ==> r.swap_cost == 2
                * r.gap_cost - 1,
    {
        let max_k = if self.max_k < 1 {
            1
        } else if self.max_k > MAX_SETTING as u32 {
            MAX_SETTING as u32
        } else {
            self.max_k
        };
        let mismatch_cost = clamp_cost(self.mismatch_cost);
        let gap_cost = clamp_cost(self.gap_cost);
        let bounds = LevenshteinSettings { max_k, mismatch_cost, gap_cost, swap_cost: 1 };
        let limit = bounds.swap_limit();
        let swap_cost = if self.swap_cost < 1 {
            1
        } else if self.swap_cost > limit {
            limit
        } else {
            self.swap_cost
        };
        LevenshteinSettings { max_k, mismatch_cost, gap_cost, swap_cost }
    }

    /// Decides `valid`.
    pub fn is_valid(&self) -> (ok: bool)
        ensures
            ok == self.valid(),
    {
        self.max_k >= 1 && self.mismatch_cost >= 1 && self.gap_cost >= 1 && self.swap_cost >= 1
            && self.swap_cost / 2 < self.mismatch_cost && self.swap_cost / 2 < self.gap_cost
    }
}

impl Default for LevenshteinSettings {
    fn default() -> (lev: LevenshteinSettings)
        ensures
            lev == (LevenshteinSettings { max_k: 3, mismatch_cost: 1, gap_cost: 1, swap_cost: 1 }),
            lev.valid(),
    {
        LevenshteinSettings { max_k: 3, mismatch_cost: 1, gap_cost: 1, swap_cost: 1 }
    }
}

} // verus!

//! Taking in what the user-information service says about the results.

use vstd::prelude::*;
use crate::model::{match_views, Match, MatchView};
use crate::rank::{rank, ranked, RankBy};
use crate::session::{stretch_end, ProgressState};

verus! {

/// The largest number of names sent in one request.
pub const FETCH_BATCH: usize = 300;

/// The number of leading results that information is asked for.
pub const FETCH_LIMIT: usize = 1500;

/// The number of games a user has played in each kind of game, where the
/// service reports it.
#[derive(Clone, Copy, Debug, PartialEq, Eq, Structural)]
pub struct ApiPerfs {
    pub chess960: Option<u32>,
    pub atomic: Option<u32>,
    pub racing_kings: Option<u32>,
    pub ultra_bullet: Option<u32>,
    pub blitz: Option<u32>,
    pub king_of_the_hill: Option<u32>,
    pub bullet: Option<u32>,
    pub correspondence: Option<u32>,
    pub horde: Option<u32>,
    pub classical: Option<u32>,
    pub rapid: Option<u32>,
}

/// The games of one kind: none where nothing is reported.
pub open spec fn games_of(perf: Option<u32>) -> int {
    match perf {
        Some(games) => games as int,
        None => 0,
    }
}

/// Adds the games of one kind to a count, stopping at the largest `u32`.
fn add_games(sum: u32, perf: Option<u32>) -> (r: u32)
    ensures
        r == if sum + games_of(perf) <= u32::MAX { sum + games_of(perf) } else { u32::MAX as int },
{
    match perf {
        Some(games) => if games <= u32::MAX - sum {
            sum + games
        } else {
            u32::MAX
        },
        None => sum,
    }
}

impl ApiPerfs {
    /// The games of all kinds together.
    pub open spec fn total(self) -> int {
        games_of(self.chess960) + games_of(self.atomic) + games_of(self.racing_kings) + games_of(
            self.ultra_bullet,
        ) + games_of(self.blitz) + games_of(self.king_of_the_hill) + games_of(self.bullet)
            + games_of(self.correspondence) + games_of(self.horde) + games_of(self.classical)
            + games_of(self.rapid)
    }

    /// The games of all kinds together, as far as a `u32` counts.
    pub open spec fn games(self) -> u32 {
        if self.total() <= u32::MAX {
            self.total() as u32
        } else {
            u32::MAX
        }
    }

    /// The games of all kinds together; a total beyond the largest `u32` is
    /// given as the largest `u32`.
    pub fn sum_games(self) -> (sum: u32)
        ensures
            sum == self.games(),
            self.total() <= u32::MAX ==> sum == self.total(),
    {
        let sum = add_games(0, self.chess960);
        let sum = add_games(sum, self.atomic);
        let sum = add_games(sum, self.racing_kings);
        let sum = add_games(sum, self.ultra_bullet);
        let sum = add_games(sum, self.blitz);
        let sum = add_games(sum, self.king_of_the_hill);
        let sum = add_games(sum, self.bullet);
        let sum = add_games(sum, self.correspondence);
        let sum = add_games(sum, self.horde);
        let sum = add_games(sum, self.classical);
        add_games(sum, self.rapid)
    }
}

/// What the service reports of one user. Times are seconds since the Unix
/// epoch.
#[derive(Clone, Debug)]
pub struct ApiUser {
    pub id: String,
    pub created_at: Option<i64>,
    pub seen_at: Option<i64>,
    pub disabled: bool,
    pub perfs: ApiPerfs,
}

/// What an `ApiUser` is, as plain values, with its games summed.
pub struct ApiUserView {
    pub id: Seq<char>,
    pub created_at: Option<i64>,
    pub seen_at: Option<i64>,
    pub disabled: bool,
    pub games: u32,
}

impl View for ApiUser {
    type V = ApiUserView;

    open spec fn view(&self) -> ApiUserView {
        ApiUserView {
            id: self.id@,
            created_at: self.created_at,
            seen_at: self.seen_at,
            disabled: self.disabled,
            games: self.perfs.games(),
        }
    }
}

/// The views of the reports, in the order in which they came.
pub open spec fn api_views(s: Seq<ApiUser>) -> Seq<ApiUserView> {
    s.map_values(|u: ApiUser| u@)
}

/// The report to use for a key: the last one that came for it.
pub open spec fn last_with_id(received: Seq<ApiUserView>, id: Seq<char>) -> Option<ApiUserView>
    decreases received.len(),
{
    if received.len() == 0 {
        None
    } else if received.last().id == id {
        Some(received.last())
    } else {
        last_with_id(received.drop_last(), id)
    }
}

/// No earlier result has the key of the result at `i`.
pub open spec fn first_of_id(results: Seq<MatchView>, i: int) -> bool {
    forall|j: int| 0 <= j < i ==> (#[trigger] results[j]).id != results[i].id
}

/// A result with the times, the games and the state that a report gives.
pub open spec fn with_info(m: MatchView, u: ApiUserView) -> MatchView {
    MatchView {
        id: m.id,
        name: m.name,
        enabled: !u.disabled,
        created_at: u.created_at,
        seen_at: u.seen_at,
        games: u.games,
        k: m.k,
    }
}

/// The result at `i` after the reports were taken in. A report goes to the
/// first result with its key, and only to one among the first `limit`.
pub open spec fn enriched_at(
    results: Seq<MatchView>,
    received: Seq<ApiUserView>,
    limit: int,
    i: int,
) -> MatchView {
    if i < limit && first_of_id(results, i) {
        match last_with_id(received, results[i].id) {
            Some(u) => with_info(results[i], u),
            None => results[i],
        }
    } else {
        results[i]
    }
}

/// The results after the reports were taken in: as many as before, each in
/// its place.
pub open spec fn enriched(results: Seq<MatchView>, received: Seq<ApiUserView>, limit: int) -> Seq<
    MatchView,
> {
    Seq::new(results.len(), |i: int| enriched_at(results, received, limit, i))
}

/// The results that are shown once reports were taken in: all of them, or
/// only the enabled ones, by score, freshness and activity. With no report at
/// all, nothing changes.
pub open spec fn enrichment_outcome(
    results: Seq<MatchView>,
    received: Seq<ApiUserView>,
    hide_closed: bool,
) -> Seq<MatchView> {
    if received.len() == 0 {
        results
    } else {
        let merged = enriched(results, received, FETCH_LIMIT as int);
        ranked(
            RankBy::Composite,
            if hide_closed {
                merged.filter(|m: MatchView| m.enabled)
            } else {
                merged
            },
        )
    }
}

/// Finds the report to use for a key.
fn find_last(received: &Vec<ApiUser>, id: &String) -> (r: Option<usize>)
    ensures
        match r {
            Some(j) => j < received.len() && last_with_id(api_views(received@), id@) == Some(
                received[j as int]@,
            ),
            None => last_with_id(api_views(received@), id@) is None,
        },
{
    let ghost all = api_views(received@);
    let mut best: Option<usize> = None;
    let mut i: usize = 0;
    while i < received.len()
        invariant
            i <= received.len(),
            all == api_views(received@),
            match best {
                Some(j) => j < i && last_with_id(all.subrange(0, i as int), id@) == Some(
                    received[j as int]@,
                ),
                None => last_with_id(all.subrange(0, i as int), id@) is None,
            },
        decreases received.len() - i,
    {
        proof {
            let next = all.subrange(0, i + 1);
            assert(next.drop_last() =~= all.subrange(0, i as int));
            assert(next.last() == received[i as int]@);
        }
        if received[i].id == *id {
            best = Some(i);
        }
        i += 1;
    }
    assert(all.subrange(0, received.len() as int) =~= all);
    best
}

/// Whether an earlier result has the key of the result at `i`.
fn seen_before(results: &Vec<Match>, i: usize) -> (r: bool)
    requires
        i < results.len(),
    ensures
        r == !first_of_id(match_views(results@), i as int),
{
    let ghost views = match_views(results@);
    let mut j: usize = 0;
    while j < i
        invariant
            j <= i < results.len(),
            views == match_views(results@),
            forall|n: int| 0 <= n < j ==> (#[trigger] views[n]).id != views[i as int].id,
        decreases i - j,
    {
        if results[j].id == results[i].id {
            assert(views[j as int].id == views[i as int].id);
            return true;
        }
        j += 1;
    }
    false
}

/// Writes what the reports say into the results they are about. No result is
/// added, removed or moved.
pub fn merge_info(results: &mut Vec<Match>, received: &Vec<ApiUser>)
    ensures
        match_views(final(results)@) == enriched(
            match_views(old(results)@),
            api_views(received@),
            FETCH_LIMIT as int,
        ),
        final(results).len() == old(results).len(),
{
    let ghost before = match_views(results@);
    let ghost reports = api_views(received@);
    let n = results.len();
    let limit = if n < FETCH_LIMIT { n } else { FETCH_LIMIT };
    let mut i: usize = 0;
    while i < limit
        invariant
            i <= limit <= n,
            limit == if n < FETCH_LIMIT { n } else { FETCH_LIMIT },
            results.len() == n,
            before.len() == n,
            reports == api_views(received@),
            forall|k: int| 0 <= k < n ==> (#[trigger] match_views(results@)[k]).id == before[k].id,
            forall|k: int| 0 <= k < i ==> #[trigger] match_views(results@)[k] == enriched_at(
                before,
                reports,
                FETCH_LIMIT as int,
                k,
            ),
            forall|k: int| i <= k < n ==> #[trigger] match_views(results@)[k] == before[k],
        decreases limit - i,
    {
        let ghost now = match_views(results@);
        let repeated = seen_before(results, i);
        proof {
            assert(first_of_id(now, i as int) == first_of_id(before, i as int)) by {
                if first_of_id(now, i as int) {
                    assert forall|j: int| 0 <= j < i implies (#[trigger] before[j]).id != before[i as int].id by {
                        assert(now[j].id == before[j].id);
                        assert(now[i as int].id == before[i as int].id);
                    }
                } else {
                    let j = choose|j: int| 0 <= j < i && !((#[trigger] now[j]).id != now[i as int].id);
                    assert(now[j].id == before[j].id);
                    assert(before[j].id == before[i as int].id);
                }
            }
        }
        if !repeated {
            if let Some(j) = find_last(received, &results[i].id) {
                let report = &received[j];
                let updated = Match {
                    id: results[i].id.clone(),
                    name: results[i].name.clone(),
                    enabled: !report.disabled,
                    created_at: report.created_at,
                    seen_at: report.seen_at,
                    games: report.perfs.sum_games(),
                    k: results[i].k,
                };
                assert(updated@ == with_info(before[i as int], report@));
                results.set(i, updated);
            }
        }
        proof {
            let after = match_views(results@);
            assert forall|k: int| 0 <= k < n implies (#[trigger] after[k]).id == before[k].id by {
                if k != i {
                    assert(after[k] == now[k]);
                }
            }
            assert forall|k: int| 0 <= k < i + 1 implies #[trigger] after[k] == enriched_at(
                before,
                reports,
                FETCH_LIMIT as int,
                k,
            ) by {
                if k != i {
                    assert(after[k] == now[k]);
                }
            }
            assert forall|k: int| i + 1 <= k < n implies #[trigger] after[k] == before[k] by {
                assert(after[k] == now[k]);
            }
        }
        i += 1;
    }
    assert(match_views(results@) =~= enriched(before, reports, FETCH_LIMIT as int));
}

/// Drops the results of closed accounts; the others keep their order.
pub fn keep_enabled(results: &Vec<Match>) -> (out: Vec<Match>)
    ensures
        match_views(out@) == match_views(results@).filter(|m: MatchView| m.enabled),
{
    let ghost views = match_views(results@);
    let ghost enabled = |m: MatchView| m.enabled;
    let mut out: Vec<Match> = Vec::new();
    let mut i: usize = 0;
    proof {
        reveal(Seq::filter);
        assert(views.subrange(0, 0).filter(enabled) =~= Seq::empty());
    }
    while i < results.len()
        invariant
            i <= results.len(),
            views == match_views(results@),
            enabled == |m: MatchView| m.enabled,
            match_views(out@) == views.subrange(0, i as int).filter(enabled),
        decreases results.len() - i,
    {
        let ghost kept = match_views(out@);
        proof {
            let next = views.subrange(0, i + 1);
            assert(next.drop_last() =~= views.subrange(0, i as int));
            assert(next.last() == results[i as int]@);
            reveal(Seq::filter);
        }
        if results[i].enabled {
            out.push(results[i].copy());
            assert(match_views(out@) =~= kept.push(results[i as int]@));
        }
        i += 1;
    }
    assert(views.subrange(0, results.len() as int) =~= views);
    out
}

/// Takes in the reports of one pass: writes them into the results, drops the
/// closed accounts where that is asked for, and ranks what is left by score,
/// freshness and activity. Where no report came, the results stay as they
/// are.
pub fn apply_enrichment(results: &mut Vec<Match>, received: &Vec<ApiUser>, hide_closed: bool)
    ensures
        match_views(final(results)@) == enrichment_outcome(
            match_views(old(results)@),
            api_views(received@),
            hide_closed,
        ),
{
    if received.len() == 0 {
        return ;
    }
    merge_info(results, received);
    if hide_closed {
        let kept = keep_enabled(results);
        *results = kept;
    }
    rank(results, RankBy::Composite);
}

/// The names that information is asked for: those of the first `FETCH_LIMIT`
/// results, in order.
pub fn fetch_names(results: &Vec<Match>) -> (names: Vec<String>)
    ensures
        names.len() == if results.len() < FETCH_LIMIT { results.len() } else { FETCH_LIMIT },
        forall|i: int| 0 <= i < names.len() ==> (#[trigger] names[i])@ == results[i].name@,
{
    let limit = if results.len() < FETCH_LIMIT { results.len() } else { FETCH_LIMIT };
    let mut names: Vec<String> = Vec::new();
    let mut i: usize = 0;
    while i < limit
        invariant
            i <= limit <= results.len(),
            names.len() == i,
            forall|k: int| 0 <= k < i ==> (#[trigger] names[k])@ == results[k].name@,
        decreases limit - i,
    {
        names.push(results[i].name.clone());
        i += 1;
    }
    names
}

/// One pass of asking the service: the names to ask for, what has come back,
/// and how far the pass is.
pub struct FetchPass {
    pub names: Vec<String>,
    pub received: Vec<ApiUser>,
    pub sent: usize,
    pub failed: bool,
    pub progress: ProgressState,
}

impl FetchPass {
    /// No more names are sent than there are, and the progress is sound.
    pub open spec fn wf(&self) -> bool {
        &&& self.sent <= self.names.len()
        &&& self.progress.wf()
    }

    /// The batch to send next: the names from the first to before the second
    /// position. There is none once a request failed or every name was sent.
    pub open spec fn spec_next(&self) -> Option<(usize, usize)> {
        if self.failed || self.sent >= self.names.len() {
            None
        } else if self.sent + FETCH_BATCH <= self.names.len() {
            Some((self.sent, (self.sent + FETCH_BATCH) as usize))
        } else {
            Some((self.sent, self.names.len()))
        }
    }

    /// Opens a pass over the leading results.
    pub fn begin(results: &Vec<Match>) -> (pass: FetchPass)
        ensures
            pass.wf(),
            pass.names.len() == if results.len() < FETCH_LIMIT { results.len() } else { FETCH_LIMIT },
            forall|i: int| 0 <= i < pass.names.len() ==> (#[trigger] pass.names[i])@ == results[i].name@,
            pass.received@.len() == 0,
            pass.sent == 0,
            !pass.failed,
            pass.progress.scanned == 0,
            pass.progress.total == if pass.names.len() == 0 { 1 } else { pass.names.len() },
    {
        let names = fetch_names(results);
        let progress = ProgressState::start(names.len());
        FetchPass { names, received: Vec::new(), sent: 0, failed: false, progress }
    }

    /// The batch to send next, if there is one.
    pub fn next_batch(&self) -> (r: Option<(usize, usize)>)
        requires
            self.wf(),
        ensures
            r == self.spec_next(),
            r matches Some((from, to)) ==> from < to <= self.names.len() && to - from <= FETCH_BATCH,
    {
        if self.failed || self.sent >= self.names.len() {
            None
        } else {
            Some((self.sent, stretch_end(self.sent, self.names.len(), FETCH_BATCH)))
        }
    }

    /// Takes in the answer to the batch that was sent: its reports are kept
    /// behind those of the batches before it, and one step is counted.
    pub fn record_answer(&mut self, users: Vec<ApiUser>)
        requires
            old(self).wf(),
            old(self).spec_next() is Some,
        ensures
            final(self).wf(),
            final(self).names == old(self).names,
            final(self).received@ == old(self).received@ + users@,
            old(self).spec_next() == Some((old(self).sent, final(self).sent)),
            !final(self).failed,
            final(self).progress.total == old(self).progress.total,
            final(self).progress.scanned >= old(self).progress.scanned,
    {
        let mut users = users;
        self.received.append(&mut users);
        self.sent = stretch_end(self.sent, self.names.len(), FETCH_BATCH);
        self.progress.advance(1);
    }

    /// Notes that the batch that was sent failed. No further batch is sent;
    /// what came before stays.
    pub fn record_failure(&mut self)
        requires
            old(self).wf(),
        ensures
            final(self).wf(),
            final(self).failed,
            final(self).spec_next() is None,
            final(self).names == old(self).names,
            final(self).received == old(self).received,
            final(self).sent == old(self).sent,
            final(self).progress == old(self).progress,
    {
        self.failed = true;
    }
}

} // verus!

//! One search session: the corpus, the pattern, the results and the progress
//! that a poller may read.

use std::sync::Arc;
use vstd::prelude::*;
use vstd::slice::slice_subrange;
use vstd::utf8::encode_utf8;
use crate::action::{enabled_names, texts, ActionError, CloseRun, MAX_CLOSE};
use crate::enrich::{api_views, apply_enrichment, enrichment_outcome, FetchPass, FETCH_LIMIT};
use crate::model::{hit, match_views, user_views, LevenshteinSettings, Match, MatchView, SearchMode, Username, UsernameView};
use crate::rank::{lemma_ranked, ordered, rank, ranked, RankBy};
use crate::scan::{found, law_approximate_membership, law_plain_membership, lemma_arrival_order, lemma_found_concat, scan_chunk, PROGRESS_BATCH};
use crate::searcher::{bounded_distance, compiled, out_of_reach, refusal_fits, CompileError, Matcher, Searcher};
use crate::text::{contains_text, lower};

verus! {

/// How far a run has come: items done, and items to do (at least 1, so that a
/// fraction can always be taken).
#[derive(Clone, Copy, Debug, PartialEq, Eq, Structural)]
pub struct ProgressState {
    pub scanned: usize,
    pub total: usize,
}

impl ProgressState {
    /// No more is done than there is to do, and there is at least 1 to do.
    pub open spec fn wf(&self) -> bool {
        self.scanned <= self.total && self.total >= 1
    }

    /// The progress of a run over `len` items that has not begun.
    pub fn start(len: usize) -> (p: ProgressState)
        ensures
            p.scanned == 0,
            p.total == if len == 0 { 1 } else { len },
            p.wf(),
    {
        ProgressState { scanned: 0, total: if len == 0 { 1 } else { len } }
    }

    /// Counts `n` more items as done, never past the total and never
    /// backwards.
    pub fn advance(&mut self, n: usize)
        requires
            old(self).wf(),
        ensures
            final(self).total == old(self).total,
            final(self).scanned == if old(self).scanned + n <= old(self).total {
                old(self).scanned + n
            } else {
                old(self).total as int
            },
            final(self).scanned >= old(self).scanned,
            final(self).wf(),
    {
        if n <= self.total - self.scanned {
            self.scanned = self.scanned + n;
        } else {
            self.scanned = self.total;
        }
    }

    /// Sets the count to the exact number of items done when the run ends.
    pub fn complete(&mut self, done: usize)
        requires
            old(self).wf(),
            old(self).scanned <= done <= old(self).total,
        ensures
            final(self).total == old(self).total,
            final(self).scanned == done,
            final(self).scanned >= old(self).scanned,
            final(self).wf(),
    {
        self.scanned = done;
    }
}

/// The end of the stretch of at most `size` items that begins at `start` in a
/// list of `len` items.
pub fn stretch_end(start: usize, len: usize, size: usize) -> (end: usize)
    requires
        start <= len,
    ensures
        end == if start + size <= len { start + size } else { len as int },
        start <= end <= len,
{
    if size <= len - start {
        start + size
    } else {
        len
    }
}

/// Scans a chunk in order, in batches of `PROGRESS_BATCH` entries, and counts
/// each batch as done when it has been scanned.
pub fn scan_in_batches(searcher: &Searcher, chunk: &[Username], progress: &mut ProgressState) -> (out:
    Vec<Match>)
    requires
        searcher.wf(),
        old(progress).wf(),
        old(progress).scanned + chunk.len() <= old(progress).total,
    ensures
        match_views(out@) == found(searcher@, user_views(chunk@)),
        final(progress).total == old(progress).total,
        final(progress).scanned == old(progress).scanned + chunk.len(),
{
    let ghost users = user_views(chunk@);
    let mut out: Vec<Match> = Vec::new();
    let mut start: usize = 0;
    while start < chunk.len()
        invariant
            start <= chunk.len(),
            searcher.wf(),
            users == user_views(chunk@),
            progress.wf(),
            progress.total == old(progress).total,
            progress.scanned == old(progress).scanned + start,
            old(progress).scanned + chunk.len() <= old(progress).total,
            match_views(out@) == found(searcher@, users.subrange(0, start as int)),
        decreases chunk.len() - start,
    {
        let end = stretch_end(start, chunk.len(), PROGRESS_BATCH);
        let batch = slice_subrange(chunk, start, end);
        let mut part = scan_chunk(searcher, batch);
        proof {
            let done = users.subrange(0, start as int);
            let now = users.subrange(start as int, end as int);
            assert(user_views(batch@) =~= now);
            assert(done + now =~= users.subrange(0, end as int));
            lemma_found_concat(searcher@, done, now);
            assert(match_views(out@ + part@) =~= match_views(out@) + match_views(part@));
        }
        out.append(&mut part);
        progress.advance(end - start);
        start = end;
    }
    assert(users.subrange(0, chunk.len() as int) =~= users);
    out
}

/// Scans the whole corpus chunk by chunk, in corpus order, and gathers the
/// results of the chunks. What is found does not depend on the chunk size.
pub fn scan_all(searcher: &Searcher, users: &[Username], chunk_size: usize, progress: &mut ProgressState) -> (out:
    Vec<Match>)
    requires
        searcher.wf(),
        chunk_size > 0,
        old(progress).wf(),
        old(progress).scanned + users.len() <= old(progress).total,
    ensures
        match_views(out@) == found(searcher@, user_views(users@)),
        final(progress).total == old(progress).total,
        final(progress).scanned == old(progress).scanned + users.len(),
{
    let ghost all = user_views(users@);
    let mut out: Vec<Match> = Vec::new();
    let mut start: usize = 0;
    while start < users.len()
        invariant
            start <= users.len(),
            chunk_size > 0,
            searcher.wf(),
            all == user_views(users@),
            progress.wf(),
            progress.total == old(progress).total,
            progress.scanned == old(progress).scanned + start,
            old(progress).scanned + users.len() <= old(progress).total,
            match_views(out@) == found(searcher@, all.subrange(0, start as int)),
        decreases users.len() - start,
    {
        let end = stretch_end(start, users.len(), chunk_size);
        let chunk = slice_subrange(users, start, end);
        let mut part = scan_in_batches(searcher, chunk, progress);
        proof {
            let done = all.subrange(0, start as int);
            let now = all.subrange(start as int, end as int);
            assert(user_views(chunk@) =~= now);
            assert(done + now =~= all.subrange(0, end as int));
            lemma_found_concat(searcher@, done, now);
            assert(match_views(out@ + part@) =~= match_views(out@) + match_views(part@));
        }
        out.append(&mut part);
        start = end;
    }
    assert(all.subrange(0, users.len() as int) =~= all);
    out
}

/// The fewest bytes of a pattern that a search is run for.
pub const MIN_PATTERN_LEN: usize = 3;

/// The pattern has too few bytes for a search.
pub open spec fn too_short(pattern: Seq<char>) -> bool {
    encode_utf8(pattern).len() < MIN_PATTERN_LEN
}

/// Prepares a search: a pattern that is too short calls for none and is not
/// even compiled; any other pattern is compiled, or refused.
pub fn prepare(pattern: &str, mode: SearchMode, settings: Option<LevenshteinSettings>) -> (r: Result<
    Option<Searcher>,
    CompileError,
>)
    ensures
        too_short(pattern@) ==> r is Ok && r->Ok_0 is None,
        !too_short(pattern@) ==> match compiled(pattern@, mode, settings) {
            Some(m) => r is Ok && r->Ok_0 is Some && r->Ok_0->Some_0@ == m && r->Ok_0->Some_0.wf(),
            None => r is Err && refusal_fits(r->Err_0, mode, settings),
        },
{
    if pattern.as_bytes().len() < MIN_PATTERN_LEN {
        return Ok(None);
    }
    match Searcher::compile(pattern, mode, settings) {
        Ok(searcher) => Ok(Some(searcher)),
        Err(e) => Err(e),
    }
}

/// The results that a finished search shows: what the matcher finds in the
/// corpus, ranked by score in an edit-distance search and in corpus order
/// otherwise.
pub open spec fn shown(m: Matcher, mode: SearchMode, users: Seq<UsernameView>) -> Seq<MatchView> {
    if mode == SearchMode::Levenshtein {
        ranked(RankBy::Score, found(m, users))
    } else {
        found(m, users)
    }
}

/// What a search request comes to: `None` where the pattern is refused, no
/// results for a pattern of fewer than three bytes, else the results shown.
pub open spec fn search_result(
    users: Seq<UsernameView>,
    pattern: Seq<char>,
    mode: SearchMode,
    settings: Option<LevenshteinSettings>,
) -> Option<Seq<MatchView>> {
    if too_short(pattern) {
        Some(Seq::empty())
    } else {
        match compiled(pattern, mode, settings) {
            Some(m) => Some(shown(m, mode, users)),
            None => None,
        }
    }
}

/// A plain search of a pattern of three bytes or more finds an entry exactly
/// when its key contains the lower-case pattern.
pub proof fn law_plain_search(
    users: Seq<UsernameView>,
    pattern: Seq<char>,
    settings: Option<LevenshteinSettings>,
    i: int,
)
    requires
        !too_short(pattern),
        0 <= i < users.len(),
    ensures
        search_result(users, pattern, SearchMode::Plain, settings) is Some,
        search_result(users, pattern, SearchMode::Plain, settings)->0.contains(hit(users[i], 0))
            <==> contains_text(users[i].id, lower(pattern)),
{
    law_plain_membership(lower(pattern), users, i);
}

/// An edit-distance search that is not refused finds an entry with score `k`
/// exactly when its key is within reach of the lower-case pattern and the
/// distance between that pattern and the whole key is `k`, within the
/// threshold.
pub proof fn law_approximate_search(
    users: Seq<UsernameView>,
    pattern: Seq<char>,
    lev: LevenshteinSettings,
    i: int,
    k: u32,
)
    requires
        !too_short(pattern),
        compiled(pattern, SearchMode::Levenshtein, Some(lev)) is Some,
        0 <= i < users.len(),
    ensures
        search_result(users, pattern, SearchMode::Levenshtein, Some(lev)) is Some,
        search_result(users, pattern, SearchMode::Levenshtein, Some(lev))->0.contains(hit(users[i], k))
            <==> (!out_of_reach(
            encode_utf8(lower(pattern)).len(),
            encode_utf8(users[i].id).len(),
            lev.max_k,
        ) && bounded_distance(
            encode_utf8(lower(pattern)),
            encode_utf8(users[i].id),
            lev.max_k,
            lev.mismatch_cost,
            lev.gap_cost,
            lev.swap_cost,
        ) == Some(k)),
{
    broadcast use vstd::seq_lib::group_to_multiset_ensures;

    let m = Matcher::Levenshtein(lower(pattern), lev);
    law_approximate_membership(lower(pattern), lev, users, i, k);
    lemma_ranked(RankBy::Score, found(m, users));
    let h = hit(users[i], k);
    assert(ranked(RankBy::Score, found(m, users)).contains(h) <==> found(m, users).contains(h)) by {
        assert(ranked(RankBy::Score, found(m, users)).to_multiset().count(h) == found(
            m,
            users,
        ).to_multiset().count(h));
    }
}

/// What a search finds does not depend on where the corpus is cut into
/// chunks, nor on the order in which the chunks hand in their results: every
/// cut gives the same results in corpus order, and either order of arrival
/// gives the same results as often.
pub proof fn law_chunking(m: Matcher, users: Seq<UsernameView>, cut: int)
    requires
        0 <= cut <= users.len(),
    ensures
        found(m, users.subrange(0, cut)) + found(m, users.subrange(cut, users.len() as int)) == found(
            m,
            users,
        ),
        (found(m, users.subrange(cut, users.len() as int)) + found(
            m,
            users.subrange(0, cut),
        )).to_multiset() =~= found(m, users).to_multiset(),
{
    let a = users.subrange(0, cut);
    let b = users.subrange(cut, users.len() as int);
    assert(a + b =~= users);
    lemma_found_concat(m, a, b);
    lemma_arrival_order(m, a, b);
}

/// Where two chunks hand in their results in the other order, ranking by
/// score still gives the same results as often, lowest score first: only
/// results of one score can then stand in another order.
pub proof fn law_ranked_arrival(m: Matcher, a: Seq<UsernameView>, b: Seq<UsernameView>)
    ensures
        ranked(RankBy::Score, found(m, b) + found(m, a)).to_multiset() =~= ranked(
            RankBy::Score,
            found(m, a + b),
        ).to_multiset(),
        ordered(RankBy::Score, ranked(RankBy::Score, found(m, b) + found(m, a))),
        ordered(RankBy::Score, ranked(RankBy::Score, found(m, a + b))),
{
    lemma_arrival_order(m, a, b);
    lemma_ranked(RankBy::Score, found(m, b) + found(m, a));
    lemma_ranked(RankBy::Score, found(m, a + b));
}

/// Searches a corpus: compiles the pattern, scans every chunk, and ranks the
/// results. A pattern of fewer than three bytes gives no results and is not
/// even compiled.
pub fn search(
    users: &[Username],
    pattern: &str,
    mode: SearchMode,
    settings: Option<LevenshteinSettings>,
    chunk_size: usize,
) -> (r: Result<Vec<Match>, CompileError>)
    requires
        chunk_size > 0,
    ensures
        match search_result(user_views(users@), pattern@, mode, settings) {
            Some(results) => r is Ok && match_views(r->Ok_0@) == results,
            None => r is Err && refusal_fits(r->Err_0, mode, settings),
        },
{
    match prepare(pattern, mode, settings) {
        Err(e) => Err(e),
        Ok(None) => {
            let none: Vec<Match> = Vec::new();
            assert(match_views(none@) =~= Seq::empty());
            Ok(none)
        },
        Ok(Some(searcher)) => {
            let mut progress = ProgressState::start(users.len());
            let mut results = scan_all(&searcher, users, chunk_size, &mut progress);
            if mode == SearchMode::Levenshtein {
                rank(&mut results, RankBy::Score);
            }
            Ok(results)
        },
    }
}

/// A loaded corpus with the state of the search over it.
pub struct LoadedState {
    pub pattern: String,
    pub users: Arc<Vec<Username>>,
    pub results: Vec<Match>,
    pub processing: bool,
    pub page: usize,
    pub progress: ProgressState,
}

impl LoadedState {
    /// The session over a freshly loaded corpus: no pattern, no results,
    /// nothing running.
    pub fn new(users: Vec<Username>) -> (s: LoadedState)
        ensures
            *s.users == users,
            s.pattern@.len() == 0,
            s.results@.len() == 0,
            !s.processing,
            s.page == 0,
            s.progress == (ProgressState { scanned: 0, total: 1 }),
    {
        LoadedState {
            pattern: String::new(),
            users: Arc::new(users),
            results: Vec::new(),
            processing: false,
            page: 0,
            progress: ProgressState { scanned: 0, total: 1 },
        }
    }

    /// Opens a search for the session's pattern. The old results and the page
    /// are dropped in any case. A pattern of fewer than three bytes ends
    /// there: nothing is compiled and nothing is marked as running. A refused
    /// pattern ends there too, with the refusal. Otherwise the session is
    /// marked as running with no progress yet, and the searcher to scan with
    /// is handed out.
    pub fn begin_search(&mut self, mode: SearchMode, settings: Option<LevenshteinSettings>) -> (r: Result<
        Option<Searcher>,
        CompileError,
    >)
        ensures
            final(self).pattern == old(self).pattern,
            final(self).users == old(self).users,
            final(self).results@.len() == 0,
            final(self).page == 0,
            if too_short(old(self).pattern@) {
                &&& r is Ok
                &&& r->Ok_0 is None
                &&& final(self).processing == old(self).processing
                &&& final(self).progress == old(self).progress
            } else {
                match compiled(old(self).pattern@, mode, settings) {
                    None => {
                        &&& r is Err
                        &&& refusal_fits(r->Err_0, mode, settings)
                        &&& final(self).processing == old(self).processing
                        &&& final(self).progress == old(self).progress
                    },
                    Some(m) => {
                        &&& r is Ok
                        &&& r->Ok_0 is Some
                        &&& r->Ok_0->Some_0@ == m
                        &&& r->Ok_0->Some_0.wf()
                        &&& final(self).processing
                        &&& final(self).progress.scanned == 0
                        &&& final(self).progress.total == if old(self).users.len() == 0 {
                            1
                        } else {
                            old(self).users.len() as int
                        }
                    },
                }
            },
    {
        self.page = 0;
        self.results = Vec::new();
        match prepare(self.pattern.as_str(), mode, settings) {
            Err(e) => Err(e),
            Ok(None) => Ok(None),
            Ok(Some(searcher)) => {
                self.processing = true;
                self.progress = ProgressState::start(self.users.len());
                Ok(Some(searcher))
            },
        }
    }

    /// Takes in the results of one chunk.
    pub fn flush(&mut self, part: Vec<Match>)
        ensures
            final(self).results@ == old(self).results@ + part@,
            final(self).pattern == old(self).pattern,
            final(self).users == old(self).users,
            final(self).processing == old(self).processing,
            final(self).page == old(self).page,
            final(self).progress == old(self).progress,
    {
        let mut part = part;
        self.results.append(&mut part);
    }

    /// Closes a search: an edit-distance search has its results ranked by
    /// score, the progress is set to the size of the corpus, and the session
    /// is no longer marked as running.
    pub fn finish_search(&mut self, mode: SearchMode)
        requires
            old(self).progress.wf(),
            old(self).progress.scanned <= old(self).users.len() <= old(self).progress.total,
        ensures
            final(self).pattern == old(self).pattern,
            final(self).users == old(self).users,
            final(self).page == old(self).page,
            !final(self).processing,
            final(self).progress.total == old(self).progress.total,
            final(self).progress.scanned == old(self).users.len(),
            final(self).progress.scanned >= old(self).progress.scanned,
            match_views(final(self).results@) == if mode == SearchMode::Levenshtein {
                ranked(RankBy::Score, match_views(old(self).results@))
            } else {
                match_views(old(self).results@)
            },
    {
        if mode == SearchMode::Levenshtein {
            rank(&mut self.results, RankBy::Score);
        }
        self.progress.complete(self.users.len());
        self.processing = false;
    }

    /// Runs a whole search over the session's corpus, one chunk after the
    /// other.
    pub fn search(&mut self, mode: SearchMode, settings: Option<LevenshteinSettings>, chunk_size: usize) -> (r:
        Result<(), CompileError>)
        requires
            chunk_size > 0,
        ensures
            final(self).pattern == old(self).pattern,
            final(self).users == old(self).users,
            final(self).page == 0,
            match search_result(user_views(old(self).users@), old(self).pattern@, mode, settings) {
                Some(results) => r is Ok && match_views(final(self).results@) == results,
                None => r is Err && refusal_fits(r->Err_0, mode, settings) && final(self).results@.len()
                    == 0,
            },
            too_short(old(self).pattern@) || compiled(
                old(self).pattern@,
                mode,
                settings,
            ) is None ==> final(self).processing == old(self).processing && final(self).progress
                == old(self).progress,
            !too_short(old(self).pattern@) && compiled(
                old(self).pattern@,
                mode,
                settings,
            ) is Some ==> {
                &&& !final(self).processing
                &&& final(self).progress.scanned == old(self).users.len()
                &&& final(self).progress.total == if old(self).users.len() == 0 {
                    1
                } else {
                    old(self).users.len() as int
                }
                &&& old(self).users.len() > 0 ==> final(self).progress.scanned
                    == final(self).progress.total
            },
    {
        match self.begin_search(mode, settings) {
            Err(e) => Err(e),
            Ok(None) => {
                assert(match_views(self.results@) =~= Seq::empty());
                Ok(())
            },
            Ok(Some(searcher)) => {
                let part = scan_all(&searcher, self.users.as_slice(), chunk_size, &mut self.progress);
                assert(self.results@ + part@ =~= part@);
                self.flush(part);
                self.finish_search(mode);
                Ok(())
            },
        }
    }

    /// Opens a pass of asking for information about the leading results: the
    /// session is marked as running and shows the progress of the pass.
    pub fn begin_fetch(&mut self) -> (pass: FetchPass)
        ensures
            pass.wf(),
            pass.names.len() == if old(self).results.len() < FETCH_LIMIT {
                old(self).results.len()
            } else {
                FETCH_LIMIT
            },
            forall|i: int|
                0 <= i < pass.names.len() ==> (#[trigger] pass.names[i])@ == old(self).results[i].name@,
            pass.received@.len() == 0,
            pass.sent == 0,
            !pass.failed,
            final(self).processing,
            final(self).progress == pass.progress,
            final(self).progress.scanned == 0,
            final(self).pattern == old(self).pattern,
            final(self).users == old(self).users,
            final(self).results == old(self).results,
            final(self).page == old(self).page,
    {
        let pass = FetchPass::begin(&self.results);
        self.processing = true;
        self.progress = pass.progress;
        pass
    }

    /// Shows how far a pass or a run has come.
    pub fn show_progress(&mut self, progress: ProgressState)
        ensures
            final(self).progress == progress,
            final(self).processing == old(self).processing,
            final(self).pattern == old(self).pattern,
            final(self).users == old(self).users,
            final(self).results == old(self).results,
            final(self).page == old(self).page,
    {
        self.progress = progress;
    }

    /// Closes a pass: what came back is taken into the results, and the
    /// session is no longer marked as running.
    pub fn finish_fetch(&mut self, pass: &FetchPass, hide_closed: bool)
        ensures
            match_views(final(self).results@) == enrichment_outcome(
                match_views(old(self).results@),
                api_views(pass.received@),
                hide_closed,
            ),
            !final(self).processing,
            final(self).progress == pass.progress,
            final(self).pattern == old(self).pattern,
            final(self).users == old(self).users,
            final(self).page == old(self).page,
    {
        apply_enrichment(&mut self.results, &pass.received, hide_closed);
        self.progress = pass.progress;
        self.processing = false;
    }

    /// Opens the closing of the accounts shown. Where it is refused nothing
    /// changes; else the session is marked as running and shows the progress
    /// of the run.
    pub fn begin_close(&mut self) -> (r: Result<CloseRun, ActionError>)
        ensures
            final(self).pattern == old(self).pattern,
            final(self).users == old(self).users,
            final(self).results == old(self).results,
            final(self).page == old(self).page,
            old(self).results.len() > MAX_CLOSE ==> r == Err::<CloseRun, ActionError>(
                ActionError::TooMany,
            ) && final(self).processing == old(self).processing
                && final(self).progress == old(self).progress,
            old(self).results.len() <= MAX_CLOSE ==> {
                &&& r is Ok
                &&& r->Ok_0.wf()
                &&& texts(r->Ok_0.names@) == enabled_names(match_views(old(self).results@))
                &&& r->Ok_0.calls == 0
                &&& r->Ok_0.closed == 0
                &&& !r->Ok_0.failed
                &&& final(self).processing
                &&& final(self).progress == r->Ok_0.progress
            },
    {
        match CloseRun::plan(&self.results) {
            Err(e) => Err(e),
            Ok(run) => {
                self.processing = true;
                self.progress = run.progress;
                Ok(run)
            },
        }
    }

    /// Closes a run of closing accounts: the session shows how many were
    /// closed and is no longer marked as running.
    pub fn finish_close(&mut self, run: &CloseRun)
        ensures
            !final(self).processing,
            final(self).progress == run.progress,
            final(self).pattern == old(self).pattern,
            final(self).users == old(self).users,
            final(self).results == old(self).results,
            final(self).page == old(self).page,
    {
        self.progress = run.progress;
        self.processing = false;
    }
}

} // verus!

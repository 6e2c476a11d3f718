//! Closing the accounts that are shown, one call at a time.

use vstd::prelude::*;
use crate::model::{match_views, Match, MatchView};
use crate::session::ProgressState;

verus! {

/// The largest number of shown results for which accounts may be closed in
/// one go.
pub const MAX_CLOSE: usize = 250;

/// The pause between two calls, in milliseconds.
pub const CLOSE_DELAY_MS: u64 = 100;

/// Why accounts are not closed.
#[derive(Clone, Copy, Debug, PartialEq, Eq, Structural)]
pub enum ActionError {
    /// More results are shown than may be closed in one go.
    TooMany,
}

/// The names of the enabled results, in order.
pub open spec fn enabled_names(results: Seq<MatchView>) -> Seq<Seq<char>>
    decreases results.len(),
{
    if results.len() == 0 {
        Seq::empty()
    } else if results.last().enabled {
        enabled_names(results.drop_last()).push(results.last().name)
    } else {
        enabled_names(results.drop_last())
    }
}

/// The texts of a list of strings, in order.
pub open spec fn texts(names: Seq<String>) -> Seq<Seq<char>> {
    names.map_values(|s: String| s@)
}

/// The run of one bulk action: the names to act on, how many calls were made,
/// how many of them succeeded, and whether one failed.
pub struct CloseRun {
    pub names: Vec<String>,
    pub calls: usize,
    pub closed: usize,
    pub failed: bool,
    pub progress: ProgressState,
}

impl CloseRun {
    /// Every call but a failed last one succeeded, no name had more than
    /// one call, and the progress shows the calls that succeeded.
    pub open spec fn wf(&self) -> bool {
        &&& self.calls == self.closed + if self.failed { 1int } else { 0int }
        &&& self.calls <= self.names.len()
        &&& self.names.len() <= MAX_CLOSE
        &&& self.progress.scanned == self.closed
        &&& self.progress.total == if self.names.len() == 0 { 1 } else { self.names.len() }
    }

    /// The position of the name to act on next: the name after those that
    /// had their call. There is none once a call failed or every name had its
    /// call.
    pub open spec fn spec_next(&self) -> Option<usize> {
        if self.failed || self.calls >= self.names.len() {
            None
        } else {
            Some(self.calls)
        }
    }

    /// Plans the closing of the accounts shown. With more than `MAX_CLOSE`
    /// results the plan is refused; else it holds the names of the enabled
    /// results, with no call made yet.
    pub fn plan(results: &Vec<Match>) -> (r: Result<CloseRun, ActionError>)
        ensures
            results.len() > MAX_CLOSE ==> r == Err::<CloseRun, ActionError>(ActionError::TooMany),
            results.len() <= MAX_CLOSE ==> {
                &&& r is Ok
                &&& r->Ok_0.wf()
                &&& texts(r->Ok_0.names@) == enabled_names(match_views(results@))
                &&& r->Ok_0.calls == 0
                &&& r->Ok_0.closed == 0
                &&& !r->Ok_0.failed
            },
    {
        if results.len() > MAX_CLOSE {
            return Err(ActionError::TooMany);
        }
        let ghost views = match_views(results@);
        let mut names: Vec<String> = Vec::new();
        let mut i: usize = 0;
        while i < results.len()
            invariant
                i <= results.len() <= MAX_CLOSE,
                views == match_views(results@),
                texts(names@) == enabled_names(views.subrange(0, i as int)),
                names.len() <= i,
            decreases results.len() - i,
        {
            let ghost before = texts(names@);
            proof {
                let next = views.subrange(0, i + 1);
                assert(next.drop_last() =~= views.subrange(0, i as int));
                assert(next.last() == results[i as int]@);
            }
            if results[i].enabled {
                names.push(results[i].name.clone());
                assert(texts(names@) =~= before.push(results[i as int].name@));
            }
            i += 1;
        }
        assert(views.subrange(0, results.len() as int) =~= views);
        let progress = ProgressState::start(names.len());
        Ok(CloseRun { names, calls: 0, closed: 0, failed: false, progress })
    }

    /// The position of the name to act on next, if there is one.
    pub fn next(&self) -> (r: Option<usize>)
        requires
            self.wf(),
        ensures
            r == self.spec_next(),
            r matches Some(i) ==> i < self.names.len(),
    {
        if self.failed || self.calls >= self.names.len() {
            None
        } else {
            Some(self.calls)
        }
    }

    /// Notes how the call for the next name ended. A success is counted and
    /// the run moves on to the name after it. A failure ends the run: the
    /// count stays at the calls that succeeded before it.
    pub fn record(&mut self, succeeded: bool)
        requires
            old(self).wf(),
            old(self).spec_next() is Some,
        ensures
            final(self).wf(),
            final(self).names == old(self).names,
            final(self).calls == old(self).calls + 1,
            succeeded ==> final(self).closed == old(self).closed + 1 && !final(self).failed,
            !succeeded ==> final(self).closed == old(self).closed && final(self).failed
                && final(self).spec_next() is None,
            final(self).progress.scanned >= old(self).progress.scanned,
    {
        self.calls = self.calls + 1;
        if succeeded {
            self.closed = self.closed + 1;
            self.progress.advance(1);
        } else {
            self.failed = true;
        }
    }

    /// The position of the name whose call failed, if one did.
    pub fn failed_at(&self) -> (r: Option<usize>)
        requires
            self.wf(),
        ensures
            r == if self.failed { Some(self.closed) } else { None },
            r matches Some(i) ==> i < self.names.len(),
    {
        if self.failed {
            Some(self.closed)
        } else {
            None
        }
    }
}

/// In every state of a run no name has had more than one call, and a run
/// that failed makes no further call: its count of closed accounts stays at
/// the calls that succeeded before the failure.
pub proof fn law_run_is_bounded(run: CloseRun)
    requires
        run.wf(),
    ensures
        run.calls <= run.names.len() <= MAX_CLOSE,
        run.closed <= run.calls,
        run.spec_next() matches Some(i) ==> i == run.calls && run.closed == run.calls,
        run.failed ==> run.spec_next() is None && run.closed == run.calls - 1,
        run.progress.scanned == run.closed,
{
}

} // verus!

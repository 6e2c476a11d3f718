//! Loading a corpus: from the lines of a file to the session that searches
//! it.

use vstd::prelude::*;
use crate::model::{user_views, Username, UsernameView};
use crate::session::LoadedState;
use crate::text::lower;

verus! {

/// The corpus that a sequence of lines gives: one entry for each line that is
/// not empty, in order, keyed by the lower-case form of the line.
pub open spec fn corpus_of(lines: Seq<Seq<char>>) -> Seq<UsernameView>
    decreases lines.len(),
{
    if lines.len() == 0 {
        Seq::empty()
    } else if lines.last().len() == 0 {
        corpus_of(lines.drop_last())
    } else {
        corpus_of(lines.drop_last()).push(UsernameView { id: lower(lines.last()), name: lines.last() })
    }
}

/// The texts of a list of lines, in order.
pub open spec fn line_texts(lines: Seq<String>) -> Seq<Seq<char>> {
    lines.map_values(|s: String| s@)
}

/// Builds the corpus from the lines of a file. Empty lines are passed over.
pub fn read_names(lines: Vec<String>) -> (users: Vec<Username>)
    ensures
        user_views(users@) == corpus_of(line_texts(lines@)),
        forall|i: int| 0 <= i < users.len() ==> (#[trigger] users[i]).wf(),
{
    let ghost texts = line_texts(lines@);
    let mut users: Vec<Username> = Vec::new();
    let mut i: usize = 0;
    while i < lines.len()
        invariant
            i <= lines.len(),
            texts == line_texts(lines@),
            user_views(users@) == corpus_of(texts.subrange(0, i as int)),
            forall|k: int| 0 <= k < users.len() ==> (#[trigger] users[k]).wf(),
        decreases lines.len() - i,
    {
        let ghost before = user_views(users@);
        proof {
            let next = texts.subrange(0, i + 1);
            assert(next.drop_last() =~= texts.subrange(0, i as int));
            assert(next.last() == lines[i as int]@);
        }
        if !lines[i].as_str().is_empty() {
            let user = Username::new(lines[i].clone());
            users.push(user);
            assert(user_views(users@) =~= before.push(
                UsernameView { id: lower(lines[i as int]@), name: lines[i as int]@ },
            ));
        }
        i += 1;
    }
    assert(texts.subrange(0, lines.len() as int) =~= texts);
    users
}

/// The state of a load that runs elsewhere: how far it is, in thousandths of
/// the file, whether it has ended, and what it gave.
pub struct LoadingState {
    pub progress: u32,
    pub done: bool,
    pub result: Option<Result<Vec<Username>, String>>,
}

/// The thousandths of `size` that `read` comes to, at most 1000; a file of no
/// size counts as read.
pub open spec fn thousandths(read: u64, size: u64) -> int {
    if size == 0 || read >= size {
        1000
    } else {
        read * 1000 / size as int
    }
}

/// The part of a load that is under way.
#[derive(Clone, Copy, Debug, PartialEq, Eq, Structural)]
pub enum LoadStage {
    /// Reading a file that is not encrypted: the whole of the load.
    Whole,
    /// Reading and decrypting an encrypted file: the first half of the load,
    /// or its first quarter where the contents are compressed.
    Decrypt { compressed: bool },
    /// Decompressing the decrypted contents: the second quarter.
    Inflate,
    /// Reading the names line by line: the second half.
    Lines,
}

/// The number of lines between two reports of progress while the names of an
/// encrypted file are read.
pub const LINE_REPORT_STEP: usize = 100_000;

/// The thousandths of the whole load that are done when `read` of the `size`
/// bytes of a stage are.
pub open spec fn stage_thousandths(stage: LoadStage, read: u64, size: u64) -> int {
    match stage {
        LoadStage::Whole => thousandths(read, size),
        LoadStage::Decrypt { compressed: true } => thousandths(read, size) / 4,
        LoadStage::Decrypt { compressed: false } => thousandths(read, size) / 2,
        LoadStage::Inflate => 250 + thousandths(read, size) / 4,
        LoadStage::Lines => 500 + thousandths(read, size) / 2,
    }
}

/// Whether progress is reported after the line at position `i`.
pub fn reports_at_line(i: usize) -> (r: bool)
    ensures
        r == (i % LINE_REPORT_STEP == 0),
{
    i % LINE_REPORT_STEP == 0
}

/// An encrypted file has to hold exactly one message.
pub fn one_message(count: usize) -> (r: Result<(), usize>)
    ensures
        count == 1 ==> r is Ok,
        count != 1 ==> r == Err::<(), usize>(count),
{
    if count == 1 {
        Ok(())
    } else {
        Err(count)
    }
}

impl LoadingState {
    /// A load that has just begun.
    pub fn new() -> (s: LoadingState)
        ensures
            s.progress == 0,
            !s.done,
            s.result is None,
    {
        LoadingState { progress: 0, done: false, result: None }
    }

    /// Notes that `read` of `size` bytes have been read.
    pub fn set_progress(&mut self, read: u64, size: u64)
        ensures
            final(self).progress == thousandths(read, size),
            final(self).progress <= 1000,
            final(self).done == old(self).done,
            final(self).result == old(self).result,
    {
        if size == 0 || read >= size {
            self.progress = 1000;
        } else {
            let part: u128 = (read as u128) * 1000 / (size as u128);
            assert(part < 1000) by (nonlinear_arith)
                requires
                    part == (read as int) * 1000 / (size as int),
                    read < size,
                    size > 0,
            ;
            self.progress = part as u32;
        }
    }

    /// Notes that `read` of the `size` bytes of a stage have been dealt with.
    pub fn set_stage_progress(&mut self, stage: LoadStage, read: u64, size: u64)
        ensures
            final(self).progress == stage_thousandths(stage, read, size),
            final(self).progress <= 1000,
            final(self).done == old(self).done,
            final(self).result == old(self).result,
    {
        self.set_progress(read, size);
        let part = self.progress;
        self.progress = match stage {
            LoadStage::Whole => part,
            LoadStage::Decrypt { compressed: true } => part / 4,
            LoadStage::Decrypt { compressed: false } => part / 2,
            LoadStage::Inflate => 250 + part / 4,
            LoadStage::Lines => 500 + part / 2,
        };
    }

    /// Notes that the load has ended, with the corpus or with the reason why
    /// there is none.
    pub fn finish(&mut self, result: Result<Vec<Username>, String>)
        ensures
            final(self).done,
            final(self).result == Some(result),
            final(self).progress == old(self).progress,
    {
        self.result = Some(result);
        self.done = true;
    }
}

/// What the program is doing.
pub enum State {
    /// Waiting for a file to be picked.
    PickFile,
    /// Waiting for the password of the encrypted file at the given path.
    AskPassword(String),
    /// Loading a file.
    Loading(LoadingState),
    /// Searching a loaded corpus.
    Loaded(LoadedState),
}

impl Default for State {
    fn default() -> (s: State)
        ensures
            s is PickFile,
    {
        State::PickFile
    }
}

impl State {
    /// The state in which the given corpus is ready to be searched.
    pub fn loaded(users: Vec<Username>) -> (s: State)
        ensures
            s is Loaded,
            *s->Loaded_0.users == users,
            s->Loaded_0.pattern@.len() == 0,
            s->Loaded_0.results@.len() == 0,
            !s->Loaded_0.processing,
            s->Loaded_0.page == 0,
            s->Loaded_0.progress.scanned == 0,
            s->Loaded_0.progress.total == 1,
    {
        State::Loaded(LoadedState::new(users))
    }

    /// The state after a file was picked: an encrypted file needs its
    /// password first, any other file is loaded at once.
    pub fn picked(path: String, encrypted: bool) -> (s: State)
        ensures
            encrypted ==> s == State::AskPassword(path),
            !encrypted ==> s is Loading && s->Loading_0.progress == 0 && !s->Loading_0.done
                && s->Loading_0.result is None,
    {
        if encrypted {
            State::AskPassword(path)
        } else {
            State::Loading(LoadingState::new())
        }
    }

    /// Moves on from a load that has ended: to the loaded corpus, or back to
    /// picking a file, with the message to show. Any other state stays as it
    /// is.
    pub fn settle(self) -> (r: (State, Option<String>))
        ensures
            match self {
                State::Loading(LoadingState { done: true, result: Some(Ok(users)), .. }) => {
                    &&& r.0 is Loaded
                    &&& *r.0->Loaded_0.users == users
                    &&& r.0->Loaded_0.results@.len() == 0
                    &&& !r.0->Loaded_0.processing
                    &&& r.1 is None
                },
                State::Loading(LoadingState { done: true, result: Some(Err(message)), .. }) => {
                    r.0 is PickFile && r.1 == Some(message)
                },
                _ => r.0 == self && r.1 is None,
            },
    {
        match self {
            State::Loading(LoadingState { done: true, result: Some(Ok(users)), progress: _ }) => (
                State::loaded(users),
                None,
            ),
            State::Loading(LoadingState { done: true, result: Some(Err(message)), progress: _ }) => (
                State::PickFile,
                Some(message),
            ),
            other => (other, None),
        }
    }
}

} // verus!

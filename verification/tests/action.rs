use liusearch::action::{ActionError, CloseRun, CLOSE_DELAY_MS, MAX_CLOSE};
use liusearch::model::Match;
use liusearch::session::{LoadedState, ProgressState};

fn shown(n: usize) -> Vec<Match> {
    (0..n).map(|i| Match::from_name(&format!("User{}", i))).collect()
}

#[test]
fn bulk_action_over_the_cap_is_refused() {
    assert_eq!(MAX_CLOSE, 250);
    assert_eq!(CLOSE_DELAY_MS, 100);
    assert!(matches!(CloseRun::plan(&shown(251)), Err(ActionError::TooMany)));
    let run = CloseRun::plan(&shown(250)).unwrap();
    assert_eq!(run.names.len(), 250);
    assert_eq!(run.next(), Some(0));
}

#[test]
fn bulk_action_takes_enabled_names_only() {
    let mut results = shown(4);
    results[1].enabled = false;
    let run = CloseRun::plan(&results).unwrap();
    assert_eq!(run.names, vec!["User0", "User2", "User3"]);
    assert_eq!(run.progress, ProgressState { scanned: 0, total: 3 });
}

#[test]
fn bulk_action_calls_each_name_once() {
    let mut run = CloseRun::plan(&shown(3)).unwrap();
    let mut called = Vec::new();
    while let Some(i) = run.next() {
        called.push(run.names[i].clone());
        run.record(true);
    }
    assert_eq!(called, vec!["User0", "User1", "User2"]);
    assert_eq!(run.closed, 3);
    assert_eq!(run.progress, ProgressState { scanned: 3, total: 3 });
    assert!(!run.failed);
    assert_eq!(run.failed_at(), None);
}

#[test]
fn bulk_action_stops_at_first_failure() {
    let mut run = CloseRun::plan(&shown(5)).unwrap();
    let outcomes = [true, true, false, true, true];
    let mut calls = 0;
    while let Some(i) = run.next() {
        calls += 1;
        run.record(outcomes[i]);
    }
    assert_eq!(calls, 3);
    assert_eq!(run.closed, 2);
    assert_eq!(run.progress.scanned, 2);
    assert!(run.failed);
    assert_eq!(run.failed_at(), Some(2));
    assert_eq!(run.names[2], "User2");
    assert_eq!(run.next(), None);
}

#[test]
fn bulk_action_over_nothing() {
    let run = CloseRun::plan(&Vec::new()).unwrap();
    assert_eq!(run.next(), None);
    assert_eq!(run.progress, ProgressState { scanned: 0, total: 1 });
}

#[test]
fn session_runs_a_close_run() {
    let mut session = LoadedState::new(Vec::new());
    session.results = shown(251);
    assert!(matches!(session.begin_close(), Err(ActionError::TooMany)));
    assert!(!session.processing);
    assert_eq!(session.progress, ProgressState { scanned: 0, total: 1 });

    session.results = shown(3);
    let mut run = session.begin_close().unwrap();
    assert!(session.processing);
    assert_eq!(session.progress, ProgressState { scanned: 0, total: 3 });
    run.record(true);
    session.show_progress(run.progress);
    assert_eq!(session.progress.scanned, 1);
    run.record(false);
    session.finish_close(&run);
    assert!(!session.processing);
    assert_eq!(session.progress, ProgressState { scanned: 1, total: 3 });
    assert_eq!(session.results.len(), 3);
}

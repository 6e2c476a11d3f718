use liusearch::enrich::{apply_enrichment, fetch_names, keep_enabled, merge_info, ApiPerfs, ApiUser, FetchPass};
use liusearch::model::Match;
use liusearch::model::Username;
use liusearch::session::{LoadedState, ProgressState};

fn no_games() -> ApiPerfs {
    ApiPerfs {
        chess960: None,
        atomic: None,
        racing_kings: None,
        ultra_bullet: None,
        blitz: None,
        king_of_the_hill: None,
        bullet: None,
        correspondence: None,
        horde: None,
        classical: None,
        rapid: None,
    }
}

fn report(id: &str, seen_at: Option<i64>, disabled: bool, blitz: u32) -> ApiUser {
    let mut perfs = no_games();
    perfs.blitz = Some(blitz);
    ApiUser { id: id.to_string(), created_at: Some(100), seen_at, disabled, perfs }
}

fn shown(names: &[&str]) -> Vec<Match> {
    names.iter().map(|n| Match::from_name(n)).collect()
}

fn names(v: &[Match]) -> Vec<String> {
    v.iter().map(|m| m.name.clone()).collect()
}

#[test]
fn sum_games_adds_every_kind() {
    let perfs = ApiPerfs {
        chess960: Some(1),
        atomic: Some(2),
        racing_kings: Some(3),
        ultra_bullet: Some(4),
        blitz: Some(5),
        king_of_the_hill: Some(6),
        bullet: Some(7),
        correspondence: Some(8),
        horde: Some(9),
        classical: Some(10),
        rapid: Some(11),
    };
    assert_eq!(perfs.sum_games(), 66);
    assert_eq!(no_games().sum_games(), 0);
    let mut big = no_games();
    big.blitz = Some(u32::MAX - 1);
    big.rapid = Some(1);
    assert_eq!(big.sum_games(), u32::MAX);
    big.bullet = Some(5);
    assert_eq!(big.sum_games(), u32::MAX);
}

#[test]
fn merge_info_writes_fields_in_place() {
    let mut results = shown(&["Alice", "Bob", "Carol"]);
    let received = vec![report("carol", Some(7), true, 12), report("alice", None, false, 3)];
    merge_info(&mut results, &received);
    assert_eq!(names(&results), vec!["Alice", "Bob", "Carol"]);
    assert_eq!(results[0].games, 3);
    assert_eq!(results[0].created_at, Some(100));
    assert_eq!(results[0].seen_at, None);
    assert!(results[0].enabled);
    assert_eq!(results[1].games, 0);
    assert_eq!(results[1].created_at, None);
    assert!(results[1].enabled);
    assert_eq!(results[2].games, 12);
    assert_eq!(results[2].seen_at, Some(7));
    assert!(!results[2].enabled);
}

#[test]
fn merge_info_uses_last_report_and_first_result() {
    let mut results = shown(&["Dup", "dup", "Other"]);
    let received = vec![report("dup", Some(1), false, 1), report("unknown", Some(5), false, 5), report("dup", Some(2), true, 2)];
    merge_info(&mut results, &received);
    assert_eq!(results.len(), 3);
    assert_eq!(results[0].seen_at, Some(2));
    assert_eq!(results[0].games, 2);
    assert!(!results[0].enabled);
    assert_eq!(results[1].seen_at, None);
    assert_eq!(results[1].games, 0);
    assert!(results[1].enabled);
    assert_eq!(results[2].games, 0);
}

#[test]
fn merge_info_stops_at_the_limit() {
    let mut results: Vec<Match> = (0..1501).map(|i| Match::from_name(&format!("u{}", i))).collect();
    let received = vec![report("u1499", Some(1), false, 4), report("u1500", Some(1), false, 4)];
    merge_info(&mut results, &received);
    assert_eq!(results[1499].games, 4);
    assert_eq!(results[1500].games, 0);
    assert_eq!(results[1500].seen_at, None);
}

#[test]
fn apply_enrichment_ranks_and_hides() {
    let mut results = shown(&["Old", "Closed", "Fresh", "Unknown"]);
    let received = vec![report("old", Some(10), false, 0), report("closed", Some(30), true, 0), report("fresh", Some(20), false, 0)];
    let mut all = results.clone();
    apply_enrichment(&mut all, &received, false);
    assert_eq!(names(&all), vec!["Closed", "Fresh", "Old", "Unknown"]);
    apply_enrichment(&mut results, &received, true);
    assert_eq!(names(&results), vec!["Fresh", "Old", "Unknown"]);
}

#[test]
fn apply_enrichment_without_reports_changes_nothing() {
    let mut results = shown(&["B", "A"]);
    results[0].k = 5;
    results[1].enabled = false;
    apply_enrichment(&mut results, &Vec::new(), true);
    assert_eq!(names(&results), vec!["B", "A"]);
    assert!(!results[1].enabled);
}

#[test]
fn keep_enabled_keeps_order() {
    let mut results = shown(&["a", "b", "c", "d"]);
    results[0].enabled = false;
    results[2].enabled = false;
    assert_eq!(names(&keep_enabled(&results)), vec!["b", "d"]);
    assert!(keep_enabled(&Vec::new()).is_empty());
}

#[test]
fn fetch_names_takes_the_leading_results() {
    let results: Vec<Match> = (0..1600).map(|i| Match::from_name(&format!("U{}", i))).collect();
    let names = fetch_names(&results);
    assert_eq!(names.len(), 1500);
    assert_eq!(names[0], "U0");
    assert_eq!(names[1499], "U1499");
    assert_eq!(fetch_names(&results[..3].to_vec()), vec!["U0", "U1", "U2"]);
}

#[test]
fn fetch_pass_sends_batches_of_three_hundred() {
    let results: Vec<Match> = (0..750).map(|i| Match::from_name(&format!("u{}", i))).collect();
    let mut pass = FetchPass::begin(&results);
    assert_eq!(pass.progress, ProgressState { scanned: 0, total: 750 });
    assert_eq!(pass.next_batch(), Some((0, 300)));
    pass.record_answer(vec![report("u0", None, false, 1)]);
    assert_eq!(pass.next_batch(), Some((300, 600)));
    pass.record_answer(Vec::new());
    assert_eq!(pass.next_batch(), Some((600, 750)));
    pass.record_answer(vec![report("u700", None, false, 1)]);
    assert_eq!(pass.next_batch(), None);
    assert_eq!(pass.received.len(), 2);
    assert_eq!(pass.progress.scanned, 3);
    assert!(!pass.failed);
}

#[test]
fn fetch_pass_stops_at_a_failure_and_keeps_what_came() {
    let results: Vec<Match> = (0..700).map(|i| Match::from_name(&format!("u{}", i))).collect();
    let mut pass = FetchPass::begin(&results);
    pass.record_answer(vec![report("u5", Some(9), false, 2)]);
    assert_eq!(pass.next_batch(), Some((300, 600)));
    pass.record_failure();
    assert_eq!(pass.next_batch(), None);
    assert!(pass.failed);
    assert_eq!(pass.sent, 300);
    assert_eq!(pass.received.len(), 1);
    let mut results = results;
    apply_enrichment(&mut results, &pass.received, false);
    assert_eq!(results[0].name, "u5");
    assert_eq!(results[0].games, 2);
    assert_eq!(results.len(), 700);
}

#[test]
fn fetch_pass_over_nothing() {
    let pass = FetchPass::begin(&Vec::new());
    assert_eq!(pass.next_batch(), None);
    assert_eq!(pass.progress, ProgressState { scanned: 0, total: 1 });
}

#[test]
fn session_runs_a_fetch_pass() {
    let mut session = LoadedState::new(vec![Username::new("A".to_string())]);
    session.results = shown(&["Old", "Closed", "Fresh"]);
    let mut pass = session.begin_fetch();
    assert!(session.processing);
    assert_eq!(session.progress, ProgressState { scanned: 0, total: 3 });
    assert_eq!(pass.next_batch(), Some((0, 3)));
    pass.record_answer(vec![report("old", Some(10), false, 0), report("closed", Some(30), true, 0), report("fresh", Some(20), false, 0)]);
    session.show_progress(pass.progress);
    assert_eq!(session.progress.scanned, 1);
    assert!(session.processing);
    session.finish_fetch(&pass, true);
    assert!(!session.processing);
    assert_eq!(names(&session.results), vec!["Fresh", "Old"]);
}

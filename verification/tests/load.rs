use liusearch::clip::linked_match;
use liusearch::load::{one_message, read_names, reports_at_line, LoadStage, LoadingState, State};
use liusearch::model::Username;

#[test]
fn read_names_skips_empty_lines() {
    let lines = vec!["Magnus".to_string(), String::new(), "hikaru".to_string(), "".to_string(), "ÄB".to_string()];
    let users = read_names(lines);
    let got: Vec<(String, String)> = users.iter().map(|u| (u.id.clone(), u.name.clone())).collect();
    assert_eq!(
        got,
        vec![
            ("magnus".to_string(), "Magnus".to_string()),
            ("hikaru".to_string(), "hikaru".to_string()),
            ("Äb".to_string(), "ÄB".to_string()),
        ]
    );
    assert!(read_names(Vec::new()).is_empty());
}

#[test]
fn loading_state_counts_thousandths() {
    let mut s = LoadingState::new();
    assert_eq!(s.progress, 0);
    assert!(!s.done);
    assert!(s.result.is_none());
    s.set_progress(1, 3);
    assert_eq!(s.progress, 333);
    s.set_progress(3, 3);
    assert_eq!(s.progress, 1000);
    s.set_progress(9, 3);
    assert_eq!(s.progress, 1000);
    s.set_progress(0, 0);
    assert_eq!(s.progress, 1000);
    s.set_progress(u64::MAX - 1, u64::MAX);
    assert_eq!(s.progress, 999);
    s.finish(Err("no such file".to_string()));
    assert!(s.done);
    assert_eq!(s.progress, 999);
}

#[test]
fn state_moves_on_when_a_load_ends() {
    assert!(matches!(State::default(), State::PickFile));
    assert!(matches!(State::picked("names.txt.gpg".to_string(), true), State::AskPassword(p) if p == "names.txt.gpg"));
    assert!(matches!(State::picked("names.txt.gz".to_string(), false), State::Loading(_)));

    let mut loading = LoadingState::new();
    let (state, message) = State::Loading(LoadingState::new()).settle();
    assert!(matches!(state, State::Loading(_)));
    assert!(message.is_none());

    loading.finish(Ok(vec![Username::new("A".to_string())]));
    let (state, message) = State::Loading(loading).settle();
    assert!(message.is_none());
    match state {
        State::Loaded(s) => {
            assert_eq!(s.users.len(), 1);
            assert!(s.results.is_empty());
            assert!(!s.processing);
        }
        _ => panic!("a finished load must give a loaded corpus"),
    }

    let mut failed = LoadingState::new();
    failed.finish(Err("bad file".to_string()));
    let (state, message) = State::Loading(failed).settle();
    assert!(matches!(state, State::PickFile));
    assert_eq!(message, Some("bad file".to_string()));

    let (state, message) = State::PickFile.settle();
    assert!(matches!(state, State::PickFile));
    assert!(message.is_none());

    match State::loaded(Vec::new()) {
        State::Loaded(s) => assert_eq!((s.progress.scanned, s.progress.total, s.page), (0, 1, 0)),
        _ => panic!("loaded must give a loaded corpus"),
    }
}

fn linked(line: &str) -> Option<String> {
    linked_match(line).map(|m| m.name)
}

#[test]
fn linked_match_reads_a_path() {
    assert_eq!(linked("/DrNykterstein"), Some("DrNykterstein".to_string()));
    assert_eq!(linked("/ab"), Some("ab".to_string()));
    assert_eq!(linked("/a_b-9 some note"), Some("a_b-9".to_string()));
    assert_eq!(linked("/name\ttabbed"), Some("name".to_string()));
    assert_eq!(linked("/name\u{a0}x"), Some("name".to_string()));
    let m = linked_match("/MixedCase").unwrap();
    assert_eq!(m.id, "mixedcase");
    assert_eq!(m.k, 0);
    assert!(m.enabled);
}

#[test]
fn linked_match_reads_a_link() {
    assert_eq!(linked("https://lichess.org/@/Hikaru"), Some("Hikaru".to_string()));
    assert_eq!(linked("https://lichess.org/@/Hikaru  (blitz)"), Some("Hikaru".to_string()));
    assert_eq!(linked("https://lichess-org/@/Hikaru"), Some("Hikaru".to_string()));
}

#[test]
fn linked_match_refuses_other_lines() {
    assert_eq!(linked(""), None);
    assert_eq!(linked("/"), None);
    assert_eq!(linked("/a"), None);
    assert_eq!(linked("name"), None);
    assert_eq!(linked(" /name"), None);
    assert_eq!(linked("/name!"), None);
    assert_eq!(linked("/na.me"), None);
    assert_eq!(linked("/näme"), None);
    assert_eq!(linked("http://lichess.org/@/Hikaru"), None);
    assert_eq!(linked("https://lichess.org/@Hikaru"), None);
    assert_eq!(linked("https://lichess.org/@"), None);
    assert_eq!(linked("https://lichess\norg/@/Hikaru"), None);
    let forty = "a".repeat(40);
    assert_eq!(linked(&format!("/{}", forty)), Some(forty.clone()));
    assert_eq!(linked(&format!("/{}a", forty)), None);
    assert_eq!(linked(&format!("/{}a rest", forty)), None);
}

#[test]
fn stage_progress_maps_each_stage_to_its_share() {
    let mut s = LoadingState::new();
    s.set_stage_progress(LoadStage::Whole, 1, 4);
    assert_eq!(s.progress, 250);
    s.set_stage_progress(LoadStage::Decrypt { compressed: false }, 4, 4);
    assert_eq!(s.progress, 500);
    s.set_stage_progress(LoadStage::Decrypt { compressed: true }, 4, 4);
    assert_eq!(s.progress, 250);
    s.set_stage_progress(LoadStage::Decrypt { compressed: true }, 2, 4);
    assert_eq!(s.progress, 125);
    s.set_stage_progress(LoadStage::Inflate, 0, 4);
    assert_eq!(s.progress, 250);
    s.set_stage_progress(LoadStage::Inflate, 4, 4);
    assert_eq!(s.progress, 500);
    s.set_stage_progress(LoadStage::Lines, 1, 2);
    assert_eq!(s.progress, 750);
    s.set_stage_progress(LoadStage::Lines, 7, 2);
    assert_eq!(s.progress, 1000);
}

#[test]
fn line_reports_and_message_count() {
    assert!(reports_at_line(0));
    assert!(!reports_at_line(1));
    assert!(!reports_at_line(99_999));
    assert!(reports_at_line(100_000));
    assert!(reports_at_line(300_000));
    assert_eq!(one_message(1), Ok(()));
    assert_eq!(one_message(0), Err(0));
    assert_eq!(one_message(3), Err(3));
}

use liusearch::model::Match;
use liusearch::rank::{may_precede, rank, RankBy};

const DAY: i64 = 86_400;
const NOW: i64 = 1_700_000_000;

fn entry(name: &str, k: u32, seen_at: Option<i64>, created_at: Option<i64>, games: u32) -> Match {
    let mut m = Match::from_name(name);
    m.k = k;
    m.seen_at = seen_at;
    m.created_at = created_at;
    m.games = games;
    m
}

fn names(v: &[Match]) -> Vec<String> {
    v.iter().map(|m| m.name.clone()).collect()
}

#[test]
fn composite_rank_prefers_recently_seen() {
    let a = entry("A", 1, Some(NOW - 10 * DAY), None, 0);
    let b = entry("B", 1, Some(NOW - 2 * DAY), None, 0);
    let mut v = vec![a, b];
    rank(&mut v, RankBy::Composite);
    assert_eq!(names(&v), vec!["B", "A"]);
}

#[test]
fn composite_rank_puts_score_first() {
    let a = entry("A", 2, Some(NOW), Some(NOW), 1_000);
    let b = entry("B", 1, None, None, 0);
    let mut v = vec![a.copy(), b.copy()];
    rank(&mut v, RankBy::Composite);
    assert_eq!(names(&v), vec!["B", "A"]);
    let mut w = vec![b, a];
    rank(&mut w, RankBy::Composite);
    assert_eq!(names(&w), vec!["B", "A"]);
}

#[test]
fn composite_rank_breaks_ties_in_turn() {
    let mut v = vec![
        entry("few_games", 0, Some(5), Some(5), 1),
        entry("never_seen", 0, None, Some(9), 9),
        entry("many_games", 0, Some(5), Some(5), 7),
        entry("older_account", 0, Some(5), Some(4), 9),
        entry("seen_before_epoch", 0, Some(-5), None, 0),
        entry("no_creation", 0, Some(5), None, 9),
        entry("worse_score", 1, Some(99), Some(99), 99),
        entry("latest", 0, Some(6), None, 0),
    ];
    rank(&mut v, RankBy::Composite);
    assert_eq!(
        names(&v),
        vec![
            "latest",
            "many_games",
            "few_games",
            "older_account",
            "no_creation",
            "seen_before_epoch",
            "never_seen",
            "worse_score",
        ]
    );
}

#[test]
fn score_rank_is_stable() {
    let mut v = vec![
        entry("c2", 2, Some(1), None, 0),
        entry("a1", 1, None, None, 5),
        entry("x0", 0, None, None, 0),
        entry("b1", 1, Some(9), Some(9), 9),
        entry("d2", 2, Some(7), None, 0),
        entry("y0", 0, Some(3), None, 0),
        entry("c1", 1, None, None, 0),
    ];
    rank(&mut v, RankBy::Score);
    assert_eq!(names(&v), vec!["x0", "y0", "a1", "b1", "c1", "c2", "d2"]);
}

#[test]
fn rank_keeps_every_result() {
    let mut v: Vec<Match> = (0..1000u32).map(|i| entry(&format!("u{}", i), (i * 7919) % 13, None, None, i)).collect();
    rank(&mut v, RankBy::Score);
    assert_eq!(v.len(), 1000);
    assert!(v.windows(2).all(|w| w[0].k <= w[1].k));
    assert!(v.windows(2).all(|w| w[0].k < w[1].k || w[0].games < w[1].games));
    let mut seen: Vec<u32> = v.iter().map(|m| m.games).collect();
    seen.sort();
    assert_eq!(seen, (0..1000u32).collect::<Vec<u32>>());
    let mut empty: Vec<Match> = Vec::new();
    rank(&mut empty, RankBy::Composite);
    assert!(empty.is_empty());
}

#[test]
fn may_precede_orders_by_key() {
    let a = entry("a", 1, Some(10), None, 0);
    let b = entry("b", 1, Some(20), None, 0);
    assert!(may_precede(RankBy::Score, &a, &b));
    assert!(may_precede(RankBy::Score, &b, &a));
    assert!(!may_precede(RankBy::Composite, &a, &b));
    assert!(may_precede(RankBy::Composite, &b, &a));
    let c = entry("c", 0, None, None, 0);
    assert!(may_precede(RankBy::Composite, &c, &b));
    assert!(!may_precede(RankBy::Composite, &b, &c));
    assert!(may_precede(RankBy::Composite, &a, &a));
}

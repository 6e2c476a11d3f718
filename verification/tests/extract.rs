use liusearch::extract::{distinct_names, download_months, player_name, Meter, NameSet, ProgressReader, Report, Variant};

#[test]
fn variant_names() {
    assert_eq!(Variant::Standard.names(), ["standard"]);
    assert_eq!(
        Variant::All.names(),
        [
            "standard",
            "antichess",
            "atomic",
            "chess960",
            "horde",
            "kingOfTheHill",
            "threeCheck",
            "racingKings",
            "crazyhouse"
        ]
    );
    assert_eq!(
        Variant::Exotic.names(),
        ["antichess", "atomic", "chess960", "horde", "kingOfTheHill", "threeCheck", "racingKings", "crazyhouse"]
    );
    assert_eq!(Variant::Antichess.names(), ["antichess"]);
    assert_eq!(Variant::Atomic.names(), ["atomic"]);
    assert_eq!(Variant::Chess960.names(), ["chess960"]);
    assert_eq!(Variant::Horde.names(), ["horde"]);
    assert_eq!(Variant::Koth.names(), ["kingOfTheHill"]);
    assert_eq!(Variant::ThreeCheck.names(), ["threeCheck"]);
    assert_eq!(Variant::Racing.names(), ["racingKings"]);
    assert_eq!(Variant::Zh.names(), ["crazyhouse"]);
}

#[test]
fn progress_reader_holds_both_parts() {
    let r = ProgressReader::new(vec![1u8, 2, 3], 7usize);
    assert_eq!(r.reader, vec![1u8, 2, 3]);
    assert_eq!(r.callback, 7);
}

#[test]
fn download_months_single() {
    assert_eq!(download_months(2020, 5, None), vec![(2020, 5)]);
}

#[test]
fn download_months_within_one_year() {
    assert_eq!(download_months(2020, 3, Some((2020, 6))), vec![(2020, 3), (2020, 4), (2020, 5), (2020, 6)]);
    assert_eq!(download_months(2020, 6, Some((2020, 6))), vec![(2020, 6)]);
    assert_eq!(download_months(2020, 7, Some((2020, 6))), vec![]);
}

#[test]
fn download_months_across_years() {
    let months = download_months(2019, 11, Some((2021, 2)));
    let mut expected = vec![(2019, 11), (2019, 12)];
    expected.extend((1..=12).map(|m| (2020, m)));
    expected.extend([(2021, 1), (2021, 2)]);
    assert_eq!(months, expected);
    assert_eq!(download_months(2020, 12, Some((2021, 1))), vec![(2020, 12), (2021, 1)]);
    assert_eq!(download_months(u32::MAX, 12, Some((5, 1))), vec![(u32::MAX, 12), (5, 1)]);
}

#[test]
fn player_name_reads_between_the_quotes() {
    assert_eq!(player_name(b"[White \"DrNykterstein\"]"), Some(&b"DrNykterstein"[..]));
    assert_eq!(player_name(b"[Black \"a\"]"), Some(&b"a"[..]));
    assert_eq!(player_name(b"[White \"\"]"), Some(&b""[..]));
    assert_eq!(player_name(b"[Event \"Rated Blitz game\"]"), None);
    assert_eq!(player_name(b"[WhiteElo \"2400\"]"), None);
    assert_eq!(player_name(b"[White \"]"), None);
    assert_eq!(player_name(b"[White"), None);
    assert_eq!(player_name(b""), None);
    assert_eq!(player_name(b"1. e4 e5 2. Nf3"), None);
}

#[test]
fn meter_reports_after_each_step() {
    let mut meter = Meter::new(10_000, 1_000);
    assert_eq!(meter, Meter { length: 10_000, step: 1_000, progress: 0, next: 1_000 });
    assert_eq!(meter.record(1_000, 1), None);
    assert_eq!(meter.record(1_500, 5), Some(Report { done: 250, elapsed: 5, left: 15 }));
    assert_eq!(meter.next, 2_000);
    assert_eq!(meter.record(10, 6), Some(Report { done: 251, elapsed: 6, left: 17 }));
    assert_eq!(meter.next, 3_000);
    assert_eq!(meter.record(100, 7), None);
    assert_eq!(meter.record(8_000, 20), Some(Report { done: 1061, elapsed: 20, left: 0 }));
}

#[test]
fn meter_without_length() {
    let mut meter = Meter::new(0, 0);
    assert_eq!(meter.record(0, 3), None);
    assert_eq!(meter.record(5, 3), Some(Report { done: 1000, elapsed: 3, left: 0 }));
    let mut full = Meter::new(u64::MAX, 1);
    assert_eq!(full.record(u64::MAX, 0).map(|r| r.done), Some(1000));
    assert_eq!(full.record(1, 0).map(|r| r.done), Some(1000));
    assert_eq!(full.progress, u64::MAX);
}

fn sorted(mut names: Vec<Vec<u8>>) -> Vec<String> {
    names.sort();
    names.into_iter().map(|n| String::from_utf8(n).unwrap()).collect()
}

#[test]
fn name_set_holds_each_name_once() {
    let mut set = NameSet::new();
    for line in [
        "[Event \"Rated Blitz game\"]",
        "[White \"alice\"]",
        "[Black \"bob\"]",
        "1. e4 e5",
        "[White \"bob\"]",
        "[Black \"alice\"]",
        "[White \"Alice\"]",
        "[White \"]",
    ] {
        set.note_line(line.as_bytes());
    }
    assert_eq!(sorted(set.into_names()), vec!["Alice", "alice", "bob"]);
    assert!(NameSet::new().into_names().is_empty());
}

#[test]
fn distinct_names_of_a_record() {
    let lines: Vec<Vec<u8>> = ["[White \"x\"]", "[Black \"y\"]", "[White \"y\"]", "[Black \"x\"]", "[Result \"1-0\"]", "[White \"z\"]"]
        .iter()
        .map(|l| l.as_bytes().to_vec())
        .collect();
    assert_eq!(sorted(distinct_names(&lines)), vec!["x", "y", "z"]);
    assert!(distinct_names(&Vec::new()).is_empty());
}

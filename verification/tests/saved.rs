use liusearch::clip::linked_match;
use liusearch::model::LevenshteinSettings;
use liusearch::saved::{copy_text, toggle, Clicks, Marks};
use regex::Regex;

fn marks(obvious: bool, borderline: bool) -> Marks {
    Marks { obvious, borderline }
}

fn clicks(obvious: bool, borderline: bool) -> Clicks {
    Clicks { obvious, borderline }
}

#[test]
fn toggle_puts_a_name_on_one_list() {
    assert_eq!(toggle(marks(false, false), clicks(true, false)), marks(true, false));
    assert_eq!(toggle(marks(false, false), clicks(false, true)), marks(false, true));
    assert_eq!(toggle(marks(false, true), clicks(true, false)), marks(true, false));
    assert_eq!(toggle(marks(true, false), clicks(false, true)), marks(false, true));
}

#[test]
fn toggle_takes_a_name_off() {
    assert_eq!(toggle(marks(true, false), clicks(true, false)), marks(false, false));
    assert_eq!(toggle(marks(false, true), clicks(false, true)), marks(false, false));
    assert_eq!(toggle(marks(true, true), clicks(true, false)), marks(false, false));
}

#[test]
fn toggle_without_a_click_changes_nothing() {
    for m in [marks(false, false), marks(true, false), marks(false, true), marks(true, true)] {
        assert_eq!(toggle(m, clicks(false, false)), m);
    }
}

#[test]
fn toggle_with_both_clicks_prefers_obvious() {
    assert_eq!(toggle(marks(false, false), clicks(true, true)), marks(true, false));
    assert_eq!(toggle(marks(true, false), clicks(true, true)), marks(false, true));
}

#[test]
fn copy_text_writes_one_path_per_line() {
    assert_eq!(copy_text(&Vec::new()), "");
    assert_eq!(copy_text(&vec!["Magnus".to_string()]), "/Magnus");
    assert_eq!(
        copy_text(&vec!["Magnus".to_string(), "hikaru".to_string(), "x_y".to_string()]),
        "/Magnus\n/hikaru\n/x_y"
    );
}

#[test]
fn copied_text_reads_back() {
    let names = vec!["Magnus".to_string(), "hi-karu".to_string(), "x_9".to_string()];
    let text = copy_text(&names);
    let back: Vec<String> = text.lines().filter_map(linked_match).map(|m| m.name).collect();
    assert_eq!(back, names);
}

#[test]
fn linked_match_agrees_with_the_expression() {
    let regex = Regex::new("^(?:https://lichess.org/@)?/([a-zA-Z0-9_-]{2,40})(?:$|\\s)").unwrap();
    let forty = "b".repeat(40);
    let lines = [
        "",
        "/",
        "/a",
        "/ab",
        "/ab ",
        "/ab\tc",
        "/ab\u{a0}c",
        "/ab\u{2003}c",
        "/ab\u{200b}c",
        "/ab.c",
        "/ab/c",
        "//ab",
        "ab",
        " /ab",
        "/Ab_9-",
        "/äb",
        "/abä",
        "https://lichess.org/@/Hikaru",
        "https://lichess.org/@/Hikaru/tv",
        "https://lichess.org/@/Hikaru tv",
        "https://lichessXorg/@/Hikaru",
        "https://lichess\norg/@/Hikaru",
        "https://lichess.org/@//Hikaru",
        "https://lichess.org/@",
        "https://lichess.org/@/",
        "https://lichess.org/@/H",
        "https://lichess.org/Hikaru",
        "Https://lichess.org/@/Hikaru",
        "/ab\r",
        "/ab\u{85}",
        "/ab\u{1680}",
        "/ab\u{3000}x",
        "/ab\u{feff}",
    ];
    for line in lines.iter().map(|l| l.to_string()).chain([
        format!("/{}", forty),
        format!("/{}b", forty),
        format!("/{} x", forty),
        format!("https://lichess.org/@/{}", forty),
    ]) {
        let expected = regex.captures(&line).and_then(|c| c.get(1)).map(|m| m.as_str().to_string());
        let got = linked_match(&line).map(|m| m.name);
        assert_eq!(got, expected, "line {:?}", line);
    }
}

#[test]
fn swap_limit_is_one_below_twice_the_smaller_cost() {
    let lev = |mismatch_cost, gap_cost| LevenshteinSettings { max_k: 1, mismatch_cost, gap_cost, swap_cost: 1 };
    assert_eq!(lev(1, 1).swap_limit(), 1);
    assert_eq!(lev(3, 5).swap_limit(), 5);
    assert_eq!(lev(10, 4).swap_limit(), 7);
    assert_eq!(lev(127, 200).swap_limit(), 253);
    assert_eq!(lev(128, 200).swap_limit(), 255);
}

#[test]
fn clamped_settings_fit_the_controls() {
    let lev = |max_k, mismatch_cost, gap_cost, swap_cost| LevenshteinSettings { max_k, mismatch_cost, gap_cost, swap_cost };
    assert_eq!(lev(3, 1, 1, 1).clamped(), lev(3, 1, 1, 1));
    assert_eq!(lev(0, 0, 0, 0).clamped(), lev(1, 1, 1, 1));
    assert_eq!(lev(99, 200, 11, 255).clamped(), lev(10, 10, 10, 19));
    assert_eq!(lev(10, 10, 10, 19).clamped(), lev(10, 10, 10, 19));
    assert_eq!(lev(5, 2, 7, 9).clamped(), lev(5, 2, 7, 3));
    assert_eq!(lev(5, 7, 2, 3).clamped(), lev(5, 7, 2, 3));
    assert_eq!(lev(5, 7, 2, 4).clamped(), lev(5, 7, 2, 3));
    for settings in [lev(0, 0, 0, 0), lev(99, 200, 11, 255), lev(5, 2, 7, 9), lev(2, 2, 2, 3)] {
        assert!(settings.clamped().is_valid());
    }
}

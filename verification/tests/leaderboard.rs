use insta_kill::leaderboard::format_time;
use insta_kill::leaderboard::get_request_string;
use insta_kill::leaderboard::parse_seconds;
use insta_kill::leaderboard::post_request_string;
use insta_kill::leaderboard::rank_label;
use insta_kill::leaderboard::string_to_leaderboard;
use insta_kill::leaderboard::submission;
use insta_kill::leaderboard::LeaderboardEntry;
use insta_kill::text::chars_of;
use insta_kill::text::decimal_digits;
use insta_kill::text::string_of;

fn seconds_of(text: &str) -> u64 {
    let chars = chars_of(text);
    parse_seconds(&chars, 0, chars.len())
}

fn row(data: &str, i: usize) -> (String, String, String, String) {
    let board = string_to_leaderboard(data);
    let e = &board.0[i];
    (e.name.clone(), e.score.clone(), e.kills.clone(), e.time.clone())
}

fn entry(name: &str, score: &str, kills: &str, time: &str) -> (String, String, String, String) {
    (name.to_string(), score.to_string(), kills.to_string(), time.to_string())
}

#[test]
fn one_row_is_one_entry_with_minutes_and_seconds() {
    let data = string_to_leaderboard("bob,100,5,42.0");
    assert_eq!(data.0.len(), 1);
    assert_eq!(data.len(), 1);
    assert_eq!(data.0[0].name, "bob");
    assert_eq!(data.0[0].score, "100");
    assert_eq!(data.0[0].kills, "5");
    assert_eq!(data.0[0].time, "00:42");
}

#[test]
fn an_empty_answer_holds_no_entries() {
    assert_eq!(string_to_leaderboard("").0.len(), 0);
}

#[test]
fn rows_end_with_line_feeds_or_semicolons() {
    let data = "ann,300,9,61.5\nbob,100,5,42.0;cy,7,0,3599\n";
    let board = string_to_leaderboard(data);
    assert_eq!(board.0.len(), 3);
    assert_eq!(row(data, 0), entry("ann", "300", "9", "01:01"));
    assert_eq!(row(data, 1), entry("bob", "100", "5", "00:42"));
    assert_eq!(row(data, 2), entry("cy", "7", "0", "59:59"));
}

#[test]
fn line_feeds_at_the_end_are_dropped() {
    assert_eq!(string_to_leaderboard("bob,100,5,42.0\n\n\n").0.len(), 1);
    assert_eq!(string_to_leaderboard("bob,100,5,42.0;").0.len(), 2);
    assert_eq!(row("bob,100,5,42.0;", 1), entry("", "", "", ""));
}

#[test]
fn a_malformed_row_gives_an_empty_entry_and_the_rest_is_read() {
    let data = "bob,100,5\nann,300,9,61.5\na,b,c,d,e\n\ncy,7,0,1";
    let board = string_to_leaderboard(data);
    assert_eq!(board.0.len(), 5);
    assert_eq!(row(data, 0), entry("", "", "", ""));
    assert_eq!(row(data, 1), entry("ann", "300", "9", "01:01"));
    assert_eq!(row(data, 2), entry("", "", "", ""));
    assert_eq!(row(data, 3), entry("", "", "", ""));
    assert_eq!(row(data, 4), entry("cy", "7", "0", "00:01"));
}

#[test]
fn a_lone_line_feed_is_one_empty_entry() {
    let board = string_to_leaderboard("\n");
    assert_eq!(board.0.len(), 1);
    assert_eq!(board.0[0].name, "");
    assert_eq!(board.0[0].time, "");
}

#[test]
fn fields_may_be_empty_or_hold_any_character() {
    assert_eq!(row(",,,", 0), entry("", "", "", "00:00"));
    assert_eq!(row("j\u{fc}rgen \u{2603},1 000,-,12", 0), entry("j\u{fc}rgen \u{2603}", "1 000", "-", "00:12"));
}

#[test]
fn a_time_that_is_no_number_counts_as_zero() {
    assert_eq!(row("bob,1,2,soon", 0), entry("bob", "1", "2", "00:00"));
    assert_eq!(row("bob,1,2,", 0), entry("bob", "1", "2", "00:00"));
    assert_eq!(row("bob,1,2,-5.0", 0), entry("bob", "1", "2", "00:00"));
}

#[test]
fn whole_seconds_are_the_digits_before_the_point() {
    assert_eq!(seconds_of("42.0"), 42);
    assert_eq!(seconds_of("42"), 42);
    assert_eq!(seconds_of("42."), 42);
    assert_eq!(seconds_of("42.999"), 42);
    assert_eq!(seconds_of("+42.5"), 42);
    assert_eq!(seconds_of(".5"), 0);
    assert_eq!(seconds_of("0007"), 7);
    assert_eq!(seconds_of("-42.0"), 0);
    assert_eq!(seconds_of(""), 0);
    assert_eq!(seconds_of("."), 0);
    assert_eq!(seconds_of("+"), 0);
    assert_eq!(seconds_of("4 2"), 0);
    assert_eq!(seconds_of("42.0.1"), 0);
    assert_eq!(seconds_of("42.x"), 0);
    assert_eq!(seconds_of("4e2"), 0);
    assert_eq!(seconds_of("18446744073709551615"), u64::MAX);
    assert_eq!(seconds_of("18446744073709551616"), u64::MAX);
    assert_eq!(seconds_of("99999999999999999999999.5"), u64::MAX);
}

#[test]
fn a_field_inside_a_longer_text_is_read_by_its_bounds() {
    let chars = chars_of("bob,100,5,42.0");
    assert_eq!(parse_seconds(&chars, 10, 14), 42);
    assert_eq!(parse_seconds(&chars, 4, 7), 100);
    assert_eq!(parse_seconds(&chars, 4, 4), 0);
    assert_eq!(string_of(&chars, 0, 3), "bob");
    assert_eq!(string_of(&chars, 3, 3), "");
}

#[test]
fn format_time_pads_to_two_digits() {
    assert_eq!(format_time(0), "00:00");
    assert_eq!(format_time(9), "00:09");
    assert_eq!(format_time(42), "00:42");
    assert_eq!(format_time(60), "01:00");
    assert_eq!(format_time(61), "01:01");
    assert_eq!(format_time(3599), "59:59");
    assert_eq!(format_time(6000), "100:00");
}

#[test]
fn format_time_stops_the_minutes_at_the_largest_value() {
    assert_eq!(format_time(u64::MAX), "4294967295:15");
    assert_eq!(format_time(4294967295 * 60 + 59), "4294967295:59");
}

#[test]
fn decimal_digits_have_no_leading_zeros() {
    let text: String = decimal_digits(0).into_iter().collect();
    assert_eq!(text, "0");
    let text: String = decimal_digits(1_000_000).into_iter().collect();
    assert_eq!(text, "1000000");
    let text: String = decimal_digits(u64::MAX).into_iter().collect();
    assert_eq!(text, "18446744073709551615");
}

#[test]
fn an_entry_is_found_by_name_and_score() {
    let board = string_to_leaderboard("ann,300,9,61.5\nbob,100,5,42.0\nann,100,1,1\nbob,100,7,8");
    assert_eq!(board.find_index("bob", "100"), Some(1));
    assert_eq!(board.find_index("ann", "100"), Some(2));
    assert_eq!(board.find_index("ann", "300"), Some(0));
    assert_eq!(board.find_index("bob", "300"), None);
    assert_eq!(board.find_index("", ""), None);
    assert_eq!(string_to_leaderboard("").find_index("bob", "100"), None);
}

#[test]
fn the_default_entry_is_empty() {
    let e = LeaderboardEntry::default();
    assert_eq!(e.name, "");
    assert_eq!(e.score, "");
    assert_eq!(e.kills, "");
    assert_eq!(e.time, "");
}

#[test]
fn ranks_have_three_digits() {
    assert_eq!(rank_label(0), "001");
    assert_eq!(rank_label(6), "007");
    assert_eq!(rank_label(99), "100");
    assert_eq!(rank_label(12344), "12345");
}

#[test]
fn a_submission_is_a_row_that_reads_back() {
    let sent = submission("bob", 100, 5, 42_500_000);
    assert_eq!(sent, "bob,100,5,42.500");
    assert_eq!(submission("", 0, 0, 0), ",0,0,0.000");
    assert_eq!(submission("x", u32::MAX, 1, 1_007_000), "x,4294967295,1,1.007");
    assert_eq!(row(&sent, 0), entry("bob", "100", "5", "00:42"));
}

#[test]
fn requests_are_framed_for_the_service() {
    assert_eq!(
        get_request_string("rancic.org"),
        "GET / HTTP/1.1\r\nHost: rancic.org\r\nConnection: close\r\n\r\n"
    );
    assert_eq!(
        post_request_string("rancic.org", "bob,100,5,42.500"),
        "POST / HTTP/1.1\r\nHost: rancic.org\r\nContent-Length: 16\r\nContent-Type: text/plain\r\nConnection: close\r\n\r\nbob,100,5,42.500\r\n"
    );
    assert_eq!(
        post_request_string("h", "\u{fc}"),
        "POST / HTTP/1.1\r\nHost: h\r\nContent-Length: 2\r\nContent-Type: text/plain\r\nConnection: close\r\n\r\n\u{fc}\r\n"
    );
}

#[test]
fn only_malformed_rows_have_no_time() {
    let board = string_to_leaderboard("bob,100,5\n,,,\nann,1,2,x");
    assert!(board.0[0].is_malformed());
    assert!(!board.0[1].is_malformed());
    assert!(!board.0[2].is_malformed());
    assert!(LeaderboardEntry::default().is_malformed());
}

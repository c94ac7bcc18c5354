use lirik::lyrics::{current_line_index, lyrics_from_response, parse_lrc, LyricLine};

fn line(time_ms: u64, text: &str) -> LyricLine {
    LyricLine { time_ms, text: text.to_string() }
}

#[test]
fn lrc_round_trip_basic() {
    let lines = parse_lrc("[01:02.50]hello");
    assert_eq!(lines.len(), 1);
    assert_eq!(lines[0].time_ms, 62500);
    assert_eq!(lines[0].text, "hello");
}

#[test]
fn lrc_drops_lines_without_bracket_form() {
    let lines = parse_lrc("[01:02.50]hello\nnot a lyric line\n[01:03.00]world");
    assert_eq!(lines.len(), 2);
    assert_eq!(lines[0].text, "hello");
    assert_eq!(lines[1].time_ms, 63000);
    assert_eq!(lines[1].text, "world");
}

#[test]
fn lrc_fraction_digit_count_scales() {
    assert_eq!(parse_lrc("[00:01.5]x")[0].time_ms, 1500);
    assert_eq!(parse_lrc("[00:01.50]x")[0].time_ms, 1500);
    assert_eq!(parse_lrc("[00:01.500]x")[0].time_ms, 1500);
    assert_eq!(parse_lrc("[00:01.5000]x")[0].time_ms, 1500);
    assert_eq!(parse_lrc("[00:00.5555]x")[0].time_ms, 555);
}

#[test]
fn lrc_truncates_long_fractions_to_milliseconds() {
    assert_eq!(parse_lrc("[00:00.123456789012345678901234]x")[0].time_ms, 123);
    assert_eq!(parse_lrc("[00:00.0005]x")[0].time_ms, 0);
}

#[test]
fn lrc_trims_text() {
    let lines = parse_lrc("[00:01.00]   spaced out   ");
    assert_eq!(lines[0].text, "spaced out");
}

#[test]
fn lrc_handles_crlf_line_endings() {
    let lines = parse_lrc("[00:01.00]a\r\n[00:02.00]b\r\n");
    assert_eq!(lines.len(), 2);
    assert_eq!(lines[0].text, "a");
    assert_eq!(lines[1].text, "b");
}

#[test]
fn lrc_drops_malformed_timestamps() {
    assert!(parse_lrc("[0102.50]no colon").is_empty());
    assert!(parse_lrc("[01:0250]no dot").is_empty());
    assert!(parse_lrc("[aa:bb.cc]not digits").is_empty());
    assert!(parse_lrc("no bracket at all").is_empty());
    assert!(parse_lrc("[]empty").is_empty());
}

#[test]
fn lrc_empty_input_gives_no_lines() {
    assert!(parse_lrc("").is_empty());
}

#[test]
fn current_line_empty_gives_none() {
    assert_eq!(current_line_index(&[], 1000), None);
}

#[test]
fn current_line_before_first_gives_none() {
    let lines = vec![line(500, "a"), line(900, "b")];
    assert_eq!(current_line_index(&lines, 499), None);
}

#[test]
fn current_line_picks_greatest_reached_index() {
    let lines = vec![line(0, "a"), line(500, "b"), line(900, "c")];
    assert_eq!(current_line_index(&lines, 0), Some(0));
    assert_eq!(current_line_index(&lines, 499), Some(0));
    assert_eq!(current_line_index(&lines, 500), Some(1));
    assert_eq!(current_line_index(&lines, 899), Some(1));
    assert_eq!(current_line_index(&lines, 900), Some(2));
    assert_eq!(current_line_index(&lines, 100_000), Some(2));
}

#[test]
fn current_line_resolves_equal_timestamps_to_later_index() {
    let lines = vec![line(100, "a"), line(500, "b"), line(500, "c"), line(900, "d")];
    assert_eq!(current_line_index(&lines, 500), Some(2));
    assert_eq!(current_line_index(&lines, 700), Some(2));
}

#[test]
fn response_prefers_synced_lyrics() {
    let ly = lyrics_from_response(Some("[00:01.00]first\n[00:02.00]second"), Some("plain text"))
        .expect("lyrics expected");
    assert!(ly.synced);
    assert_eq!(ly.lines.len(), 2);
    assert_eq!(ly.lines[0].time_ms, 1000);
    assert_eq!(ly.lines[0].text, "first");
}

#[test]
fn response_falls_back_to_plain_when_synced_blob_has_no_lines() {
    let ly = lyrics_from_response(Some("nothing tagged here"), Some("line one\nline two"))
        .expect("lyrics expected");
    assert!(!ly.synced);
    assert_eq!(ly.lines.len(), 2);
    assert_eq!(ly.lines[0].time_ms, 0);
    assert_eq!(ly.lines[0].text, "line one");
    assert_eq!(ly.lines[1].text, "line two");
}

#[test]
fn response_without_any_blob_gives_none() {
    assert!(lyrics_from_response(None, None).is_none());
}

#[test]
fn response_plain_only() {
    let ly = lyrics_from_response(None, Some("only plain")).expect("lyrics expected");
    assert!(!ly.synced);
    assert_eq!(ly.lines.len(), 1);
    assert_eq!(ly.lines[0].text, "only plain");
}

#[test]
fn lrc_drops_lines_whose_time_overflows() {
    assert!(parse_lrc("[99999999999999999999:00.0]too many digits").is_empty());
    assert!(parse_lrc("[18446744073709551615:00.0]scaled past the end").is_empty());
}

#[test]
fn lrc_accepts_leading_zeros() {
    let lines = parse_lrc("[007:009.5]x");
    assert_eq!(lines[0].time_ms, 7 * 60000 + 9 * 1000 + 500);
}

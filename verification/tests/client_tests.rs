use lirik::client::{current_lyric, estimate_at, plain_view, PlainView};
use lirik::lyrics::{LyricLine, Lyrics};
use lirik::spotify::{fmt_time, NowPlaying, State};

fn make_np(progress_ms: u64, duration_ms: u64, is_playing: bool) -> NowPlaying {
    NowPlaying {
        artist: "Artist".to_string(),
        track: "Track".to_string(),
        album: "Album".to_string(),
        album_art: None,
        popularity: 42,
        explicit: false,
        spotify_url: None,
        progress_ms,
        progress: fmt_time(progress_ms),
        duration_ms,
        duration: fmt_time(duration_ms),
        is_playing,
        device: None,
        shuffle: false,
        repeat: "off".to_string(),
        context: None,
    }
}

fn synced_state(fetched_at_ms: u64) -> State {
    State {
        now_playing: Some(make_np(10_000, 200_000, true)),
        fetched_at_ms,
        lyrics: Some(Lyrics {
            synced: true,
            lines: vec![
                LyricLine { time_ms: 0, text: "first".to_string() },
                LyricLine { time_ms: 9_000, text: "second".to_string() },
                LyricLine { time_ms: 15_000, text: "third".to_string() },
            ],
        }),
    }
}

#[test]
fn fmt_time_renders_minutes_and_padded_seconds() {
    assert_eq!(fmt_time(0), "0:00");
    assert_eq!(fmt_time(65_000), "1:05");
    assert_eq!(fmt_time(59_999), "0:59");
    assert_eq!(fmt_time(3_599_000), "59:59");
    assert_eq!(fmt_time(6_000_000), "100:00");
}

#[test]
fn estimate_nothing_playing_gives_none() {
    let state = State { now_playing: None, fetched_at_ms: 1000, lyrics: None };
    assert!(estimate_at(&state, 2000).is_none());
}

#[test]
fn estimate_paused_track_is_unchanged() {
    let state =
        State { now_playing: Some(make_np(5000, 60_000, false)), fetched_at_ms: 1000, lyrics: None };
    let np = estimate_at(&state, 99_000).expect("playing record expected");
    assert_eq!(np.progress_ms, 5000);
    assert_eq!(np.progress, "0:05");
}

#[test]
fn estimate_advances_with_elapsed_time() {
    let state =
        State { now_playing: Some(make_np(5000, 60_000, true)), fetched_at_ms: 1000, lyrics: None };
    let np = estimate_at(&state, 3000).expect("playing record expected");
    assert_eq!(np.progress_ms, 7000);
    assert_eq!(np.progress, "0:07");
}

#[test]
fn estimate_never_exceeds_duration() {
    let state =
        State { now_playing: Some(make_np(59_000, 60_000, true)), fetched_at_ms: 0, lyrics: None };
    let np = estimate_at(&state, 120_000).expect("playing record expected");
    assert_eq!(np.progress_ms, 60_000);
    assert_eq!(np.duration_ms, 60_000);
}

#[test]
fn estimate_tolerates_clock_going_backwards() {
    let state =
        State { now_playing: Some(make_np(5000, 60_000, true)), fetched_at_ms: 10_000, lyrics: None };
    let np = estimate_at(&state, 4000).expect("playing record expected");
    assert_eq!(np.progress_ms, 5000);
}

#[test]
fn estimate_is_monotone_over_time() {
    let state =
        State { now_playing: Some(make_np(5000, 60_000, true)), fetched_at_ms: 1000, lyrics: None };
    let mut last = 0;
    for now in [1000u64, 2000, 30_000, 56_000, 70_000, 1_000_000] {
        let np = estimate_at(&state, now).expect("playing record expected");
        assert!(np.progress_ms >= last);
        assert!(np.progress_ms <= np.duration_ms);
        last = np.progress_ms;
    }
}

#[test]
fn current_lyric_picks_active_line() {
    let state = synced_state(0);
    let np = make_np(10_000, 200_000, true);
    assert_eq!(current_lyric(&state, &np, 0), Some("second".to_string()));
}

#[test]
fn current_lyric_applies_offset() {
    let state = synced_state(0);
    let np = make_np(10_000, 200_000, true);
    assert_eq!(current_lyric(&state, &np, 5_000), Some("third".to_string()));
    assert_eq!(current_lyric(&state, &np, -2_000), Some("first".to_string()));
}

#[test]
fn current_lyric_none_without_synced_lyrics() {
    let mut state = synced_state(0);
    let np = make_np(10_000, 200_000, true);
    state.lyrics.as_mut().unwrap().synced = false;
    assert_eq!(current_lyric(&state, &np, 0), None);
    state.lyrics = None;
    assert_eq!(current_lyric(&state, &np, 0), None);
}

#[test]
fn plain_view_lists_all_lines() {
    let state = synced_state(0);
    let np = estimate_at(&state, 0);
    match plain_view(&state, &np, false, false, 0) {
        PlainView::Lines(v) => assert_eq!(v, vec!["first", "second", "third"]),
        _ => panic!("lines expected"),
    }
}

#[test]
fn plain_view_from_current_line() {
    let state = synced_state(0);
    let np = estimate_at(&state, 0);
    match plain_view(&state, &np, true, false, 0) {
        PlainView::Lines(v) => assert_eq!(v, vec!["second", "third"]),
        _ => panic!("lines expected"),
    }
}

#[test]
fn plain_view_reversed() {
    let state = synced_state(0);
    let np = estimate_at(&state, 0);
    match plain_view(&state, &np, false, true, 0) {
        PlainView::Lines(v) => assert_eq!(v, vec!["third", "second", "first"]),
        _ => panic!("lines expected"),
    }
}

#[test]
fn plain_view_without_lyrics() {
    let state = State { now_playing: None, fetched_at_ms: 0, lyrics: None };
    assert!(matches!(plain_view(&state, &None, false, false, 0), PlainView::NoLyrics));
}

#[test]
fn plain_view_from_current_with_nothing_playing() {
    let mut state = synced_state(0);
    state.now_playing = None;
    assert!(matches!(plain_view(&state, &None, true, false, 0), PlainView::NothingPlaying));
}

#[test]
fn fmt_time_handles_the_largest_duration() {
    assert_eq!(fmt_time(u64::MAX), "307445734561825:51");
}

#[test]
fn negative_offset_clamps_at_the_first_line() {
    let state = synced_state(0);
    let np = make_np(10_000, 200_000, true);
    assert_eq!(current_lyric(&state, &np, -100_000), Some("first".to_string()));
}

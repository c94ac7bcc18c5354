use lirik::lyrics::{LyricLine, Lyrics};
use lirik::spotify::{fmt_time, NowPlaying};
use lirik::watch::{watch_start, watch_step};

fn np(artist: &str, track: &str, progress_ms: u64, is_playing: bool) -> NowPlaying {
    NowPlaying {
        artist: artist.to_string(),
        track: track.to_string(),
        album: String::new(),
        album_art: None,
        popularity: 0,
        explicit: false,
        spotify_url: None,
        progress_ms,
        progress: fmt_time(progress_ms),
        duration_ms: 200_000,
        duration: fmt_time(200_000),
        is_playing,
        device: None,
        shuffle: false,
        repeat: "off".to_string(),
        context: None,
    }
}

fn lyrics() -> Option<Lyrics> {
    Some(Lyrics {
        synced: true,
        lines: vec![
            LyricLine { time_ms: 0, text: "one".to_string() },
            LyricLine { time_ms: 5_000, text: "two".to_string() },
            LyricLine { time_ms: 9_000, text: "three".to_string() },
        ],
    })
}

#[test]
fn new_track_emits_header_and_first_line() {
    let step = watch_step(watch_start(), &Some(np("A", "T", 0, true)), &lyrics(), 0);
    assert!(step.track_changed);
    assert!(!step.emit_blank);
    assert_eq!(step.emit_line_index, Some(0));
}

#[test]
fn unchanged_line_is_not_emitted_twice() {
    let first = watch_step(watch_start(), &Some(np("A", "T", 0, true)), &lyrics(), 0);
    let second = watch_step(first.state, &Some(np("A", "T", 1_000, true)), &lyrics(), 0);
    assert!(!second.track_changed);
    assert_eq!(second.emit_line_index, None);
    let third = watch_step(second.state, &Some(np("A", "T", 5_000, true)), &lyrics(), 0);
    assert_eq!(third.emit_line_index, Some(1));
}

#[test]
fn track_change_restarts_line_tracking() {
    let first = watch_step(watch_start(), &Some(np("A", "T", 5_000, true)), &lyrics(), 0);
    assert_eq!(first.emit_line_index, Some(1));
    let second = watch_step(first.state, &Some(np("A", "U", 5_000, true)), &lyrics(), 0);
    assert!(second.track_changed);
    assert_eq!(second.emit_line_index, Some(1));
}

#[test]
fn stopping_playback_emits_one_blank() {
    let playing = watch_step(watch_start(), &Some(np("A", "T", 0, true)), &lyrics(), 0);
    let paused = watch_step(playing.state, &Some(np("A", "T", 0, false)), &lyrics(), 0);
    assert!(paused.emit_blank);
    assert_eq!(paused.emit_line_index, None);
    let still_paused = watch_step(paused.state, &Some(np("A", "T", 0, false)), &lyrics(), 0);
    assert!(!still_paused.emit_blank);
}

#[test]
fn silence_after_playback_emits_one_blank() {
    let playing = watch_step(watch_start(), &Some(np("A", "T", 0, true)), &lyrics(), 0);
    let gone = watch_step(playing.state, &None, &None, 0);
    assert!(gone.emit_blank);
    let still_gone = watch_step(gone.state, &None, &None, 0);
    assert!(!still_gone.emit_blank);
}

#[test]
fn unsynced_lyrics_stream_no_lines() {
    let plain = Some(Lyrics {
        synced: false,
        lines: vec![LyricLine { time_ms: 0, text: "text".to_string() }],
    });
    let step = watch_step(watch_start(), &Some(np("A", "T", 10_000, true)), &plain, 0);
    assert!(step.track_changed);
    assert_eq!(step.emit_line_index, None);
}

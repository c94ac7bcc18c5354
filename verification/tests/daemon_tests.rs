use lirik::daemon::{initial_state, next_snapshot, poll_decision};
use lirik::lyrics::{LyricLine, Lyrics};
use lirik::spotify::{fmt_time, NowPlaying, State};

fn np(artist: &str, track: &str) -> NowPlaying {
    NowPlaying {
        artist: artist.to_string(),
        track: track.to_string(),
        album: String::new(),
        album_art: None,
        popularity: 0,
        explicit: false,
        spotify_url: None,
        progress_ms: 0,
        progress: fmt_time(0),
        duration_ms: 1000,
        duration: fmt_time(1000),
        is_playing: true,
        device: None,
        shuffle: false,
        repeat: "off".to_string(),
        context: None,
    }
}

fn lyrics(text: &str) -> Lyrics {
    Lyrics { synced: false, lines: vec![LyricLine { time_ms: 0, text: text.to_string() }] }
}

#[test]
fn first_poll_of_a_track_fetches() {
    let d = poll_decision("", &Some(np("A", "T")));
    assert!(d.refetch);
    assert_eq!(d.track_key, "A\0T");
}

#[test]
fn same_track_twice_reuses_cached_lyrics() {
    let first = poll_decision("", &Some(np("A", "T")));
    let second = poll_decision(&first.track_key, &Some(np("A", "T")));
    assert!(!second.refetch);
}

#[test]
fn changed_artist_or_track_triggers_refetch() {
    let first = poll_decision("", &Some(np("A", "T")));
    assert!(poll_decision(&first.track_key, &Some(np("B", "T"))).refetch);
    assert!(poll_decision(&first.track_key, &Some(np("A", "U"))).refetch);
    assert!(poll_decision(&first.track_key, &None).refetch);
}

#[test]
fn nothing_playing_matches_initial_empty_key() {
    let d = poll_decision("", &None);
    assert!(!d.refetch);
    assert_eq!(d.track_key, "");
}

#[test]
fn initial_state_is_empty() {
    let s = initial_state(123);
    assert!(s.now_playing.is_none());
    assert_eq!(s.fetched_at_ms, 123);
    assert!(s.lyrics.is_none());
}

#[test]
fn snapshot_carries_cached_lyrics_without_refetch() {
    let prev = State {
        now_playing: Some(np("A", "T")),
        fetched_at_ms: 10,
        lyrics: Some(lyrics("cached")),
    };
    let next = next_snapshot(&prev, Some(np("A", "T")), false, None, 20);
    assert_eq!(next.fetched_at_ms, 20);
    assert_eq!(next.lyrics.as_ref().unwrap().lines[0].text, "cached");
}

#[test]
fn snapshot_takes_fetched_lyrics_on_refetch() {
    let prev = State {
        now_playing: Some(np("A", "T")),
        fetched_at_ms: 10,
        lyrics: Some(lyrics("cached")),
    };
    let next = next_snapshot(&prev, Some(np("B", "T")), true, Some(lyrics("fresh")), 20);
    assert_eq!(next.lyrics.as_ref().unwrap().lines[0].text, "fresh");
    let cleared = next_snapshot(&prev, None, true, None, 30);
    assert!(cleared.lyrics.is_none());
    assert!(cleared.now_playing.is_none());
}

use lirik::command::{decide_action, parse_command, Command, PlayerAction, RepeatMode};
use lirik::spotify::{fmt_time, NowPlaying, State};

fn state_with(is_playing: bool, shuffle: bool, repeat: &str) -> State {
    State {
        now_playing: Some(NowPlaying {
            artist: "A".to_string(),
            track: "T".to_string(),
            album: "L".to_string(),
            album_art: None,
            popularity: 0,
            explicit: false,
            spotify_url: None,
            progress_ms: 0,
            progress: fmt_time(0),
            duration_ms: 1000,
            duration: fmt_time(1000),
            is_playing,
            device: None,
            shuffle,
            repeat: repeat.to_string(),
            context: None,
        }),
        fetched_at_ms: 0,
        lyrics: None,
    }
}

fn empty_state() -> State {
    State { now_playing: None, fetched_at_ms: 0, lyrics: None }
}

#[test]
fn parses_simple_commands() {
    assert_eq!(parse_command("pause", None), Ok(Command::Pause));
    assert_eq!(parse_command("play", None), Ok(Command::Play));
    assert_eq!(parse_command("toggle", None), Ok(Command::Toggle));
    assert_eq!(parse_command("next", None), Ok(Command::Next));
    assert_eq!(parse_command("prev", None), Ok(Command::Prev));
    assert_eq!(parse_command("shuffle", None), Ok(Command::Shuffle));
    assert_eq!(parse_command("repeat", None), Ok(Command::Repeat));
}

#[test]
fn volume_in_range_parses() {
    assert_eq!(parse_command("volume", Some("50")), Ok(Command::Volume(50)));
    assert_eq!(parse_command("volume", Some("0")), Ok(Command::Volume(0)));
    assert_eq!(parse_command("volume", Some("100")), Ok(Command::Volume(100)));
    assert_eq!(parse_command("volume", Some("+50")), Ok(Command::Volume(50)));
}

#[test]
fn volume_out_of_range_is_rejected() {
    assert_eq!(parse_command("volume", Some("150")), Err("invalid volume (0-100)".to_string()));
    assert_eq!(parse_command("volume", Some("101")), Err("invalid volume (0-100)".to_string()));
    assert_eq!(parse_command("volume", Some("abc")), Err("invalid volume (0-100)".to_string()));
    assert_eq!(parse_command("volume", Some("-1")), Err("invalid volume (0-100)".to_string()));
    assert_eq!(parse_command("volume", None), Err("missing volume value".to_string()));
}

#[test]
fn seek_parses_millisecond_positions() {
    assert_eq!(parse_command("seek", Some("62500")), Ok(Command::Seek(62500)));
    assert_eq!(parse_command("seek", Some("-500")), Ok(Command::Seek(-500)));
    assert_eq!(parse_command("seek", Some("+100")), Ok(Command::Seek(100)));
    assert_eq!(parse_command("seek", Some("abc")), Err("invalid seek value".to_string()));
    assert_eq!(parse_command("seek", None), Err("missing seek position".to_string()));
}

#[test]
fn arguments_accept_one_leading_sign_at_most() {
    assert_eq!(parse_command("volume", Some("+")), Err("invalid volume (0-100)".to_string()));
    assert_eq!(parse_command("volume", Some("++5")), Err("invalid volume (0-100)".to_string()));
    assert_eq!(parse_command("seek", Some("+-5")), Err("invalid seek value".to_string()));
    assert_eq!(parse_command("seek", Some("--5")), Err("invalid seek value".to_string()));
}

#[test]
fn unknown_command_reports_its_name() {
    assert_eq!(parse_command("dance", None), Err("unknown command: dance".to_string()));
    assert_eq!(parse_command("", None), Err("unknown command: ".to_string()));
}

#[test]
fn toggle_pauses_when_playing_and_resumes_when_not() {
    assert_eq!(decide_action(&Command::Toggle, &state_with(true, false, "off")), PlayerAction::Pause);
    assert_eq!(
        decide_action(&Command::Toggle, &state_with(false, false, "off")),
        PlayerAction::Resume
    );
    assert_eq!(decide_action(&Command::Toggle, &empty_state()), PlayerAction::Resume);
}

#[test]
fn shuffle_inverts_cached_flag() {
    assert_eq!(
        decide_action(&Command::Shuffle, &state_with(true, false, "off")),
        PlayerAction::SetShuffle(true)
    );
    assert_eq!(
        decide_action(&Command::Shuffle, &state_with(true, true, "off")),
        PlayerAction::SetShuffle(false)
    );
    assert_eq!(decide_action(&Command::Shuffle, &empty_state()), PlayerAction::SetShuffle(true));
}

#[test]
fn repeat_cycles_off_context_track_off() {
    assert_eq!(
        decide_action(&Command::Repeat, &state_with(true, false, "off")),
        PlayerAction::SetRepeat(RepeatMode::Context)
    );
    assert_eq!(
        decide_action(&Command::Repeat, &state_with(true, false, "context")),
        PlayerAction::SetRepeat(RepeatMode::Track)
    );
    assert_eq!(
        decide_action(&Command::Repeat, &state_with(true, false, "track")),
        PlayerAction::SetRepeat(RepeatMode::Off)
    );
    assert_eq!(
        decide_action(&Command::Repeat, &empty_state()),
        PlayerAction::SetRepeat(RepeatMode::Off)
    );
}

#[test]
fn direct_commands_map_to_their_actions() {
    let s = empty_state();
    assert_eq!(decide_action(&Command::Pause, &s), PlayerAction::Pause);
    assert_eq!(decide_action(&Command::Play, &s), PlayerAction::Resume);
    assert_eq!(decide_action(&Command::Next, &s), PlayerAction::NextTrack);
    assert_eq!(decide_action(&Command::Prev, &s), PlayerAction::PreviousTrack);
    assert_eq!(decide_action(&Command::Volume(30), &s), PlayerAction::SetVolume(30));
    assert_eq!(decide_action(&Command::Seek(1500), &s), PlayerAction::SeekTo(1500));
}

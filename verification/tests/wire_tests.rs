use lirik::command::PlayerAction;
use lirik::daemon::plan_command;
use lirik::lyrics::{LyricLine, Lyrics};
use lirik::spotify::{fmt_time, DeviceInfo, NowPlaying, State};
use lirik::wire::{command_result_response, parse_command_response, parse_envelope, state_to_json};

fn empty_state() -> State {
    State { now_playing: None, fetched_at_ms: 5, lyrics: None }
}

fn playing_state() -> State {
    State {
        now_playing: Some(NowPlaying {
            artist: "Artist".to_string(),
            track: "Track".to_string(),
            album: "Album".to_string(),
            album_art: Some("http://img".to_string()),
            popularity: 7,
            explicit: true,
            spotify_url: None,
            progress_ms: 65_000,
            progress: fmt_time(65_000),
            duration_ms: 120_000,
            duration: fmt_time(120_000),
            is_playing: true,
            device: Some(DeviceInfo {
                name: "Box".to_string(),
                device_type: "Computer".to_string(),
                volume: Some(80),
            }),
            shuffle: false,
            repeat: "off".to_string(),
            context: None,
        }),
        fetched_at_ms: 99,
        lyrics: Some(Lyrics {
            synced: true,
            lines: vec![
                LyricLine { time_ms: 0, text: "one".to_string() },
                LyricLine { time_ms: 1000, text: "two".to_string() },
            ],
        }),
    }
}

#[test]
fn state_with_nothing_playing_serializes_null() {
    assert_eq!(
        state_to_json(&empty_state()),
        r#"{"now_playing":null,"fetched_at_ms":5,"lyrics":null}"#
    );
}

#[test]
fn full_state_serializes_every_field() {
    let mut expected = String::new();
    expected.push_str(r#"{"now_playing":{"artist":"Artist","track":"Track","album":"Album","#);
    expected.push_str(r#""album_art":"http://img","popularity":7,"explicit":true,"spotify_url":null,"#);
    expected.push_str(r#""progress_ms":65000,"progress":"1:05","duration_ms":120000,"duration":"2:00","#);
    expected.push_str(r#""is_playing":true,"device":{"name":"Box","device_type":"Computer","volume":80},"#);
    expected.push_str(r#""shuffle":false,"repeat":"off","context":null},"fetched_at_ms":99,"#);
    expected.push_str(r#""lyrics":{"synced":true,"lines":[{"time_ms":0,"text":"one"},{"time_ms":1000,"text":"two"}]}}"#);
    assert_eq!(state_to_json(&playing_state()), expected);
}

#[test]
fn responses_escape_quotes_and_control_characters() {
    let resp = command_result_response(&Err("say \"hi\"\nback\\slash".to_string()));
    assert_eq!(resp, r#"{"error":"say \"hi\"\nback\\slash"}"#);
}

#[test]
fn ok_response_is_the_success_marker() {
    assert_eq!(command_result_response(&Ok(())), r#"{"ok":true}"#);
}

#[test]
fn envelope_parses_cmd_and_arg() {
    assert_eq!(
        parse_envelope(r#"{"cmd":"volume","arg":"150"}"#),
        Some(("volume".to_string(), Some("150".to_string())))
    );
}

#[test]
fn envelope_tolerates_whitespace_and_null_arg() {
    assert_eq!(
        parse_envelope(" { \"cmd\" : \"pause\" , \"arg\" : null } "),
        Some(("pause".to_string(), None))
    );
}

#[test]
fn envelope_missing_cmd_reads_as_empty_name() {
    assert_eq!(parse_envelope(r#"{"arg":"5"}"#), Some((String::new(), Some("5".to_string()))));
}

#[test]
fn envelope_later_duplicate_key_wins() {
    assert_eq!(
        parse_envelope(r#"{"cmd":"pause","cmd":"play"}"#),
        Some(("play".to_string(), None))
    );
}

#[test]
fn envelope_decodes_string_escapes() {
    assert_eq!(
        parse_envelope(r#"{"cmd":"a\n\"b\\"}"#),
        Some(("a\n\"b\\".to_string(), None))
    );
}

#[test]
fn envelope_ignores_unknown_members() {
    assert_eq!(
        parse_envelope(r#"{"other":true,"cmd":"next","n":12,"x":null}"#),
        Some(("next".to_string(), None))
    );
}

#[test]
fn envelope_rejects_malformed_lines() {
    assert_eq!(parse_envelope("not json"), None);
    assert_eq!(parse_envelope(r#"{"cmd":"pause""#), None);
    assert_eq!(parse_envelope(r#"{"cmd" "pause"}"#), None);
    assert_eq!(parse_envelope(r#"{"cmd":"pause"} extra"#), None);
    assert_eq!(parse_envelope(""), None);
    assert_eq!(parse_envelope("42"), None);
}

#[test]
fn empty_object_envelope_has_no_cmd() {
    assert_eq!(parse_envelope("{}"), Some((String::new(), None)));
}

#[test]
fn command_response_reads_ok_and_error() {
    assert_eq!(parse_command_response(r#"{"ok":true}"#), Ok(()));
    assert_eq!(parse_command_response(r#"{"error":"boom"}"#), Err("boom".to_string()));
    assert_eq!(parse_command_response("garbage"), Err("bad json".to_string()));
}

#[test]
fn out_of_range_volume_request_yields_error_response() {
    match plan_command(r#"{"cmd":"volume","arg":"150"}"#, &empty_state()) {
        Err(resp) => assert_eq!(resp, r#"{"error":"invalid volume (0-100)"}"#),
        Ok(_) => panic!("error response expected"),
    }
}

#[test]
fn in_range_volume_request_plans_the_adapter_call() {
    match plan_command(r#"{"cmd":"volume","arg":"50"}"#, &empty_state()) {
        Ok(action) => assert_eq!(action, PlayerAction::SetVolume(50)),
        Err(resp) => panic!("unexpected error response: {resp}"),
    }
}

#[test]
fn unknown_command_request_names_it() {
    match plan_command(r#"{"cmd":"dance","arg":null}"#, &empty_state()) {
        Err(resp) => assert_eq!(resp, r#"{"error":"unknown command: dance"}"#),
        Ok(_) => panic!("error response expected"),
    }
}

#[test]
fn malformed_request_line_is_bad_json() {
    match plan_command("{{nope", &empty_state()) {
        Err(resp) => assert_eq!(resp, r#"{"error":"bad json"}"#),
        Ok(_) => panic!("error response expected"),
    }
}

#[test]
fn envelope_decodes_u_escapes_for_control_characters() {
    assert_eq!(
        parse_envelope(r#"{"cmd":"a\u0007b"}"#),
        Some(("a\u{7}b".to_string(), None))
    );
    assert_eq!(
        parse_envelope("{\"cmd\":\"\u{141}\"}"),
        Some(("\u{141}".to_string(), None))
    );
    assert_eq!(parse_envelope(r#"{"cmd":"\uzz"}"#), None);
}

#[test]
fn control_characters_survive_the_response_round_trip() {
    let resp = command_result_response(&Err("bell\u{7}tab\there".to_string()));
    assert_eq!(resp, "{\"error\":\"bell\\u0007tab\\there\"}");
    assert_eq!(parse_command_response(&resp), Err("bell\u{7}tab\there".to_string()));
}

//! The playback command protocol: the closed command set, argument
//! validation, and the decision which adapter operation a command maps to
//! given the cached snapshot.
use vstd::prelude::*;
use crate::spotify::State;
use crate::text::{parse_i64_arg_spec, parse_i64_range, parse_u64_arg_spec, parse_u64_range,
    str_eq, str_to_chars, append_str};

verus! {

/// A validated playback command from a client.
#[derive(Clone, Copy, Debug, PartialEq, Eq, Structural)]
pub enum Command {
    Pause,
    Play,
    Toggle,
    Next,
    Prev,
    Volume(u8),
    Seek(i64),
    Shuffle,
    Repeat,
}

/// The repeat mode the playback adapter can be set to.
#[derive(Clone, Copy, Debug, PartialEq, Eq, Structural)]
pub enum RepeatMode {
    Off,
    Context,
    Track,
}

/// The operation the external playback adapter is asked to perform.
#[derive(Clone, Copy, Debug, PartialEq, Eq, Structural)]
pub enum PlayerAction {
    Pause,
    Resume,
    NextTrack,
    PreviousTrack,
    SetVolume(u8),
    SeekTo(i64),
    SetShuffle(bool),
    SetRepeat(RepeatMode),
}

/// What parsing a command name and argument yields: the validated command,
/// or the error message reported to the client. The volume argument must
/// be an integer from 0 to 100; the seek argument an integer millisecond
/// position.
pub open spec fn parse_command_spec(cmd: Seq<char>, arg: Option<Seq<char>>) -> Result<
    Command,
    Seq<char>,
> {
    if cmd == "pause"@ {
        Ok(Command::Pause)
    } else if cmd == "play"@ {
        Ok(Command::Play)
    } else if cmd == "toggle"@ {
        Ok(Command::Toggle)
    } else if cmd == "next"@ {
        Ok(Command::Next)
    } else if cmd == "prev"@ {
        Ok(Command::Prev)
    } else if cmd == "volume"@ {
        match arg {
            None => Err("missing volume value"@),
            Some(a) => match parse_u64_arg_spec(a) {
                Some(v) => if v <= 100 {
                    Ok(Command::Volume(v as u8))
                } else {
                    Err("invalid volume (0-100)"@)
                },
                None => Err("invalid volume (0-100)"@),
            },
        }
    } else if cmd == "seek"@ {
        match arg {
            None => Err("missing seek position"@),
            Some(a) => match parse_i64_arg_spec(a) {
                Some(ms) => Ok(Command::Seek(ms)),
                None => Err("invalid seek value"@),
            },
        }
    } else if cmd == "shuffle"@ {
        Ok(Command::Shuffle)
    } else if cmd == "repeat"@ {
        Ok(Command::Repeat)
    } else {
        Err("unknown command: "@ + cmd)
    }
}

/// Parses and validates a command name with its optional argument.
pub fn parse_command(cmd: &str, arg: Option<&str>) -> (r: Result<Command, String>)
    ensures
        ({
            let spec_arg = match arg {
                Some(a) => Some(a@),
                None => None,
            };
            match r {
                Ok(c) => parse_command_spec(cmd@, spec_arg) == Ok::<Command, Seq<char>>(c),
                Err(e) => parse_command_spec(cmd@, spec_arg) matches Err(m) && e@ == m,
            }
        }),
{
    proof {
        reveal_strlit("pause");
        reveal_strlit("play");
        reveal_strlit("toggle");
        reveal_strlit("next");
        reveal_strlit("prev");
        reveal_strlit("volume");
        reveal_strlit("seek");
        reveal_strlit("shuffle");
        reveal_strlit("repeat");
    }
    if str_eq(cmd, "pause") {
        Ok(Command::Pause)
    } else if str_eq(cmd, "play") {
        Ok(Command::Play)
    } else if str_eq(cmd, "toggle") {
        Ok(Command::Toggle)
    } else if str_eq(cmd, "next") {
        Ok(Command::Next)
    } else if str_eq(cmd, "prev") {
        Ok(Command::Prev)
    } else if str_eq(cmd, "volume") {
        match arg {
            None => Err(err_string("missing volume value")),
            Some(a) => {
                let chars = str_to_chars(a);
                let n = chars.len();
                proof {
                    assert(chars@.subrange(0, n as int) =~= a@);
                }
                let parsed = if n > 0 && chars[0] == '+' {
                    proof {
                        assert(chars@.subrange(1, n as int) =~= a@.subrange(1, a@.len() as int));
                    }
                    parse_u64_range(chars.as_slice(), 1, n)
                } else {
                    parse_u64_range(chars.as_slice(), 0, n)
                };
                match parsed {
                    Some(v) => if v <= 100 {
                        Ok(Command::Volume(v as u8))
                    } else {
                        Err(err_string("invalid volume (0-100)"))
                    },
                    None => Err(err_string("invalid volume (0-100)")),
                }
            },
        }
    } else if str_eq(cmd, "seek") {
        match arg {
            None => Err(err_string("missing seek position")),
            Some(a) => {
                let chars = str_to_chars(a);
                let n = chars.len();
                proof {
                    assert(chars@.subrange(0, n as int) =~= a@);
                }
                let parsed: Option<i64> = if n > 0 && chars[0] == '+' {
                    proof {
                        assert(chars@.subrange(1, n as int) =~= a@.subrange(1, a@.len() as int));
                    }
                    match parse_u64_range(chars.as_slice(), 1, n) {
                        Some(v) => if v <= 9223372036854775807u64 {
                            Some(v as i64)
                        } else {
                            None
                        },
                        None => None,
                    }
                } else {
                    parse_i64_range(chars.as_slice(), 0, n)
                };
                match parsed {
                    Some(ms) => Ok(Command::Seek(ms)),
                    None => Err(err_string("invalid seek value")),
                }
            },
        }
    } else if str_eq(cmd, "shuffle") {
        Ok(Command::Shuffle)
    } else if str_eq(cmd, "repeat") {
        Ok(Command::Repeat)
    } else {
        let mut msg = err_string("unknown command: ");
        append_str(&mut msg, cmd);
        Err(msg)
    }
}

/// A `String` copy of an error message literal.
fn err_string(msg: &str) -> (r: String)
    ensures
        r@ == msg@,
{
    msg.to_owned()
}

/// Whether the cached snapshot says playback is running.
pub open spec fn cached_playing(s: State) -> bool {
    match s.now_playing {
        Some(np) => np.is_playing,
        None => false,
    }
}

/// Whether the cached snapshot says shuffle is on.
pub open spec fn cached_shuffle(s: State) -> bool {
    match s.now_playing {
        Some(np) => np.shuffle,
        None => false,
    }
}

/// The repeat mode string the cached snapshot reports (empty when nothing
/// is cached).
pub open spec fn cached_repeat(s: State) -> Seq<char> {
    match s.now_playing {
        Some(np) => np.repeat@,
        None => Seq::empty(),
    }
}

/// The repeat mode after the cached one in the cycle off, context, track,
/// and back to off (anything unrecognized restarts at off).
pub open spec fn next_repeat_spec(current: Seq<char>) -> RepeatMode {
    if current == "off"@ {
        RepeatMode::Context
    } else if current == "context"@ {
        RepeatMode::Track
    } else {
        RepeatMode::Off
    }
}

/// The adapter operation a validated command asks for, given the cached
/// snapshot: toggle picks pause or resume from the cached playing flag,
/// shuffle inverts the cached shuffle flag, and repeat advances the cached
/// mode one step in its cycle.
pub open spec fn decide_action_spec(c: Command, s: State) -> PlayerAction {
    match c {
        Command::Pause => PlayerAction::Pause,
        Command::Play => PlayerAction::Resume,
        Command::Toggle => if cached_playing(s) {
            PlayerAction::Pause
        } else {
            PlayerAction::Resume
        },
        Command::Next => PlayerAction::NextTrack,
        Command::Prev => PlayerAction::PreviousTrack,
        Command::Volume(v) => PlayerAction::SetVolume(v),
        Command::Seek(ms) => PlayerAction::SeekTo(ms),
        Command::Shuffle => PlayerAction::SetShuffle(!cached_shuffle(s)),
        Command::Repeat => PlayerAction::SetRepeat(next_repeat_spec(cached_repeat(s))),
    }
}

/// Decides which adapter operation to perform for a command.
pub fn decide_action(c: &Command, s: &State) -> (r: PlayerAction)
    ensures
        r == decide_action_spec(*c, *s),
{
    match c {
        Command::Pause => PlayerAction::Pause,
        Command::Play => PlayerAction::Resume,
        Command::Toggle => {
            let playing = match &s.now_playing {
                Some(np) => np.is_playing,
                None => false,
            };
            if playing {
                PlayerAction::Pause
            } else {
                PlayerAction::Resume
            }
        },
        Command::Next => PlayerAction::NextTrack,
        Command::Prev => PlayerAction::PreviousTrack,
        Command::Volume(v) => PlayerAction::SetVolume(*v),
        Command::Seek(ms) => PlayerAction::SeekTo(*ms),
        Command::Shuffle => {
            let current = match &s.now_playing {
                Some(np) => np.shuffle,
                None => false,
            };
            PlayerAction::SetShuffle(!current)
        },
        Command::Repeat => {
            proof {
                reveal_strlit("off");
                reveal_strlit("context");
            }
            let next = match &s.now_playing {
                Some(np) => {
                    if str_eq(np.repeat.as_str(), "off") {
                        RepeatMode::Context
                    } else if str_eq(np.repeat.as_str(), "context") {
                        RepeatMode::Track
                    } else {
                        RepeatMode::Off
                    }
                },
                None => {
                    proof {
                        // The empty cached mode is neither named mode.
                        assert("off"@.len() == 3);
                        assert(Seq::<char>::empty() !== "off"@);
                        assert("context"@.len() == 7);
                        assert(Seq::<char>::empty() !== "context"@);
                    }
                    RepeatMode::Off
                },
            };
            PlayerAction::SetRepeat(next)
        },
    }
}

} // verus!

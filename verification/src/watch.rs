//! The line-stream frontend's decisions: which track header, lyric line
//! or blank separator to emit as playback advances, each line emitted
//! once.
use vstd::prelude::*;
use crate::client::adjusted_progress;
use crate::daemon::{poll_decision, track_key_spec};
use crate::lyrics::{current_index_spec, current_line_index, Lyrics};
use crate::spotify::NowPlaying;

verus! {

/// What the stream has last emitted: the playing track's key, the index
/// of the last lyric line written, and whether playback was running.
pub struct WatchState {
    pub current_track: String,
    pub last_index: Option<usize>,
    pub was_playing: bool,
}

/// One step's output: the new state, whether to emit a blank separator
/// (playback just stopped), whether the track changed (emit its header),
/// and the lyric line to emit now, if any.
pub struct WatchStep {
    pub state: WatchState,
    pub emit_blank: bool,
    pub track_changed: bool,
    pub emit_line_index: Option<usize>,
}

/// Creates the stream's starting state: no track, no line emitted, and
/// playback assumed running so that an initial silence emits one blank.
pub fn watch_start() -> (r: WatchState)
    ensures
        r.current_track@ == Seq::<char>::empty(),
        r.last_index is None,
        r.was_playing,
{
    WatchState { current_track: String::new(), last_index: None, was_playing: true }
}

/// Decides what the stream emits for one observation of the snapshot:
/// a stop of playback emits one blank and resets; a track change emits
/// the header and restarts line tracking; a newly reached synced lyric
/// line is emitted once.
pub fn watch_step(
    prev: WatchState,
    np: &Option<NowPlaying>,
    lyrics: &Option<Lyrics>,
    offset_ms: i64,
) -> (r: WatchStep)
    ensures
        match *np {
            None => {
                &&& r.emit_blank == prev.was_playing
                &&& !r.track_changed
                &&& r.emit_line_index is None
                &&& !r.state.was_playing
                &&& r.state.current_track@ == Seq::<char>::empty()
                &&& r.state.last_index is None
            },
            Some(n) => {
                if !n.is_playing {
                    &&& r.emit_blank == prev.was_playing
                    &&& !r.track_changed
                    &&& r.emit_line_index is None
                    &&& !r.state.was_playing
                    &&& prev.was_playing ==> (r.state.current_track@ == Seq::<char>::empty()
                        && r.state.last_index is None)
                    &&& !prev.was_playing ==> (r.state.current_track@ == prev.current_track@
                        && r.state.last_index == prev.last_index)
                } else {
                    let key = track_key_spec(Some(n));
                    let changed = key != prev.current_track@;
                    let base = if changed {
                        None
                    } else {
                        prev.last_index
                    };
                    &&& !r.emit_blank
                    &&& r.track_changed == changed
                    &&& r.state.was_playing
                    &&& r.state.current_track@ == key
                    &&& match *lyrics {
                        Some(ly) => {
                            if ly.synced {
                                let adj = adjusted_progress(n.progress_ms, offset_ms);
                                match current_index_spec(ly.lines@, adj) {
                                    Some(i) => {
                                        if base matches Some(b) && b as int == i {
                                            r.emit_line_index is None && r.state.last_index
                                                == base
                                        } else {
                                            (r.emit_line_index matches Some(x) && x as int == i)
                                                && r.state.last_index == r.emit_line_index
                                        }
                                    },
                                    None => r.emit_line_index is None && r.state.last_index
                                        == base,
                                }
                            } else {
                                r.emit_line_index is None && r.state.last_index == base
                            }
                        },
                        None => r.emit_line_index is None && r.state.last_index == base,
                    }
                }
            },
        },
{
    let n = match np {
        None => {
            return WatchStep {
                state: watch_start_stopped(),
                emit_blank: prev.was_playing,
                track_changed: false,
                emit_line_index: None,
            };
        },
        Some(n) => n,
    };
    if !n.is_playing {
        let state = if prev.was_playing {
            watch_start_stopped()
        } else {
            WatchState {
                current_track: prev.current_track,
                last_index: prev.last_index,
                was_playing: false,
            }
        };
        return WatchStep {
            state,
            emit_blank: prev.was_playing,
            track_changed: false,
            emit_line_index: None,
        };
    }
    let decision = poll_decision(prev.current_track.as_str(), np);
    let changed = decision.refetch;
    let base = if changed {
        None
    } else {
        prev.last_index
    };
    let mut emit_line_index: Option<usize> = None;
    let mut last_index = base;
    match lyrics {
        Some(ly) => {
            if ly.synced {
                let adjusted = crate::client::adjust_progress(n.progress_ms, offset_ms);
                match current_line_index(ly.lines.as_slice(), adjusted) {
                    Some(i) => {
                        let same = match base {
                            Some(b) => b == i,
                            None => false,
                        };
                        if !same {
                            emit_line_index = Some(i);
                            last_index = Some(i);
                        }
                    },
                    None => {},
                }
            }
        },
        None => {},
    }
    WatchStep {
        state: WatchState {
            current_track: decision.track_key,
            last_index,
            was_playing: true,
        },
        emit_blank: false,
        track_changed: changed,
        emit_line_index,
    }
}

/// The reset state after playback stops: cleared track and line, not
/// playing.
fn watch_start_stopped() -> (r: WatchState)
    ensures
        r.current_track@ == Seq::<char>::empty(),
        r.last_index is None,
        !r.was_playing,
{
    WatchState { current_track: String::new(), last_index: None, was_playing: false }
}

} // verus!

//! The daemon core's decisions: track-change detection for the lyrics
//! cache, assembly of the published snapshot, and the handling plan for a
//! command request line.
use vstd::prelude::*;
use crate::command::{decide_action, decide_action_spec, parse_command, parse_command_spec,
    PlayerAction};
use crate::client::lyrics_like;
use crate::lyrics::Lyrics;
use crate::spotify::{NowPlaying, State};
use crate::text::{append_str, push_char, str_eq};
use crate::wire::{command_result_response, error_response_spec, parse_envelope, parse_object};

verus! {

/// The identity key of the playing track: artist and track name joined by
/// a NUL separator, empty when nothing is playing. It only decides whether
/// the cached lyrics are still the playing track's.
pub open spec fn track_key_spec(np: Option<NowPlaying>) -> Seq<char> {
    match np {
        Some(n) => n.artist@ + seq!['\0'] + n.track@,
        None => Seq::empty(),
    }
}

/// What one poll decided: the polled track's key, and whether the lyrics
/// must be fetched anew because the key changed.
pub struct PollDecision {
    pub track_key: String,
    pub refetch: bool,
}

/// Compares the polled track against the previous cycle's key: on a
/// mismatch the lyrics are refetched, on a match the cached ones are
/// carried forward.
pub fn poll_decision(prev_key: &str, np: &Option<NowPlaying>) -> (r: PollDecision)
    ensures
        r.track_key@ == track_key_spec(*np),
        r.refetch == (track_key_spec(*np) != prev_key@),
{
    let mut key = String::new();
    match np {
        Some(n) => {
            append_str(&mut key, n.artist.as_str());
            push_char(&mut key, '\0');
            append_str(&mut key, n.track.as_str());
            proof {
                assert(key@ =~= track_key_spec(*np));
            }
        },
        None => {
            proof {
                assert(key@ =~= track_key_spec(*np));
            }
        },
    }
    let refetch = !str_eq(key.as_str(), prev_key);
    PollDecision { track_key: key, refetch }
}

/// Polling the same artist and track again computes the same key, so the
/// cached lyrics are reused rather than fetched a second time.
pub proof fn lemma_same_track_reuses(a: NowPlaying, b: NowPlaying)
    requires
        a.artist@ == b.artist@,
        a.track@ == b.track@,
    ensures
        track_key_spec(Some(a)) == track_key_spec(Some(b)),
{
}

/// For artist and track names free of the NUL separator the key is
/// injective: a change of either field changes the key, which triggers a
/// refetch.
pub proof fn lemma_track_key_injective(a: NowPlaying, b: NowPlaying)
    requires
        !a.artist@.contains('\0'),
        !b.artist@.contains('\0'),
        track_key_spec(Some(a)) == track_key_spec(Some(b)),
    ensures
        a.artist@ == b.artist@,
        a.track@ == b.track@,
{
    let a1 = a.artist@;
    let t1 = a.track@;
    let b1 = b.artist@;
    let t2 = b.track@;
    let k1 = a1 + seq!['\0'] + t1;
    let k2 = b1 + seq!['\0'] + t2;
    assert(k1 == track_key_spec(Some(a)));
    assert(k2 == track_key_spec(Some(b)));
    assert(k1.len() == a1.len() + 1 + t1.len());
    assert(k2.len() == b1.len() + 1 + t2.len());
    if a1.len() < b1.len() {
        assert(k1[a1.len() as int] == '\0');
        assert(k2[a1.len() as int] == b1[a1.len() as int]);
        assert(b1.contains('\0'));
        assert(false);
    }
    if b1.len() < a1.len() {
        assert(k2[b1.len() as int] == '\0');
        assert(k1[b1.len() as int] == a1[b1.len() as int]);
        assert(a1.contains('\0'));
        assert(false);
    }
    assert(a1.len() == b1.len());
    assert forall|i: int| 0 <= i < a1.len() implies a1[i] == b1[i] by {
        assert(k1[i] == a1[i]);
        assert(k2[i] == b1[i]);
    }
    assert(a1 =~= b1);
    assert(t1.len() == t2.len());
    assert forall|j: int| 0 <= j < t1.len() implies t1[j] == t2[j] by {
        assert(k1[a1.len() + 1 + j] == t1[j]);
        assert(k2[b1.len() + 1 + j] == t2[j]);
    }
    assert(t1 =~= t2);
}

/// A playing track's key is never the initial empty key, so the first
/// poll that finds something playing always fetches lyrics.
pub proof fn lemma_playing_key_nonempty(n: NowPlaying)
    ensures
        track_key_spec(Some(n)) != Seq::<char>::empty(),
{
    assert(track_key_spec(Some(n)).len() > 0);
}

/// The snapshot the daemon publishes at start, before the first poll.
pub fn initial_state(now_ms: u64) -> (r: State)
    ensures
        r.now_playing is None,
        r.fetched_at_ms == now_ms,
        r.lyrics is None,
{
    State { now_playing: None, fetched_at_ms: now_ms, lyrics: None }
}

/// The snapshot published after a poll: the fresh playback record, the
/// capture time, and either the freshly fetched lyrics (on a track
/// change) or the previous snapshot's, carried forward unchanged.
pub fn next_snapshot(
    prev: &State,
    np: Option<NowPlaying>,
    refetch: bool,
    fetched: Option<Lyrics>,
    now_ms: u64,
) -> (r: State)
    ensures
        r.now_playing == np,
        r.fetched_at_ms == now_ms,
        refetch ==> r.lyrics == fetched,
        !refetch ==> match (r.lyrics, prev.lyrics) {
            (Some(x), Some(y)) => lyrics_like(x, y),
            (None, None) => true,
            _ => false,
        },
{
    let ly = if refetch {
        fetched
    } else {
        match &prev.lyrics {
            Some(l) => Some(l.duplicate()),
            None => None,
        }
    };
    State { now_playing: np, fetched_at_ms: now_ms, lyrics: ly }
}

/// What the daemon does with one non-empty request line: the adapter
/// action to perform (the wire response then depends on the adapter's
/// outcome), or the error response line to send back at once — for a line
/// that is not a wire object, or a command that does not validate.
pub open spec fn plan_command_spec(line: Seq<char>, s: State) -> Result<PlayerAction, Seq<char>> {
    match parse_object(line, "cmd"@, "arg"@) {
        None => Err(error_response_spec("bad json"@)),
        Some((c, a)) => {
            let cmd = match c {
                Some(t) => t,
                None => Seq::empty(),
            };
            match parse_command_spec(cmd, a) {
                Ok(k) => Ok(decide_action_spec(k, s)),
                Err(m) => Err(error_response_spec(m)),
            }
        },
    }
}

/// Plans the handling of one command request line against the cached
/// snapshot.
pub fn plan_command(line: &str, s: &State) -> (r: Result<PlayerAction, String>)
    ensures
        match r {
            Ok(act) => plan_command_spec(line@, *s) == Ok::<PlayerAction, Seq<char>>(act),
            Err(e) => plan_command_spec(line@, *s) matches Err(m) && e@ == m,
        },
{
    match parse_envelope(line) {
        None => {
            proof {
                reveal_strlit("bad json");
            }
            Err(command_result_response(&Err("bad json".to_owned())))
        },
        Some((cmd, arg)) => {
            let arg_ref = match &arg {
                Some(a) => Some(a.as_str()),
                None => None,
            };
            match parse_command(cmd.as_str(), arg_ref) {
                Ok(k) => Ok(decide_action(&k, s)),
                Err(e) => Err(command_result_response(&Err(e))),
            }
        },
    }
}

} // verus!

//! The playback data model: the `NowPlaying` record captured by each poll,
//! the shared `State` snapshot, and the `m:ss` time rendering.
use vstd::prelude::*;
use crate::text::{append_u64, dec_digits, digit_char, push_char, append_str, digit_char_of};
use crate::lyrics::Lyrics;

verus! {

/// Metadata of the device the playback runs on.
#[derive(Clone)]
pub struct DeviceInfo {
    pub name: String,
    pub device_type: String,
    pub volume: Option<u32>,
}

/// The playback context (a playlist, an album, ...) a track plays in.
#[derive(Clone)]
pub struct PlayContext {
    pub context_type: String,
    pub uri: String,
}

/// One poll's view of the current playback. Never mutated after creation:
/// each poll produces a whole new value.
#[derive(Clone)]
pub struct NowPlaying {
    pub artist: String,
    pub track: String,
    pub album: String,
    pub album_art: Option<String>,
    pub popularity: u32,
    pub explicit: bool,
    pub spotify_url: Option<String>,
    pub progress_ms: u64,
    pub progress: String,
    pub duration_ms: u64,
    pub duration: String,
    pub is_playing: bool,
    pub device: Option<DeviceInfo>,
    pub shuffle: bool,
    pub repeat: String,
    pub context: Option<PlayContext>,
}

/// The single authoritative snapshot the daemon publishes: the current
/// playback (absent when nothing plays), when it was captured, and the
/// lyrics cached for the current track.
#[derive(Clone)]
pub struct State {
    pub now_playing: Option<NowPlaying>,
    pub fetched_at_ms: u64,
    pub lyrics: Option<Lyrics>,
}

/// The `m:ss` rendering of a duration: whole minutes, a colon, and the
/// seconds zero-padded to two digits.
pub open spec fn fmt_time_spec(ms: u64) -> Seq<char> {
    let s = (ms / 1000) as nat;
    dec_digits(s / 60) + seq![':', digit_char((s % 60) / 10), digit_char((s % 60) % 10)]
}

/// Renders a millisecond count as `m:ss`.
pub fn fmt_time(ms: u64) -> (r: String)
    ensures
        r@ == fmt_time_spec(ms),
{
    let s = ms / 1000;
    let mut out = String::new();
    append_u64(&mut out, s / 60);
    push_char(&mut out, ':');
    push_char(&mut out, digit_char_of((s % 60) / 10));
    push_char(&mut out, digit_char_of((s % 60) % 10));
    proof {
        assert(out@ =~= fmt_time_spec(ms));
    }
    out
}

/// The names joined with `", "` between each pair.
pub open spec fn join_names_spec(parts: Seq<Seq<char>>) -> Seq<char>
    decreases parts.len(),
{
    if parts.len() == 0 {
        Seq::empty()
    } else if parts.len() == 1 {
        parts[0]
    } else {
        join_names_spec(parts.drop_last()) + seq![',', ' '] + parts.last()
    }
}

/// Joins artist names with `", "`, as the display form of a track's artists.
pub fn join_names(names: &Vec<String>) -> (r: String)
    ensures
        r@ == join_names_spec(names.deep_view()),
{
    let ghost dv = names.deep_view();
    let mut out = String::new();
    let mut i: usize = 0;
    while i < names.len()
        invariant
            i <= names@.len() == dv.len(),
            dv == names.deep_view(),
            out@ == join_names_spec(dv.take(i as int)),
        decreases names@.len() - i,
    {
        if i > 0 {
            append_str(&mut out, ", ");
            proof {
                reveal_strlit(", ");
            }
        }
        append_str(&mut out, names[i].as_str());
        proof {
            assert(names@[i as int]@ == dv[i as int]);
            let t1 = dv.take(i + 1);
            assert(t1.drop_last() =~= dv.take(i as int));
            assert(t1.last() == dv[i as int]);
            if i == 0 {
                assert(out@ =~= join_names_spec(t1));
            } else {
                assert(out@ =~= join_names_spec(dv.take(i as int)) + seq![',', ' '] + dv[i as int]);
            }
        }
        i = i + 1;
    }
    proof {
        assert(dv.take(names@.len() as int) =~= dv);
    }
    out
}

/// Builds the published playback record from the plain values a poll
/// extracted: the artists joined for display, and the positions rendered
/// as `m:ss` beside their millisecond values.
pub fn assemble_now_playing(
    artists: &Vec<String>,
    track: String,
    album: String,
    album_art: Option<String>,
    popularity: u32,
    explicit: bool,
    spotify_url: Option<String>,
    progress_ms: u64,
    duration_ms: u64,
    is_playing: bool,
    device: Option<DeviceInfo>,
    shuffle: bool,
    repeat: String,
    context: Option<PlayContext>,
) -> (r: NowPlaying)
    ensures
        r.artist@ == join_names_spec(artists.deep_view()),
        r.track == track,
        r.album == album,
        r.album_art == album_art,
        r.popularity == popularity,
        r.explicit == explicit,
        r.spotify_url == spotify_url,
        r.progress_ms == progress_ms,
        r.progress@ == fmt_time_spec(progress_ms),
        r.duration_ms == duration_ms,
        r.duration@ == fmt_time_spec(duration_ms),
        r.is_playing == is_playing,
        r.device == device,
        r.shuffle == shuffle,
        r.repeat == repeat,
        r.context == context,
{
    NowPlaying {
        artist: join_names(artists),
        track,
        album,
        album_art,
        popularity,
        explicit,
        spotify_url,
        progress: fmt_time(progress_ms),
        progress_ms,
        duration: fmt_time(duration_ms),
        duration_ms,
        is_playing,
        device,
        shuffle,
        repeat,
        context,
    }
}

} // verus!

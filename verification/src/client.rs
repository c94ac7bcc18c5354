//! The client-side read path: extrapolating the cached snapshot to the
//! present moment, the active lyric for a display, and the plain lyric
//! listing.
use vstd::prelude::*;
use crate::lyrics::{current_index_spec, current_line_index, LyricLine, Lyrics};
use crate::spotify::{fmt_time, fmt_time_spec, DeviceInfo, NowPlaying, PlayContext, State};

verus! {

use crate::text::clone_opt_string;

impl DeviceInfo {
    /// A field-for-field copy.
    pub fn duplicate(&self) -> (r: Self)
        ensures
            r == *self,
    {
        DeviceInfo {
            name: self.name.clone(),
            device_type: self.device_type.clone(),
            volume: self.volume,
        }
    }
}

impl PlayContext {
    /// A field-for-field copy.
    pub fn duplicate(&self) -> (r: Self)
        ensures
            r == *self,
    {
        PlayContext { context_type: self.context_type.clone(), uri: self.uri.clone() }
    }
}

impl NowPlaying {
    /// A field-for-field copy.
    pub fn duplicate(&self) -> (r: Self)
        ensures
            r == *self,
    {
        NowPlaying {
            artist: self.artist.clone(),
            track: self.track.clone(),
            album: self.album.clone(),
            album_art: clone_opt_string(&self.album_art),
            popularity: self.popularity,
            explicit: self.explicit,
            spotify_url: clone_opt_string(&self.spotify_url),
            progress_ms: self.progress_ms,
            progress: self.progress.clone(),
            duration_ms: self.duration_ms,
            duration: self.duration.clone(),
            is_playing: self.is_playing,
            device: match &self.device {
                Some(d) => Some(d.duplicate()),
                None => None,
            },
            shuffle: self.shuffle,
            repeat: self.repeat.clone(),
            context: match &self.context {
                Some(c) => Some(c.duplicate()),
                None => None,
            },
        }
    }
}

impl LyricLine {
    /// A field-for-field copy.
    pub fn duplicate(&self) -> (r: Self)
        ensures
            r == *self,
    {
        LyricLine { time_ms: self.time_ms, text: self.text.clone() }
    }
}

/// Equality of lyrics up to the vector holding the lines.
pub open spec fn lyrics_like(a: Lyrics, b: Lyrics) -> bool {
    a.synced == b.synced && a.lines@ == b.lines@
}

/// Equality of snapshots up to the vector holding the lyric lines.
pub open spec fn state_like(a: State, b: State) -> bool {
    &&& a.now_playing == b.now_playing
    &&& a.fetched_at_ms == b.fetched_at_ms
    &&& match (a.lyrics, b.lyrics) {
        (Some(x), Some(y)) => lyrics_like(x, y),
        (None, None) => true,
        _ => false,
    }
}

impl Lyrics {
    /// A line-for-line copy.
    pub fn duplicate(&self) -> (r: Self)
        ensures
            lyrics_like(r, *self),
    {
        let mut lines: Vec<LyricLine> = Vec::new();
        let mut i: usize = 0;
        while i < self.lines.len()
            invariant
                i <= self.lines@.len(),
                lines@ =~= self.lines@.take(i as int),
            decreases self.lines@.len() - i,
        {
            lines.push(self.lines[i].duplicate());
            proof {
                assert(self.lines@.take(i + 1) =~= self.lines@.take(i as int).push(
                    self.lines@[i as int],
                ));
            }
            i = i + 1;
        }
        proof {
            assert(self.lines@.take(self.lines@.len() as int) =~= self.lines@);
        }
        Lyrics { synced: self.synced, lines }
    }
}

impl State {
    /// A field-for-field copy, the lyric lines copied line for line.
    pub fn duplicate(&self) -> (r: Self)
        ensures
            state_like(r, *self),
    {
        State {
            now_playing: match &self.now_playing {
                Some(np) => Some(np.duplicate()),
                None => None,
            },
            fetched_at_ms: self.fetched_at_ms,
            lyrics: match &self.lyrics {
                Some(ly) => Some(ly.duplicate()),
                None => None,
            },
        }
    }
}

/// The playback position extrapolated from a snapshot to wall-clock time
/// `now_ms`: the captured position plus the time passed since the capture,
/// clamped below at no movement (a clock that went backwards) and above at
/// the track's duration.
pub open spec fn estimated_progress(
    progress_ms: u64,
    duration_ms: u64,
    fetched_at_ms: u64,
    now_ms: u64,
) -> u64 {
    let elapsed: int = if now_ms >= fetched_at_ms {
        now_ms - fetched_at_ms
    } else {
        0
    };
    if progress_ms + elapsed <= duration_ms {
        (progress_ms + elapsed) as u64
    } else {
        duration_ms
    }
}

/// What extrapolation returns: nothing when nothing is playing; the record
/// unchanged when playback is paused; otherwise the same record with only
/// the position and its rendering moved forward.
pub open spec fn estimate_post(s: State, now_ms: u64, r: Option<NowPlaying>) -> bool {
    match s.now_playing {
        None => r is None,
        Some(np) => match r {
            None => false,
            Some(e) => {
                if np.is_playing {
                    let est = estimated_progress(
                        np.progress_ms,
                        np.duration_ms,
                        s.fetched_at_ms,
                        now_ms,
                    );
                    &&& e.progress_ms == est
                    &&& e.progress@ == fmt_time_spec(est)
                    &&& e.artist == np.artist
                    &&& e.track == np.track
                    &&& e.album == np.album
                    &&& e.album_art == np.album_art
                    &&& e.popularity == np.popularity
                    &&& e.explicit == np.explicit
                    &&& e.spotify_url == np.spotify_url
                    &&& e.duration_ms == np.duration_ms
                    &&& e.duration == np.duration
                    &&& e.is_playing == np.is_playing
                    &&& e.device == np.device
                    &&& e.shuffle == np.shuffle
                    &&& e.repeat == np.repeat
                    &&& e.context == np.context
                } else {
                    e == np
                }
            },
        },
    }
}

/// Extrapolates the snapshot to the moment `now_ms`.
pub fn estimate_at(state: &State, now_ms: u64) -> (r: Option<NowPlaying>)
    ensures
        estimate_post(*state, now_ms, r),
{
    match &state.now_playing {
        None => None,
        Some(np) => {
            let mut e = np.duplicate();
            if e.is_playing {
                let elapsed = now_ms.saturating_sub(state.fetched_at_ms);
                let est = if np.progress_ms >= np.duration_ms {
                    np.duration_ms
                } else if elapsed >= np.duration_ms - np.progress_ms {
                    np.duration_ms
                } else {
                    np.progress_ms + elapsed
                };
                e.progress_ms = est;
                e.progress = fmt_time(est);
            }
            Some(e)
        },
    }
}

/// Extrapolated progress never exceeds the track's duration, and never
/// moves backwards as the clock advances.
pub proof fn lemma_progress_monotonic(
    progress_ms: u64,
    duration_ms: u64,
    fetched_at_ms: u64,
    t1: u64,
    t2: u64,
)
    requires
        t1 <= t2,
    ensures
        estimated_progress(progress_ms, duration_ms, fetched_at_ms, t1) <= estimated_progress(
            progress_ms,
            duration_ms,
            fetched_at_ms,
            t2,
        ),
        estimated_progress(progress_ms, duration_ms, fetched_at_ms, t2) <= duration_ms,
{
}

/// Playing snapshots never move backwards and never pass the end: of two
/// extrapolations of one snapshot, the later one reports a position at
/// least the earlier one's, and a playing snapshot whose captured position
/// is within the track never reports one past the duration.
pub proof fn lemma_snapshot_progress_monotonic(
    s: State,
    t1: u64,
    t2: u64,
    r1: Option<NowPlaying>,
    r2: Option<NowPlaying>,
)
    requires
        t1 <= t2,
        estimate_post(s, t1, r1),
        estimate_post(s, t2, r2),
        s.now_playing matches Some(np) && np.is_playing,
    ensures
        r1 matches Some(a) && r2 matches Some(b) && a.progress_ms <= b.progress_ms
            && b.progress_ms <= b.duration_ms,
{
    let np = s.now_playing->0;
    lemma_progress_monotonic(np.progress_ms, np.duration_ms, s.fetched_at_ms, t1, t2);
}

/// Relies on std::time::SystemTime::now (converted through
/// duration_since(UNIX_EPOCH) and as_millis): the wall clock as
/// milliseconds since the Unix epoch, zero if the clock reads earlier
/// than the epoch. The result depends on the clock, so nothing is
/// promised of it.
#[verifier::external_body]
pub(crate) fn now_unix_ms() -> u64 {
    match std::time::SystemTime::now().duration_since(std::time::UNIX_EPOCH) {
        Ok(d) => d.as_millis() as u64,
        Err(_) => 0,
    }
}

/// Extrapolates the snapshot to the present wall-clock moment.
pub fn estimate(state: &State) -> (r: Option<NowPlaying>)
    ensures
        exists|now: u64| estimate_post(*state, now, r),
{
    let now = now_unix_ms();
    let r = estimate_at(state, now);
    proof {
        assert(estimate_post(*state, now, r));
    }
    r
}

/// A playback position shifted by the configured lyric offset, clamped to
/// the `u64` range.
pub open spec fn adjusted_progress(progress_ms: u64, offset_ms: i64) -> u64 {
    let v: int = progress_ms + offset_ms;
    if v < 0 {
        0
    } else if v > u64::MAX {
        u64::MAX
    } else {
        v as u64
    }
}

/// Applies the lyric offset to a playback position.
pub fn adjust_progress(progress_ms: u64, offset_ms: i64) -> (r: u64)
    ensures
        r == adjusted_progress(progress_ms, offset_ms),
{
    if offset_ms >= 0 {
        progress_ms.saturating_add(offset_ms as u64)
    } else if offset_ms == i64::MIN {
        progress_ms.saturating_sub(9223372036854775808u64)
    } else {
        progress_ms.saturating_sub((-offset_ms) as u64)
    }
}

/// The text of the lyric line active at the adjusted position: nothing
/// when there are no synced lyrics or no line has been reached yet.
pub fn current_lyric(state: &State, np: &NowPlaying, offset_ms: i64) -> (r: Option<String>)
    ensures
        ({
            let adj = adjusted_progress(np.progress_ms, offset_ms);
            match state.lyrics {
                Some(ly) => {
                    if ly.synced {
                        match current_index_spec(ly.lines@, adj) {
                            Some(i) => r matches Some(t) && t@ == ly.lines@[i].text@,
                            None => r is None,
                        }
                    } else {
                        r is None
                    }
                },
                None => r is None,
            }
        }),
{
    let ly = match &state.lyrics {
        Some(ly) => ly,
        None => { return None; },
    };
    if !ly.synced {
        return None;
    }
    let adjusted = adjust_progress(np.progress_ms, offset_ms);
    match current_line_index(ly.lines.as_slice(), adjusted) {
        Some(idx) => Some(ly.lines[idx].text.clone()),
        None => None,
    }
}


/// What the plain lyric listing shows: the lines to print, or why there
/// is nothing to print.
pub enum PlainView {
    NoLyrics,
    NothingPlaying,
    Lines(Vec<String>),
}

/// The texts of the lyric lines from index `start` on.
pub open spec fn texts_from(ls: Seq<LyricLine>, start: int) -> Seq<Seq<char>> {
    ls.skip(start).map_values(|l: LyricLine| l.text@)
}

/// Where the listing starts when asked to start from the active line:
/// that line's index, or the beginning when no line is active yet.
pub open spec fn plain_start(ls: Seq<LyricLine>, adjusted: u64) -> int {
    match current_index_spec(ls, adjusted) {
        Some(i) => i,
        None => 0,
    }
}

fn collect_texts(lines: &Vec<LyricLine>, start: usize, reverse: bool) -> (r: Vec<String>)
    requires
        start <= lines@.len(),
    ensures
        r.deep_view() == if reverse {
            texts_from(lines@, start as int).reverse()
        } else {
            texts_from(lines@, start as int)
        },
{
    let n = lines.len();
    let mut out: Vec<String> = Vec::new();
    if !reverse {
        let mut i = start;
        while i < n
            invariant
                start <= i <= n == lines@.len(),
                out@.len() == i - start,
                forall|k: int| 0 <= k < out@.len() ==> (#[trigger] out@[k])@ == lines@[start
                    + k].text@,
            decreases n - i,
        {
            out.push(lines[i].text.clone());
            i = i + 1;
        }
        proof {
            assert forall|k: int| 0 <= k < out@.len() implies out.deep_view()[k] == texts_from(
                lines@,
                start as int,
            )[k] by {
                assert(out.deep_view()[k] == out@[k]@);
                assert(texts_from(lines@, start as int)[k] == lines@.skip(start as int)[k].text@);
            }
            assert(out.deep_view() =~= texts_from(lines@, start as int));
        }
    } else {
        let mut i = n;
        while i > start
            invariant
                start <= i <= n == lines@.len(),
                out@.len() == n - i,
                forall|k: int| 0 <= k < out@.len() ==> (#[trigger] out@[k])@ == lines@[n - 1
                    - k].text@,
            decreases i,
        {
            i = i - 1;
            out.push(lines[i].text.clone());
        }
        proof {
            let t = texts_from(lines@, start as int);
            assert forall|k: int| 0 <= k < out@.len() implies out.deep_view()[k]
                == t.reverse()[k] by {
                assert(out.deep_view()[k] == out@[k]@);
                assert(t.reverse()[k] == t[t.len() - 1 - k]);
                assert(t[t.len() - 1 - k] == lines@.skip(start as int)[t.len() - 1 - k].text@);
            }
            assert(out.deep_view() =~= t.reverse());
        }
    }
    out
}

/// The plain lyric listing: every line's text, or from the active line on
/// when `from_current` is set and the lyrics are synced, in reverse order
/// when `reverse` is set. Reports when there are no lyrics at all, and
/// when the listing should start from the active line but nothing plays.
pub fn plain_view(
    state: &State,
    np: &Option<NowPlaying>,
    from_current: bool,
    reverse: bool,
    offset_ms: i64,
) -> (r: PlainView)
    ensures
        ({
            match state.lyrics {
                None => r is NoLyrics,
                Some(ly) => {
                    if from_current && ly.synced {
                        match *np {
                            None => r is NothingPlaying,
                            Some(n) => {
                                let start = plain_start(
                                    ly.lines@,
                                    adjusted_progress(n.progress_ms, offset_ms),
                                );
                                let texts = texts_from(ly.lines@, start);
                                r matches PlainView::Lines(v) && v.deep_view() == (if reverse {
                                    texts.reverse()
                                } else {
                                    texts
                                })
                            },
                        }
                    } else {
                        let texts = texts_from(ly.lines@, 0);
                        r matches PlainView::Lines(v) && v.deep_view() == (if reverse {
                            texts.reverse()
                        } else {
                            texts
                        })
                    }
                },
            }
        }),
{
    let ly = match &state.lyrics {
        Some(ly) => ly,
        None => {
            return PlainView::NoLyrics;
        },
    };
    let start: usize = if from_current && ly.synced {
        let n = match np {
            Some(n) => n,
            None => {
                return PlainView::NothingPlaying;
            },
        };
        let adjusted = adjust_progress(n.progress_ms, offset_ms);
        match current_line_index(ly.lines.as_slice(), adjusted) {
            Some(i) => i,
            None => 0,
        }
    } else {
        0
    };
    PlainView::Lines(collect_texts(&ly.lines, start, reverse))
}

} // verus!

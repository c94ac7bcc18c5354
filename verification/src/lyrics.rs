//! The lyrics engine: the LRC line grammar (`[mm:ss.frac]text`), its parser,
//! the plain-text fallback, and the lookup from elapsed playback time to the
//! active lyric line.
use vstd::prelude::*;
use crate::text::{
    all_digits, all_digits_range, chars_to_string, digits_val, find_char, find_char_from,
    lemma_digits_val_bound, parse_u64_range, parse_u64_spec, pow10, str_to_chars, trim_range,
    trim_spec,
};

verus! {

/// One lyric line: its timestamp in milliseconds (zero when the lyrics are
/// not synced) and its text.
#[derive(Clone)]
pub struct LyricLine {
    pub time_ms: u64,
    pub text: String,
}

/// A track's lyrics: when `synced` is true every line carries a timestamp
/// and the sequence is trusted to be non-decreasing in time; when false the
/// timestamps are meaningless and set to zero.
#[derive(Clone)]
pub struct Lyrics {
    pub synced: bool,
    pub lines: Vec<LyricLine>,
}

/// The mathematical model of a lyric line: timestamp and text.
pub open spec fn line_model(l: LyricLine) -> (u64, Seq<char>) {
    (l.time_ms, l.text@)
}

pub open spec fn lines_model(ls: Seq<LyricLine>) -> Seq<(u64, Seq<char>)> {
    ls.map_values(|l: LyricLine| line_model(l))
}

/// A line with its trailing carriage return removed, as `str::lines`
/// treats a `\r\n` ending.
pub open spec fn strip_cr(line: Seq<char>) -> Seq<char> {
    if line.len() > 0 && line.last() == '\r' {
        line.drop_last()
    } else {
        line
    }
}

/// The lines of `s` from position `pos` on: pieces split at `'\n'`, each
/// with a trailing `'\r'` removed, the final piece kept as it stands, and
/// no empty piece after a final line ending.
pub open spec fn lines_from(s: Seq<char>, pos: int) -> Seq<Seq<char>>
    decreases s.len() - pos,
    via lines_from_decreases
{
    if pos < 0 || pos >= s.len() {
        Seq::empty()
    } else {
        match find_char_from(s, '\n', pos) {
            None => seq![s.subrange(pos, s.len() as int)],
            Some(i) => seq![strip_cr(s.subrange(pos, i))] + lines_from(s, i + 1),
        }
    }
}

#[via_fn]
proof fn lines_from_decreases(s: Seq<char>, pos: int) {
    crate::text::lemma_find_char_from(s, '\n', pos);
}

/// The lines of a lyric blob, as `str::lines` yields them.
pub open spec fn lines_spec(s: Seq<char>) -> Seq<Seq<char>> {
    lines_from(s, 0)
}

/// The fraction of an LRC timestamp normalized to milliseconds by its
/// digit count: one digit is tenths, two are hundredths, three are
/// milliseconds, and a longer fraction is truncated to its first three
/// digits.
pub open spec fn frac_ms_spec(frac_str: Seq<char>) -> nat {
    if frac_str.len() == 1 {
        digits_val(frac_str) * 100
    } else if frac_str.len() == 2 {
        digits_val(frac_str) * 10
    } else {
        digits_val(frac_str.subrange(0, 3))
    }
}

/// The millisecond value of an LRC timestamp body `mm:ss.frac`: minutes
/// and seconds by their decimal value, the fraction normalized by
/// `frac_ms_spec`. Nothing when a part is empty, holds a non-digit, or
/// the total overflows a `u64`.
pub open spec fn lrc_time_spec(ts: Seq<char>) -> Option<u64> {
    match find_char_from(ts, ':', 0) {
        None => None,
        Some(k) => {
            let min_str = ts.subrange(0, k);
            let rest = ts.subrange(k + 1, ts.len() as int);
            match find_char_from(rest, '.', 0) {
                None => None,
                Some(m) => {
                    let sec_str = rest.subrange(0, m);
                    let frac_str = rest.subrange(m + 1, rest.len() as int);
                    if frac_str.len() == 0 || !all_digits(frac_str) {
                        None
                    } else {
                        match (parse_u64_spec(min_str), parse_u64_spec(sec_str)) {
                            (Some(min), Some(sec)) => {
                                let total: nat = min as nat * 60000 + sec as nat * 1000
                                    + frac_ms_spec(frac_str);
                                if total <= u64::MAX {
                                    Some(total as u64)
                                } else {
                                    None
                                }
                            },
                            _ => None,
                        }
                    }
                },
            }
        },
    }
}

/// What one source line contributes: a timestamp and trimmed text when the
/// line has the bracketed form `[mm:ss.frac]text`, nothing otherwise.
pub open spec fn lrc_line_spec(line: Seq<char>) -> Option<(u64, Seq<char>)> {
    if line.len() == 0 || line[0] != '[' {
        None
    } else {
        let rest = line.subrange(1, line.len() as int);
        match find_char_from(rest, ']', 0) {
            None => None,
            Some(j) => {
                let time_str = rest.subrange(0, j);
                let text = rest.subrange(j + 1, rest.len() as int);
                match lrc_time_spec(time_str) {
                    None => None,
                    Some(t) => Some((t, trim_spec(text))),
                }
            },
        }
    }
}

/// The parsed lines of a lyric blob, in source order, lines that do not
/// match the bracket form silently dropped.
pub open spec fn parse_lrc_lines(ls: Seq<Seq<char>>) -> Seq<(u64, Seq<char>)>
    decreases ls.len(),
{
    if ls.len() == 0 {
        Seq::empty()
    } else {
        match lrc_line_spec(ls.first()) {
            None => parse_lrc_lines(ls.drop_first()),
            Some(p) => seq![p] + parse_lrc_lines(ls.drop_first()),
        }
    }
}

pub open spec fn parse_lrc_spec(s: Seq<char>) -> Seq<(u64, Seq<char>)> {
    parse_lrc_lines(lines_spec(s))
}

/// Finding a character inside a subrange: the positions shift by the
/// subrange's start.
proof fn lemma_find_in_subrange(s: Seq<char>, c: char, lo: int, hi: int, from: int)
    requires
        0 <= lo <= from <= hi <= s.len(),
    ensures
        ({
            let sub = s.subrange(lo, hi);
            match find_char_from(sub, c, from - lo) {
                None => find_char_from(s.subrange(0, hi), c, from) is None,
                Some(j) => find_char_from(s.subrange(0, hi), c, from) == Some(j + lo),
            }
        }),
    decreases hi - from,
{
    let sub = s.subrange(lo, hi);
    let pre = s.subrange(0, hi);
    if from < hi {
        assert(sub[from - lo] == s[from]);
        assert(pre[from] == s[from]);
        if s[from] != c {
            lemma_find_in_subrange(s, c, lo, hi, from + 1);
        }
    }
}

/// Parses the LRC timestamp body in `ts[lo..hi]` (between the brackets).
fn parse_lrc_time(ts: &[char], lo: usize, hi: usize) -> (r: Option<u64>)
    requires
        lo <= hi <= ts@.len(),
    ensures
        r == lrc_time_spec(ts@.subrange(lo as int, hi as int)),
{
    let ghost sub = ts@.subrange(lo as int, hi as int);
    let k_abs = match find_char(ts, ':', lo, hi) {
        Some(k) => k,
        None => {
            proof {
                lemma_find_in_subrange(ts@, ':', lo as int, hi as int, lo as int);
            }
            return None;
        },
    };
    proof {
        lemma_find_in_subrange(ts@, ':', lo as int, hi as int, lo as int);
    }
    let ghost k = k_abs - lo;
    let ghost min_str = sub.subrange(0, k as int);
    let ghost rest = sub.subrange(k + 1, sub.len() as int);
    proof {
        assert(min_str =~= ts@.subrange(lo as int, k_abs as int));
        assert(rest =~= ts@.subrange(k_abs + 1, hi as int));
    }
    let m_abs = match find_char(ts, '.', k_abs + 1, hi) {
        Some(m) => m,
        None => {
            proof {
                lemma_find_in_subrange(ts@, '.', k_abs + 1, hi as int, k_abs + 1);
            }
            return None;
        },
    };
    proof {
        lemma_find_in_subrange(ts@, '.', k_abs + 1, hi as int, k_abs + 1);
    }
    let ghost m = m_abs - (k_abs + 1);
    let ghost sec_str = rest.subrange(0, m as int);
    let ghost frac_str = rest.subrange(m + 1, rest.len() as int);
    proof {
        assert(sec_str =~= ts@.subrange(k_abs + 1, m_abs as int));
        assert(frac_str =~= ts@.subrange(m_abs + 1, hi as int));
    }
    let frac_from = m_abs + 1;
    let frac_len = hi - frac_from;
    if frac_len == 0 || !all_digits_range(ts, frac_from, hi) {
        return None;
    }
    let frac_ms: u64;
    if frac_len == 1 {
        proof {
            lemma_digits_val_bound(frac_str);
            assert(pow10(1) == 10 * pow10(0));
        }
        match parse_u64_range(ts, frac_from, hi) {
            Some(v) => {
                frac_ms = v * 100;
            },
            None => {
                proof {
                    assert(false);
                }
                return None;
            },
        }
    } else if frac_len == 2 {
        proof {
            lemma_digits_val_bound(frac_str);
            assert(pow10(2) == 10 * pow10(1));
            assert(pow10(1) == 10 * pow10(0));
        }
        match parse_u64_range(ts, frac_from, hi) {
            Some(v) => {
                frac_ms = v * 10;
            },
            None => {
                proof {
                    assert(false);
                }
                return None;
            },
        }
    } else {
        let ghost frac3 = frac_str.subrange(0, 3);
        proof {
            assert(frac3 =~= ts@.subrange(frac_from as int, frac_from + 3));
            assert(all_digits(frac3)) by {
                assert(forall|j: int| 0 <= j < 3 ==> frac3[j] == frac_str[j]);
            }
            lemma_digits_val_bound(frac3);
            assert(pow10(3) == 10 * pow10(2));
            assert(pow10(2) == 10 * pow10(1));
            assert(pow10(1) == 10 * pow10(0));
        }
        match parse_u64_range(ts, frac_from, frac_from + 3) {
            Some(v) => {
                frac_ms = v;
            },
            None => {
                proof {
                    assert(false);
                }
                return None;
            },
        }
    }
    proof {
        assert(frac_ms as nat == frac_ms_spec(frac_str));
    }
    let min = match parse_u64_range(ts, lo, k_abs) {
        Some(v) => v,
        None => { return None; },
    };
    let sec = match parse_u64_range(ts, k_abs + 1, m_abs) {
        Some(v) => v,
        None => { return None; },
    };
    let min_part = match min.checked_mul(60000) {
        Some(v) => v,
        None => { return None; },
    };
    let sec_part = match sec.checked_mul(1000) {
        Some(v) => v,
        None => { return None; },
    };
    let a = match min_part.checked_add(sec_part) {
        Some(v) => v,
        None => { return None; },
    };
    let total = match a.checked_add(frac_ms) {
        Some(v) => v,
        None => { return None; },
    };
    Some(total)
}

/// Parses one source line `line[lo..hi]` of an LRC blob.
fn parse_lrc_line(line: &[char], lo: usize, hi: usize) -> (r: Option<LyricLine>)
    requires
        lo <= hi <= line@.len(),
    ensures
        ({
            let spec = lrc_line_spec(line@.subrange(lo as int, hi as int));
            match r {
                None => spec is None,
                Some(l) => spec == Some(line_model(l)),
            }
        }),
{
    let ghost sub = line@.subrange(lo as int, hi as int);
    if lo == hi || line[lo] != '[' {
        return None;
    }
    let ghost rest = sub.subrange(1, sub.len() as int);
    proof {
        assert(rest =~= line@.subrange(lo + 1, hi as int));
    }
    let j_abs = match find_char(line, ']', lo + 1, hi) {
        Some(j) => j,
        None => {
            proof {
                lemma_find_in_subrange(line@, ']', lo + 1, hi as int, lo + 1);
            }
            return None;
        },
    };
    proof {
        lemma_find_in_subrange(line@, ']', lo + 1, hi as int, lo + 1);
    }
    let ghost j = j_abs - (lo + 1);
    let ghost time_str = rest.subrange(0, j as int);
    let ghost text = rest.subrange(j + 1, rest.len() as int);
    proof {
        assert(time_str =~= line@.subrange(lo + 1, j_abs as int));
        assert(text =~= line@.subrange(j_abs + 1, hi as int));
    }
    let t = match parse_lrc_time(line, lo + 1, j_abs) {
        Some(t) => t,
        None => { return None; },
    };
    let (tlo, thi) = trim_range(line, j_abs + 1, hi);
    let text_string = chars_to_string(line, tlo, thi);
    Some(LyricLine { time_ms: t, text: text_string })
}

/// Parses a time-tagged lyric blob: one `LyricLine` per source line of the
/// bracketed form, in source order, other lines dropped.
pub fn parse_lrc(lrc: &str) -> (r: Vec<LyricLine>)
    ensures
        lines_model(r@) == parse_lrc_spec(lrc@),
{
    let chars = str_to_chars(lrc);
    let n = chars.len();
    let mut out: Vec<LyricLine> = Vec::new();
    let mut pos: usize = 0;
    while pos < n
        invariant
            pos <= n == chars@.len(),
            chars@ == lrc@,
            lines_model(out@) + parse_lrc_lines(lines_from(chars@, pos as int))
                =~= parse_lrc_spec(lrc@),
        decreases n - pos,
    {
        let ghost tail = lines_from(chars@, pos as int);
        let parsed;
        let next_pos;
        let ghost line_piece: Seq<char>;
        match find_char(&chars, '\n', pos, n) {
            Some(i) => {
                proof {
                    assert(chars@.subrange(0, n as int) =~= chars@);
                }
                let mut hi = i;
                if hi > pos && chars[hi - 1] == '\r' {
                    hi = hi - 1;
                    proof {
                        assert(chars@.subrange(pos as int, i as int).last() == '\r');
                        assert(strip_cr(chars@.subrange(pos as int, i as int))
                            =~= chars@.subrange(pos as int, hi as int));
                    }
                } else {
                    proof {
                        assert(strip_cr(chars@.subrange(pos as int, i as int))
                            =~= chars@.subrange(pos as int, hi as int));
                    }
                }
                proof {
                    line_piece = chars@.subrange(pos as int, hi as int);
                    assert(tail =~= seq![line_piece] + lines_from(chars@, i + 1));
                }
                parsed = parse_lrc_line(&chars, pos, hi);
                next_pos = i + 1;
            },
            None => {
                proof {
                    assert(chars@.subrange(0, n as int) =~= chars@);
                    line_piece = chars@.subrange(pos as int, n as int);
                    assert(tail =~= seq![line_piece] + lines_from(chars@, n as int));
                    assert(lines_from(chars@, n as int) =~= Seq::<Seq<char>>::empty());
                }
                parsed = parse_lrc_line(&chars, pos, n);
                next_pos = n;
            },
        }
        proof {
            let rest_lines = lines_from(chars@, next_pos as int);
            assert((seq![line_piece] + rest_lines).first() == line_piece);
            assert((seq![line_piece] + rest_lines).drop_first() =~= rest_lines);
        }
        match parsed {
            Some(l) => {
                let ghost out0 = out@;
                out.push(l);
                proof {
                    assert(lines_model(out@) =~= lines_model(out0) + seq![line_model(l)]);
                }
            },
            None => {},
        }
        pos = next_pos;
    }
    proof {
        assert(lines_from(chars@, pos as int) =~= Seq::<Seq<char>>::empty());
        assert(lines_model(out@) =~= parse_lrc_spec(lrc@));
    }
    out
}

/// True when the timestamps never decrease from one line to the next, the
/// order a synced lyric source is trusted to have.
pub open spec fn time_sorted(ls: Seq<LyricLine>) -> bool {
    forall|i: int, j: int| 0 <= i <= j < ls.len() ==> ls[i].time_ms <= ls[j].time_ms
}

/// The length of the leading run of lines whose timestamps have been
/// reached at `progress_ms`.
pub open spec fn reached_run(ls: Seq<LyricLine>, progress_ms: u64) -> int
    decreases ls.len(),
{
    if ls.len() == 0 || ls[0].time_ms > progress_ms {
        0
    } else {
        1 + reached_run(ls.drop_first(), progress_ms)
    }
}

/// The index of the active lyric line at `progress_ms`: the last line of
/// the leading run whose timestamps have been reached, nothing when that
/// run is empty.
pub open spec fn current_index_spec(ls: Seq<LyricLine>, progress_ms: u64) -> Option<int> {
    if reached_run(ls, progress_ms) == 0 {
        None
    } else {
        Some(reached_run(ls, progress_ms) - 1)
    }
}

/// The leading reached run is exactly the prefix before the first line
/// whose timestamp is still in the future.
pub proof fn lemma_reached_run(ls: Seq<LyricLine>, progress_ms: u64)
    ensures
        0 <= reached_run(ls, progress_ms) <= ls.len(),
        forall|j: int| 0 <= j < reached_run(ls, progress_ms) ==> #[trigger] ls[j].time_ms
            <= progress_ms,
        reached_run(ls, progress_ms) < ls.len() ==> ls[reached_run(ls, progress_ms)].time_ms
            > progress_ms,
    decreases ls.len(),
{
    if ls.len() > 0 && ls[0].time_ms <= progress_ms {
        lemma_reached_run(ls.drop_first(), progress_ms);
        let k = reached_run(ls.drop_first(), progress_ms);
        assert(forall|j: int| 1 <= j < 1 + k ==> ls[j] == ls.drop_first()[j - 1]);
        if 1 + k < ls.len() {
            assert(ls[1 + k] == ls.drop_first()[k]);
        }
    }
}

/// The index of the active lyric line at `progress_ms`: the last line of
/// the leading run of lines whose timestamps have been reached. Nothing
/// when there are no lines or even the first line is still in the future.
/// On a time-sorted sequence this is the greatest index whose timestamp
/// does not exceed `progress_ms`, ties resolving to the later index.
pub fn current_line_index(lines: &[LyricLine], progress_ms: u64) -> (r: Option<usize>)
    ensures
        r is Some <==> current_index_spec(lines@, progress_ms) is Some,
        r matches Some(i) ==> current_index_spec(lines@, progress_ms) == Some(i as int),
        r is Some <==> lines@.len() > 0 && lines@[0].time_ms <= progress_ms,
        r matches Some(i) ==> {
            &&& i < lines@.len()
            &&& forall|j: int| 0 <= j <= i ==> #[trigger] lines@[j].time_ms <= progress_ms
            &&& i + 1 < lines@.len() ==> lines@[i + 1].time_ms > progress_ms
            &&& time_sorted(lines@) ==> forall|j: int|
                i < j < lines@.len() ==> #[trigger] lines@[j].time_ms > progress_ms
        },
{
    proof {
        lemma_reached_run(lines@, progress_ms);
    }
    if lines.len() == 0 || lines[0].time_ms > progress_ms {
        return None;
    }
    let ghost run = reached_run(lines@, progress_ms);
    let mut idx: usize = 0;
    let mut i: usize = 1;
    while i < lines.len()
        invariant
            idx < i <= lines@.len(),
            idx + 1 == i,
            i <= run,
            0 < run <= lines@.len(),
            run == reached_run(lines@, progress_ms),
            forall|j: int| 0 <= j <= idx ==> #[trigger] lines@[j].time_ms <= progress_ms,
        decreases lines@.len() - i,
    {
        proof {
            lemma_reached_run(lines@, progress_ms);
        }
        if lines[i].time_ms <= progress_ms {
            proof {
                if i >= run {
                    assert(lines@[run].time_ms > progress_ms);
                }
            }
            idx = i;
        } else {
            proof {
                if i > run {
                    assert(lines@[run].time_ms > progress_ms);
                } else if i < run {
                    assert(lines@[i as int].time_ms <= progress_ms);
                }
            }
            return Some(idx);
        }
        i = i + 1;
    }
    proof {
        assert(run == lines@.len());
    }
    Some(idx)
}

/// Splits a plain (unsynced) lyric blob into lines, each with timestamp
/// zero.
pub fn split_plain_lines(plain: &str) -> (r: Vec<LyricLine>)
    ensures
        lines_model(r@) == lines_spec(plain@).map_values(|t: Seq<char>| (0u64, t)),
{
    let chars = str_to_chars(plain);
    let n = chars.len();
    let mut out: Vec<LyricLine> = Vec::new();
    let mut pos: usize = 0;
    let ghost target = lines_spec(plain@).map_values(|t: Seq<char>| (0u64, t));
    while pos < n
        invariant
            pos <= n == chars@.len(),
            chars@ == plain@,
            target == lines_spec(plain@).map_values(|t: Seq<char>| (0u64, t)),
            lines_model(out@) + lines_from(chars@, pos as int).map_values(
                |t: Seq<char>| (0u64, t),
            ) =~= target,
        decreases n - pos,
    {
        let ghost tail = lines_from(chars@, pos as int);
        let hi;
        let next_pos;
        match find_char(&chars, '\n', pos, n) {
            Some(i) => {
                proof {
                    assert(chars@.subrange(0, n as int) =~= chars@);
                }
                let mut h = i;
                if h > pos && chars[h - 1] == '\r' {
                    h = h - 1;
                }
                proof {
                    assert(strip_cr(chars@.subrange(pos as int, i as int))
                        =~= chars@.subrange(pos as int, h as int));
                }
                hi = h;
                next_pos = i + 1;
            },
            None => {
                proof {
                    assert(chars@.subrange(0, n as int) =~= chars@);
                    assert(lines_from(chars@, n as int) =~= Seq::<Seq<char>>::empty());
                }
                hi = n;
                next_pos = n;
            },
        }
        let ghost line_piece = chars@.subrange(pos as int, hi as int);
        proof {
            assert(tail =~= seq![line_piece] + lines_from(chars@, next_pos as int));
        }
        let text = chars_to_string(&chars, pos, hi);
        let ghost out0 = out@;
        out.push(LyricLine { time_ms: 0, text });
        proof {
            let rest_lines = lines_from(chars@, next_pos as int);
            assert(lines_model(out@) =~= lines_model(out0) + seq![(0u64, line_piece)]);
            assert(tail.map_values(|t: Seq<char>| (0u64, t))
                =~= seq![(0u64, line_piece)] + rest_lines.map_values(|t: Seq<char>| (0u64, t)));
        }
        pos = next_pos;
    }
    proof {
        assert(lines_from(chars@, pos as int) =~= Seq::<Seq<char>>::empty());
        assert(lines_model(out@) =~= target);
    }
    out
}

/// Builds the lyrics for a track from what the lookup service returned:
/// a time-tagged blob that parses to at least one line wins as synced
/// lyrics; otherwise a plain blob is split into unsynced lines; otherwise
/// there are no lyrics.
pub fn lyrics_from_response(synced_lyrics: Option<&str>, plain_lyrics: Option<&str>) -> (r: Option<
    Lyrics,
>)
    ensures
        ({
            match synced_lyrics {
                Some(sl) if parse_lrc_spec(sl@).len() > 0 => {
                    &&& r is Some
                    &&& r->0.synced == true
                    &&& lines_model(r->0.lines@) == parse_lrc_spec(sl@)
                },
                _ => {
                    match plain_lyrics {
                        Some(pl) => {
                            &&& r is Some
                            &&& r->0.synced == false
                            &&& lines_model(r->0.lines@) == lines_spec(pl@).map_values(
                                |t: Seq<char>| (0u64, t),
                            )
                        },
                        None => r is None,
                    }
                },
            }
        }),
{
    if let Some(sl) = synced_lyrics {
        let lines = parse_lrc(sl);
        if lines.len() > 0 {
            proof {
                assert(parse_lrc_spec(sl@).len() > 0);
            }
            return Some(Lyrics { synced: true, lines });
        }
    }
    match plain_lyrics {
        Some(pl) => {
            let lines = split_plain_lines(pl);
            Some(Lyrics { synced: false, lines })
        },
        None => None,
    }
}

} // verus!

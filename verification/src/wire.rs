//! The line-delimited JSON wire protocol served over the local socket:
//! emitting the state snapshot and the command responses, and parsing the
//! command envelope `{"cmd": ..., "arg": ...}`.
use vstd::prelude::*;
use crate::lyrics::Lyrics;
use crate::spotify::{DeviceInfo, NowPlaying, PlayContext, State};
use crate::text::{append_str, append_u64, dec_digits, digit_char, is_digit_char, push_char, str_eq, str_to_chars};

verus! {

/// The hexadecimal digit character for a value below sixteen.
pub open spec fn hex_digit(d: nat) -> char {
    if d < 10 {
        digit_char(d)
    } else if d == 10 { 'a' } else if d == 11 { 'b' } else if d == 12 { 'c' } else if d == 13 {
        'd'
    } else if d == 14 { 'e' } else { 'f' }
}

fn hex_digit_of(d: u32) -> (c: char)
    requires
        d < 16,
    ensures
        c == hex_digit(d as nat),
{
    if d < 10 {
        crate::text::digit_char_of(d as u64)
    } else if d == 10 { 'a' } else if d == 11 { 'b' } else if d == 12 { 'c' } else if d == 13 {
        'd'
    } else if d == 14 { 'e' } else { 'f' }
}

/// How one character is written inside a JSON string: quote and backslash
/// escaped, the named control escapes for newline, carriage return, tab,
/// backspace and form feed, `\u00XX` for the other control characters, and
/// every other character as itself.
pub open spec fn esc_char(c: char) -> Seq<char> {
    if c == '"' {
        seq!['\\', '"']
    } else if c == '\\' {
        seq!['\\', '\\']
    } else if c == '\n' {
        seq!['\\', 'n']
    } else if c == '\r' {
        seq!['\\', 'r']
    } else if c == '\t' {
        seq!['\\', 't']
    } else if c == '\u{8}' {
        seq!['\\', 'b']
    } else if c == '\u{c}' {
        seq!['\\', 'f']
    } else if (c as u32) < 0x20 {
        seq!['\\', 'u', '0', '0', hex_digit(((c as u32) / 16) as nat), hex_digit(
            ((c as u32) % 16) as nat,
        )]
    } else {
        seq![c]
    }
}

/// A string's characters with each escaped for JSON.
pub open spec fn json_escape(s: Seq<char>) -> Seq<char>
    decreases s.len(),
{
    if s.len() == 0 {
        Seq::empty()
    } else {
        esc_char(s[0]) + json_escape(s.drop_first())
    }
}

proof fn lemma_json_escape_push(s: Seq<char>, c: char)
    ensures
        json_escape(s.push(c)) == json_escape(s) + esc_char(c),
    decreases s.len(),
{
    if s.len() == 0 {
        let e = s.push(c);
        assert(e[0] == c);
        assert(e.drop_first() =~= Seq::<char>::empty());
        assert(json_escape(e) == esc_char(c) + json_escape(Seq::<char>::empty()));
        assert(esc_char(c) + Seq::<char>::empty() =~= esc_char(c));
        assert(Seq::<char>::empty() + esc_char(c) =~= esc_char(c));
    } else {
        lemma_json_escape_push(s.drop_first(), c);
        assert(s.push(c).drop_first() =~= s.drop_first().push(c));
        assert(s.push(c)[0] == s[0]);
        assert(esc_char(s[0]) + (json_escape(s.drop_first()) + esc_char(c)) =~= (esc_char(s[0])
            + json_escape(s.drop_first())) + esc_char(c));
    }
}

/// Appends `esc_char(c)` to `out`.
fn append_escaped_char(out: &mut String, c: char)
    ensures
        final(out)@ == old(out)@ + esc_char(c),
{
    if c == '"' {
        push_char(out, '\\');
        push_char(out, '"');
    } else if c == '\\' {
        push_char(out, '\\');
        push_char(out, '\\');
    } else if c == '\n' {
        push_char(out, '\\');
        push_char(out, 'n');
    } else if c == '\r' {
        push_char(out, '\\');
        push_char(out, 'r');
    } else if c == '\t' {
        push_char(out, '\\');
        push_char(out, 't');
    } else if c == '\u{8}' {
        push_char(out, '\\');
        push_char(out, 'b');
    } else if c == '\u{c}' {
        push_char(out, '\\');
        push_char(out, 'f');
    } else if (c as u32) < 0x20 {
        push_char(out, '\\');
        push_char(out, 'u');
        push_char(out, '0');
        push_char(out, '0');
        push_char(out, hex_digit_of((c as u32) / 16));
        push_char(out, hex_digit_of((c as u32) % 16));
    } else {
        push_char(out, c);
    }
    proof {
        assert(out@ =~= old(out)@ + esc_char(c));
    }
}

/// The JSON rendering of a string: quoted and escaped.
pub open spec fn json_string(s: Seq<char>) -> Seq<char> {
    seq!['"'] + json_escape(s) + seq!['"']
}

/// Appends the JSON rendering of the string `s` to `out`.
fn append_json_string(out: &mut String, s: &str)
    ensures
        final(out)@ == old(out)@ + json_string(s@),
{
    push_char(out, '"');
    let n = s.unicode_len();
    let mut i: usize = 0;
    while i < n
        invariant
            i <= n == s@.len(),
            out@ == old(out)@ + seq!['"'] + json_escape(s@.take(i as int)),
        decreases n - i,
    {
        let c = s.get_char(i);
        append_escaped_char(out, c);
        proof {
            assert(s@.take(i + 1) =~= s@.take(i as int).push(s@[i as int]));
            lemma_json_escape_push(s@.take(i as int), s@[i as int]);
        }
        i = i + 1;
    }
    push_char(out, '"');
    proof {
        assert(s@.take(n as int) =~= s@);
        assert(out@ =~= old(out)@ + json_string(s@));
    }
}

/// The JSON rendering of an optional string: `null` when absent.
pub open spec fn json_opt_string(o: Option<Seq<char>>) -> Seq<char> {
    match o {
        Some(s) => json_string(s),
        None => "null"@,
    }
}

fn append_json_opt_string(out: &mut String, o: &Option<String>)
    ensures
        final(out)@ == old(out)@ + json_opt_string(match o {
            Some(s) => Some(s@),
            None => None,
        }),
{
    match o {
        Some(s) => append_json_string(out, s.as_str()),
        None => {
            append_str(out, "null");
            proof {
                reveal_strlit("null");
            }
        },
    }
}

/// The JSON rendering of a boolean.
pub open spec fn json_bool(b: bool) -> Seq<char> {
    if b {
        "true"@
    } else {
        "false"@
    }
}

fn append_json_bool(out: &mut String, b: bool)
    ensures
        final(out)@ == old(out)@ + json_bool(b),
{
    if b {
        append_str(out, "true");
        proof {
            reveal_strlit("true");
        }
    } else {
        append_str(out, "false");
        proof {
            reveal_strlit("false");
        }
    }
}

/// The JSON shape of the device record.
pub open spec fn device_json(d: DeviceInfo) -> Seq<char> {
    "{\"name\":"@ + json_string(d.name@) + ",\"device_type\":"@ + json_string(d.device_type@)
        + ",\"volume\":"@ + (match d.volume {
        Some(v) => dec_digits(v as nat),
        None => "null"@,
    }) + "}"@
}

fn append_device_json(out: &mut String, d: &DeviceInfo)
    ensures
        final(out)@ == old(out)@ + device_json(*d),
{
    proof {
        reveal_strlit("{\"name\":");
        reveal_strlit(",\"device_type\":");
        reveal_strlit(",\"volume\":");
        reveal_strlit("null");
        reveal_strlit("}");
    }
    append_str(out, "{\"name\":");
    append_json_string(out, d.name.as_str());
    append_str(out, ",\"device_type\":");
    append_json_string(out, d.device_type.as_str());
    append_str(out, ",\"volume\":");
    match d.volume {
        Some(v) => append_u64(out, v as u64),
        None => append_str(out, "null"),
    }
    append_str(out, "}");
    proof {
        assert(out@ =~= old(out)@ + device_json(*d));
    }
}

/// The JSON shape of the playback context record.
pub open spec fn context_json(c: PlayContext) -> Seq<char> {
    "{\"context_type\":"@ + json_string(c.context_type@) + ",\"uri\":"@ + json_string(c.uri@)
        + "}"@
}

fn append_context_json(out: &mut String, c: &PlayContext)
    ensures
        final(out)@ == old(out)@ + context_json(*c),
{
    proof {
        reveal_strlit("{\"context_type\":");
        reveal_strlit(",\"uri\":");
        reveal_strlit("}");
    }
    append_str(out, "{\"context_type\":");
    append_json_string(out, c.context_type.as_str());
    append_str(out, ",\"uri\":");
    append_json_string(out, c.uri.as_str());
    append_str(out, "}");
    proof {
        assert(out@ =~= old(out)@ + context_json(*c));
    }
}

/// The identity fields of the `NowPlaying` JSON shape.
pub open spec fn np_json_identity(np: NowPlaying) -> Seq<char> {
    "{\"artist\":"@ + json_string(np.artist@) + ",\"track\":"@ + json_string(np.track@)
        + ",\"album\":"@ + json_string(np.album@) + ",\"album_art\":"@ + json_opt_string(
        match np.album_art {
            Some(s) => Some(s@),
            None => None,
        },
    ) + ",\"popularity\":"@ + dec_digits(np.popularity as nat) + ",\"explicit\":"@ + json_bool(
        np.explicit,
    ) + ",\"spotify_url\":"@ + json_opt_string(match np.spotify_url {
        Some(s) => Some(s@),
        None => None,
    })
}

/// The timing fields of the `NowPlaying` JSON shape.
pub open spec fn np_json_timing(np: NowPlaying) -> Seq<char> {
    ",\"progress_ms\":"@ + dec_digits(np.progress_ms as nat) + ",\"progress\":"@ + json_string(
        np.progress@,
    ) + ",\"duration_ms\":"@ + dec_digits(np.duration_ms as nat) + ",\"duration\":"@
        + json_string(np.duration@)
}

/// The mode and device fields of the `NowPlaying` JSON shape.
pub open spec fn np_json_mode(np: NowPlaying) -> Seq<char> {
    ",\"is_playing\":"@ + json_bool(np.is_playing) + ",\"device\":"@ + (match np.device {
        Some(d) => device_json(d),
        None => "null"@,
    }) + ",\"shuffle\":"@ + json_bool(np.shuffle) + ",\"repeat\":"@ + json_string(np.repeat@)
        + ",\"context\":"@ + (match np.context {
        Some(c) => context_json(c),
        None => "null"@,
    }) + "}"@
}

/// The JSON shape of a `NowPlaying` record, fields in declaration order.
pub open spec fn now_playing_json(np: NowPlaying) -> Seq<char> {
    np_json_identity(np) + np_json_timing(np) + np_json_mode(np)
}

#[verifier::rlimit(30)]
fn append_np_identity(out: &mut String, np: &NowPlaying)
    ensures
        final(out)@ == old(out)@ + np_json_identity(*np),
{
    proof {
        reveal_strlit("{\"artist\":");
        reveal_strlit(",\"track\":");
        reveal_strlit(",\"album\":");
        reveal_strlit(",\"album_art\":");
        reveal_strlit(",\"popularity\":");
        reveal_strlit(",\"explicit\":");
        reveal_strlit(",\"spotify_url\":");
    }
    append_str(out, "{\"artist\":");
    append_json_string(out, np.artist.as_str());
    append_str(out, ",\"track\":");
    append_json_string(out, np.track.as_str());
    append_str(out, ",\"album\":");
    append_json_string(out, np.album.as_str());
    append_str(out, ",\"album_art\":");
    append_json_opt_string(out, &np.album_art);
    append_str(out, ",\"popularity\":");
    append_u64(out, np.popularity as u64);
    append_str(out, ",\"explicit\":");
    append_json_bool(out, np.explicit);
    append_str(out, ",\"spotify_url\":");
    append_json_opt_string(out, &np.spotify_url);
    proof {
        assert(out@ =~= old(out)@ + np_json_identity(*np));
    }
}

#[verifier::rlimit(30)]
fn append_np_timing(out: &mut String, np: &NowPlaying)
    ensures
        final(out)@ == old(out)@ + np_json_timing(*np),
{
    proof {
        reveal_strlit(",\"progress_ms\":");
        reveal_strlit(",\"progress\":");
        reveal_strlit(",\"duration_ms\":");
        reveal_strlit(",\"duration\":");
    }
    append_str(out, ",\"progress_ms\":");
    append_u64(out, np.progress_ms);
    append_str(out, ",\"progress\":");
    append_json_string(out, np.progress.as_str());
    append_str(out, ",\"duration_ms\":");
    append_u64(out, np.duration_ms);
    append_str(out, ",\"duration\":");
    append_json_string(out, np.duration.as_str());
    proof {
        assert(out@ =~= old(out)@ + np_json_timing(*np));
    }
}

#[verifier::rlimit(30)]
fn append_np_mode(out: &mut String, np: &NowPlaying)
    ensures
        final(out)@ == old(out)@ + np_json_mode(*np),
{
    proof {
        reveal_strlit(",\"is_playing\":");
        reveal_strlit(",\"device\":");
        reveal_strlit(",\"shuffle\":");
        reveal_strlit(",\"repeat\":");
        reveal_strlit(",\"context\":");
        reveal_strlit("null");
        reveal_strlit("}");
    }
    append_str(out, ",\"is_playing\":");
    append_json_bool(out, np.is_playing);
    append_str(out, ",\"device\":");
    match &np.device {
        Some(d) => append_device_json(out, d),
        None => append_str(out, "null"),
    }
    append_str(out, ",\"shuffle\":");
    append_json_bool(out, np.shuffle);
    append_str(out, ",\"repeat\":");
    append_json_string(out, np.repeat.as_str());
    append_str(out, ",\"context\":");
    match &np.context {
        Some(c) => append_context_json(out, c),
        None => append_str(out, "null"),
    }
    append_str(out, "}");
    proof {
        assert(out@ =~= old(out)@ + np_json_mode(*np));
    }
}

fn append_now_playing_json(out: &mut String, np: &NowPlaying)
    ensures
        final(out)@ == old(out)@ + now_playing_json(*np),
{
    append_np_identity(out, np);
    append_np_timing(out, np);
    append_np_mode(out, np);
    proof {
        assert(out@ =~= old(out)@ + now_playing_json(*np));
    }
}

/// The JSON shape of one lyric line.
pub open spec fn lyric_line_json(l: (u64, Seq<char>)) -> Seq<char> {
    "{\"time_ms\":"@ + dec_digits(l.0 as nat) + ",\"text\":"@ + json_string(l.1) + "}"@
}

/// The JSON array body of the lyric lines, comma separated.
pub open spec fn lyric_lines_json(ls: Seq<(u64, Seq<char>)>) -> Seq<char>
    decreases ls.len(),
{
    if ls.len() == 0 {
        Seq::empty()
    } else if ls.len() == 1 {
        lyric_line_json(ls[0])
    } else {
        lyric_lines_json(ls.drop_last()) + seq![','] + lyric_line_json(ls.last())
    }
}

/// The JSON shape of a lyrics record.
pub open spec fn lyrics_json(synced: bool, ls: Seq<(u64, Seq<char>)>) -> Seq<char> {
    "{\"synced\":"@ + json_bool(synced) + ",\"lines\":["@ + lyric_lines_json(ls) + "]}"@
}

fn append_lyrics_json(out: &mut String, ly: &Lyrics)
    ensures
        final(out)@ == old(out)@ + lyrics_json(ly.synced, crate::lyrics::lines_model(ly.lines@)),
{
    proof {
        reveal_strlit("{\"synced\":");
        reveal_strlit(",\"lines\":[");
        reveal_strlit("{\"time_ms\":");
        reveal_strlit(",\"text\":");
        reveal_strlit("]}");
        reveal_strlit("}");
    }
    let ghost model = crate::lyrics::lines_model(ly.lines@);
    append_str(out, "{\"synced\":");
    append_json_bool(out, ly.synced);
    append_str(out, ",\"lines\":[");
    let ghost mid = old(out)@ + "{\"synced\":"@ + json_bool(ly.synced) + ",\"lines\":["@;
    proof {
        assert(out@ =~= mid);
    }
    let mut i: usize = 0;
    while i < ly.lines.len()
        invariant
            i <= ly.lines@.len(),
            model == crate::lyrics::lines_model(ly.lines@),
            out@ == mid + lyric_lines_json(model.take(i as int)),
        decreases ly.lines@.len() - i,
    {
        if i > 0 {
            push_char(out, ',');
        }
        let line = &ly.lines[i];
        proof {
            reveal_strlit("{\"time_ms\":");
            reveal_strlit(",\"text\":");
            reveal_strlit("}");
        }
        append_str(out, "{\"time_ms\":");
        append_u64(out, line.time_ms);
        append_str(out, ",\"text\":");
        append_json_string(out, line.text.as_str());
        append_str(out, "}");
        proof {
            let t1 = model.take(i + 1);
            assert(t1.drop_last() =~= model.take(i as int));
            assert(t1.last() == model[i as int]);
            assert(model[i as int] == (ly.lines@[i as int].time_ms, ly.lines@[i as int].text@));
            if i == 0 {
                assert(out@ =~= mid + lyric_lines_json(t1));
            } else {
                assert(out@ =~= mid + (lyric_lines_json(model.take(i as int)) + seq![',']
                    + lyric_line_json(model[i as int])));
                assert(out@ =~= mid + lyric_lines_json(t1));
            }
        }
        i = i + 1;
    }
    proof {
        assert(model.take(ly.lines@.len() as int) =~= model);
    }
    append_str(out, "]}");
    proof {
        assert(out@ =~= old(out)@ + lyrics_json(ly.synced, model));
    }
}

/// The JSON wire shape of the state snapshot, as a state read answers it.
pub open spec fn state_json(s: State) -> Seq<char> {
    "{\"now_playing\":"@ + (match s.now_playing {
        Some(np) => now_playing_json(np),
        None => "null"@,
    }) + ",\"fetched_at_ms\":"@ + dec_digits(s.fetched_at_ms as nat) + ",\"lyrics\":"@ + (
    match s.lyrics {
        Some(ly) => lyrics_json(ly.synced, crate::lyrics::lines_model(ly.lines@)),
        None => "null"@,
    }) + "}"@
}

/// Serializes the snapshot to its wire line. A snapshot with nothing
/// playing serializes with `"now_playing":null`.
pub fn state_to_json(s: &State) -> (r: String)
    ensures
        r@ == state_json(*s),
{
    proof {
        reveal_strlit("{\"now_playing\":");
        reveal_strlit(",\"fetched_at_ms\":");
        reveal_strlit(",\"lyrics\":");
        reveal_strlit("null");
        reveal_strlit("}");
    }
    let mut out = String::new();
    append_str(&mut out, "{\"now_playing\":");
    match &s.now_playing {
        Some(np) => append_now_playing_json(&mut out, np),
        None => append_str(&mut out, "null"),
    }
    append_str(&mut out, ",\"fetched_at_ms\":");
    append_u64(&mut out, s.fetched_at_ms);
    append_str(&mut out, ",\"lyrics\":");
    match &s.lyrics {
        Some(ly) => append_lyrics_json(&mut out, ly),
        None => append_str(&mut out, "null"),
    }
    append_str(&mut out, "}");
    proof {
        assert(out@ =~= state_json(*s));
    }
    out
}

/// The wire line answering a command that succeeded.
pub open spec fn ok_response_spec() -> Seq<char> {
    "{\"ok\":true}"@
}

/// The wire line answering a command that failed, carrying the message.
pub open spec fn error_response_spec(msg: Seq<char>) -> Seq<char> {
    "{\"error\":"@ + json_string(msg) + "}"@
}

/// Renders the response line for the outcome the adapter reported: a
/// success marker, or an error marker carrying the message.
pub fn command_result_response(result: &Result<(), String>) -> (r: String)
    ensures
        match result {
            Ok(_) => r@ == ok_response_spec(),
            Err(e) => r@ == error_response_spec(e@),
        },
{
    proof {
        reveal_strlit("{\"ok\":true}");
        reveal_strlit("{\"error\":");
        reveal_strlit("}");
    }
    match result {
        Ok(_) => {
            let mut out = String::new();
            append_str(&mut out, "{\"ok\":true}");
            proof {
                assert(out@ =~= ok_response_spec());
            }
            out
        },
        Err(e) => {
            let mut out = String::new();
            append_str(&mut out, "{\"error\":");
            append_json_string(&mut out, e.as_str());
            append_str(&mut out, "}");
            proof {
                assert(out@ =~= error_response_spec(e@));
            }
            out
        },
    }
}


/// JSON insignificant whitespace.
pub open spec fn is_json_ws(c: char) -> bool {
    c == ' ' || c == '\t' || c == '\n' || c == '\r'
}

/// The first position at or after `i` that does not hold JSON whitespace.
pub open spec fn skip_ws(s: Seq<char>, i: int) -> int
    decreases s.len() - i,
{
    if 0 <= i < s.len() && is_json_ws(s[i]) {
        skip_ws(s, i + 1)
    } else {
        i
    }
}

pub proof fn lemma_skip_ws(s: Seq<char>, i: int)
    ensures
        skip_ws(s, i) >= i,
        0 <= i <= s.len() ==> skip_ws(s, i) <= s.len(),
        0 <= i <= s.len() && skip_ws(s, i) < s.len() ==> !is_json_ws(s[skip_ws(s, i)]),
    decreases s.len() - i,
{
    if 0 <= i < s.len() && is_json_ws(s[i]) {
        lemma_skip_ws(s, i + 1);
    }
}

/// What a backslash escape stands for inside a wire string; the
/// `\uXXXX` form is not part of this protocol's grammar.
pub open spec fn unescape_char(c: char) -> Option<char> {
    if c == '"' {
        Some('"')
    } else if c == '\\' {
        Some('\\')
    } else if c == '/' {
        Some('/')
    } else if c == 'n' {
        Some('\n')
    } else if c == 't' {
        Some('\t')
    } else if c == 'r' {
        Some('\r')
    } else if c == 'b' {
        Some('\u{8}')
    } else if c == 'f' {
        Some('\u{c}')
    } else {
        None
    }
}

/// The value of a hexadecimal digit character.
pub open spec fn hex_val(c: char) -> nat {
    if is_digit_char(c) {
        crate::text::digit_val(c)
    } else if c == 'a' || c == 'A' { 10 } else if c == 'b' || c == 'B' { 11 }
    else if c == 'c' || c == 'C' { 12 } else if c == 'd' || c == 'D' { 13 }
    else if c == 'e' || c == 'E' { 14 } else { 15 }
}

pub open spec fn is_hex_digit(c: char) -> bool {
    is_digit_char(c) || ('a' <= c && c <= 'f') || ('A' <= c && c <= 'F')
}

fn hex_val_of(c: char) -> (r: Option<u8>)
    ensures
        r is Some <==> is_hex_digit(c),
        r matches Some(v) ==> v as nat == hex_val(c) && v < 16,
{
    if '0' <= c && c <= '9' {
        Some((c as u32 - '0' as u32) as u8)
    } else if 'a' <= c && c <= 'f' {
        Some((c as u32 - 'a' as u32) as u8 + 10)
    } else if 'A' <= c && c <= 'F' {
        Some((c as u32 - 'A' as u32) as u8 + 10)
    } else {
        None
    }
}

/// The characters of a quoted string read from position `i` (just after
/// the opening quote) to its closing quote, escapes decoded (the named
/// ones, and `\u00XX` for a character below 0x100), and the position
/// after the closing quote. Nothing on an unterminated string, an
/// escape outside this grammar, or a raw control character.
pub open spec fn parse_string_body(s: Seq<char>, i: int) -> Option<(Seq<char>, int)>
    decreases s.len() - i,
{
    if i < 0 || i >= s.len() {
        None
    } else if s[i] == '"' {
        Some((Seq::empty(), i + 1))
    } else if s[i] == '\\' {
        if i + 1 < s.len() && s[i + 1] == 'u' {
            if i + 5 < s.len() && s[i + 2] == '0' && s[i + 3] == '0' && is_hex_digit(s[i + 4])
                && is_hex_digit(s[i + 5]) {
                let c = ((16 * hex_val(s[i + 4]) + hex_val(s[i + 5])) as u8) as char;
                match parse_string_body(s, i + 6) {
                    Some((t, j)) => Some((seq![c] + t, j)),
                    None => None,
                }
            } else {
                None
            }
        } else if i + 1 < s.len() {
            match unescape_char(s[i + 1]) {
                Some(c) => match parse_string_body(s, i + 2) {
                    Some((t, j)) => Some((seq![c] + t, j)),
                    None => None,
                },
                None => None,
            }
        } else {
            None
        }
    } else if (s[i] as u32) < 0x20 {
        None
    } else {
        match parse_string_body(s, i + 1) {
            Some((t, j)) => Some((seq![s[i]] + t, j)),
            None => None,
        }
    }
}

pub proof fn lemma_parse_string_body(s: Seq<char>, i: int)
    ensures
        parse_string_body(s, i) matches Some(p) ==> i < p.1 <= s.len(),
    decreases s.len() - i,
{
    if 0 <= i < s.len() {
        if s[i] == '\\' {
            if i + 1 < s.len() && s[i + 1] == 'u' {
                if i + 5 < s.len() {
                    lemma_parse_string_body(s, i + 6);
                }
            } else if i + 1 < s.len() {
                lemma_parse_string_body(s, i + 2);
            }
        } else {
            lemma_parse_string_body(s, i + 1);
        }
    }
}

/// A quoted JSON string starting at `i`.
pub open spec fn parse_jstring(s: Seq<char>, i: int) -> Option<(Seq<char>, int)> {
    if 0 <= i < s.len() && s[i] == '"' {
        parse_string_body(s, i + 1)
    } else {
        None
    }
}

pub proof fn lemma_parse_jstring(s: Seq<char>, i: int)
    ensures
        parse_jstring(s, i) matches Some(p) ==> i + 1 < p.1 <= s.len(),
{
    lemma_parse_string_body(s, i + 1);
}

/// A character that can occur in a JSON number token.
pub open spec fn is_number_char(c: char) -> bool {
    crate::text::is_digit_char(c) || c == '-' || c == '+' || c == '.' || c == 'e' || c == 'E'
}

/// The first position at or after `i` past a run of number characters.
pub open spec fn skip_number(s: Seq<char>, i: int) -> int
    decreases s.len() - i,
{
    if 0 <= i < s.len() && is_number_char(s[i]) {
        skip_number(s, i + 1)
    } else {
        i
    }
}

pub proof fn lemma_skip_number(s: Seq<char>, i: int)
    ensures
        skip_number(s, i) >= i,
        0 <= i <= s.len() ==> skip_number(s, i) <= s.len(),
    decreases s.len() - i,
{
    if 0 <= i < s.len() && is_number_char(s[i]) {
        lemma_skip_number(s, i + 1);
    }
}

/// Whether the word `w` occurs in `s` starting at position `i`.
pub open spec fn matches_at(s: Seq<char>, i: int, w: Seq<char>) -> bool {
    i >= 0 && i + w.len() <= s.len() && s.subrange(i, i + w.len()) == w
}

/// A scalar JSON value at position `i`: a string yields its characters,
/// `null`, `true`, `false` and numbers yield no string. The position
/// returned is the one just past the value. Nested arrays and objects are
/// not part of this protocol's grammar.
pub open spec fn parse_jvalue(s: Seq<char>, i: int) -> Option<(Option<Seq<char>>, int)> {
    if i < 0 || i >= s.len() {
        None
    } else if s[i] == '"' {
        match parse_jstring(s, i) {
            Some((t, j)) => Some((Some(t), j)),
            None => None,
        }
    } else if matches_at(s, i, "null"@) {
        Some((None, i + 4))
    } else if matches_at(s, i, "true"@) {
        Some((None, i + 4))
    } else if matches_at(s, i, "false"@) {
        Some((None, i + 5))
    } else if is_number_char(s[i]) {
        Some((None, skip_number(s, i)))
    } else {
        None
    }
}

pub proof fn lemma_parse_jvalue(s: Seq<char>, i: int)
    ensures
        parse_jvalue(s, i) matches Some(p) ==> i < p.1 <= s.len(),
{
    reveal_strlit("null");
    reveal_strlit("true");
    reveal_strlit("false");
    lemma_parse_jstring(s, i);
    lemma_skip_number(s, i);
    if 0 <= i < s.len() && s[i] != '"' && !(matches_at(s, i, "null"@) || matches_at(s, i, "true"@)
        || matches_at(s, i, "false"@)) && is_number_char(s[i]) {
        assert(skip_number(s, i) == skip_number(s, i + 1));
        lemma_skip_number(s, i + 1);
    }
}

/// The members of an object read from position `i` (just after `{` or a
/// `,`), tracking the latest values of the two keys of interest: a string
/// value is kept, any other value clears the key. Yields the tracked
/// values and the position just past the closing `}`.
pub open spec fn parse_members(
    s: Seq<char>,
    i: int,
    k1: Seq<char>,
    k2: Seq<char>,
    v1: Option<Seq<char>>,
    v2: Option<Seq<char>>,
) -> Option<((Option<Seq<char>>, Option<Seq<char>>), int)>
    decreases s.len() - i,
    via parse_members_decreases
{
    let a = skip_ws(s, i);
    match parse_jstring(s, a) {
        None => None,
        Some((key, j1)) => {
            let j2 = skip_ws(s, j1);
            if j2 < s.len() && s[j2] == ':' {
                match parse_jvalue(s, skip_ws(s, j2 + 1)) {
                    None => None,
                    Some((v, j4)) => {
                        let w1 = if key == k1 {
                            v
                        } else {
                            v1
                        };
                        let w2 = if key == k2 {
                            v
                        } else {
                            v2
                        };
                        let j5 = skip_ws(s, j4);
                        if j5 < s.len() && s[j5] == ',' {
                            parse_members(s, j5 + 1, k1, k2, w1, w2)
                        } else if j5 < s.len() && s[j5] == '}' {
                            Some(((w1, w2), j5 + 1))
                        } else {
                            None
                        }
                    },
                }
            } else {
                None
            }
        },
    }
}

#[via_fn]
proof fn parse_members_decreases(
    s: Seq<char>,
    i: int,
    k1: Seq<char>,
    k2: Seq<char>,
    v1: Option<Seq<char>>,
    v2: Option<Seq<char>>,
) {
    let a = skip_ws(s, i);
    lemma_skip_ws(s, i);
    lemma_parse_jstring(s, a);
    match parse_jstring(s, a) {
        Some((key, j1)) => {
            let j2 = skip_ws(s, j1);
            lemma_skip_ws(s, j1);
            let j3 = skip_ws(s, j2 + 1);
            lemma_skip_ws(s, j2 + 1);
            lemma_parse_jvalue(s, j3);
            match parse_jvalue(s, j3) {
                Some((v, j4)) => {
                    lemma_skip_ws(s, j4);
                },
                None => {},
            }
        },
        None => {},
    }
}

pub proof fn lemma_parse_members(
    s: Seq<char>,
    i: int,
    k1: Seq<char>,
    k2: Seq<char>,
    v1: Option<Seq<char>>,
    v2: Option<Seq<char>>,
)
    ensures
        parse_members(s, i, k1, k2, v1, v2) matches Some(p) ==> i < p.1 <= s.len(),
    decreases s.len() - i,
{
    let a = skip_ws(s, i);
    lemma_skip_ws(s, i);
    lemma_parse_jstring(s, a);
    match parse_jstring(s, a) {
        Some((key, j1)) => {
            let j2 = skip_ws(s, j1);
            lemma_skip_ws(s, j1);
            let j3 = skip_ws(s, j2 + 1);
            lemma_skip_ws(s, j2 + 1);
            lemma_parse_jvalue(s, j3);
            match parse_jvalue(s, j3) {
                Some((v, j4)) => {
                    lemma_skip_ws(s, j4);
                    let j5 = skip_ws(s, j4);
                    if j5 < s.len() && s[j5] == ',' {
                        let w1 = if key == k1 { v } else { v1 };
                        let w2 = if key == k2 { v } else { v2 };
                        lemma_parse_members(s, j5 + 1, k1, k2, w1, w2);
                    }
                },
                None => {},
            }
        },
        None => {},
    }
}

/// A whole wire object line: optional whitespace, one object of scalar
/// members, optional trailing whitespace, end of input. Yields the latest
/// values of the two keys of interest.
pub open spec fn parse_object(s: Seq<char>, k1: Seq<char>, k2: Seq<char>) -> Option<
    (Option<Seq<char>>, Option<Seq<char>>),
> {
    let i0 = skip_ws(s, 0);
    if i0 < s.len() && s[i0] == '{' {
        let i1 = skip_ws(s, i0 + 1);
        if i1 < s.len() && s[i1] == '}' {
            if skip_ws(s, i1 + 1) == s.len() {
                Some((None, None))
            } else {
                None
            }
        } else {
            match parse_members(s, i0 + 1, k1, k2, None, None) {
                Some(((w1, w2), j)) => if skip_ws(s, j) == s.len() {
                    Some((w1, w2))
                } else {
                    None
                },
                None => None,
            }
        }
    } else {
        None
    }
}


fn is_ws_char(c: char) -> (r: bool)
    ensures
        r == is_json_ws(c),
{
    c == ' ' || c == '\t' || c == '\n' || c == '\r'
}

fn skip_ws_at(s: &[char], i: usize) -> (r: usize)
    requires
        i <= s@.len(),
    ensures
        r as int == skip_ws(s@, i as int),
        i <= r <= s@.len(),
{
    let mut cur = i;
    while cur < s.len() && is_ws_char(s[cur])
        invariant
            i <= cur <= s@.len(),
            skip_ws(s@, i as int) == skip_ws(s@, cur as int),
        decreases s@.len() - cur,
    {
        cur = cur + 1;
    }
    cur
}

fn is_number_char_exec(c: char) -> (r: bool)
    ensures
        r == is_number_char(c),
{
    ('0' <= c && c <= '9') || c == '-' || c == '+' || c == '.' || c == 'e' || c == 'E'
}

fn skip_number_at(s: &[char], i: usize) -> (r: usize)
    requires
        i <= s@.len(),
    ensures
        r as int == skip_number(s@, i as int),
        i <= r <= s@.len(),
{
    let mut cur = i;
    while cur < s.len() && is_number_char_exec(s[cur])
        invariant
            i <= cur <= s@.len(),
            skip_number(s@, i as int) == skip_number(s@, cur as int),
        decreases s@.len() - cur,
    {
        cur = cur + 1;
    }
    cur
}

fn unescape(c: char) -> (r: Option<char>)
    ensures
        r == unescape_char(c),
{
    if c == '"' {
        Some('"')
    } else if c == '\\' {
        Some('\\')
    } else if c == '/' {
        Some('/')
    } else if c == 'n' {
        Some('\n')
    } else if c == 't' {
        Some('\t')
    } else if c == 'r' {
        Some('\r')
    } else if c == 'b' {
        Some('\u{8}')
    } else if c == 'f' {
        Some('\u{c}')
    } else {
        None
    }
}

/// Reads a quoted string whose opening quote stands at `i`.
fn parse_string_at(s: &[char], i: usize) -> (r: Option<(String, usize)>)
    requires
        i <= s@.len(),
    ensures
        match r {
            Some(p) => parse_jstring(s@, i as int) == Some((p.0@, p.1 as int)) && i < p.1
                <= s@.len(),
            None => parse_jstring(s@, i as int) is None,
        },
{
    if i == s.len() || s[i] != '"' {
        return None;
    }
    proof {
        lemma_parse_string_body(s@, i + 1);
    }
    let mut cur: usize = i + 1;
    let mut acc = String::new();
    loop
        invariant
            i < s@.len() && s@[i as int] == '"',
            i + 1 <= cur <= s@.len(),
            (match parse_string_body(s@, cur as int) {
                Some(p) => parse_string_body(s@, i + 1) == Some((acc@ + p.0, p.1)),
                None => parse_string_body(s@, i + 1) is None,
            }),
        decreases s@.len() - cur,
    {
        proof {
            lemma_parse_string_body(s@, cur as int);
        }
        if cur == s.len() {
            return None;
        }
        let c = s[cur];
        if c == '"' {
            proof {
                assert(acc@ + Seq::<char>::empty() =~= acc@);
            }
            return Some((acc, cur + 1));
        } else if c == '\\' {
            if cur + 1 == s.len() {
                return None;
            }
            if s[cur + 1] == 'u' {
                if s.len() - cur <= 5 || s[cur + 2] != '0' || s[cur + 3] != '0' {
                    return None;
                }
                let h1 = match hex_val_of(s[cur + 4]) {
                    Some(v) => v,
                    None => {
                        return None;
                    },
                };
                let h2 = match hex_val_of(s[cur + 5]) {
                    Some(v) => v,
                    None => {
                        return None;
                    },
                };
                let d = (16 * h1 + h2) as char;
                let ghost acc0 = acc@;
                push_char(&mut acc, d);
                proof {
                    match parse_string_body(s@, cur + 6) {
                        Some(p) => {
                            assert(parse_string_body(s@, cur as int) == Some(
                                (seq![d] + p.0, p.1),
                            ));
                            assert(acc0 + (seq![d] + p.0) =~= acc0.push(d) + p.0);
                        },
                        None => {
                            assert(parse_string_body(s@, cur as int) is None);
                        },
                    }
                }
                cur = cur + 6;
            } else {
                match unescape(s[cur + 1]) {
                    None => {
                        return None;
                    },
                    Some(d) => {
                        let ghost acc0 = acc@;
                        push_char(&mut acc, d);
                        proof {
                            match parse_string_body(s@, cur + 2) {
                                Some(p) => {
                                    assert(parse_string_body(s@, cur as int) == Some(
                                        (seq![d] + p.0, p.1),
                                    ));
                                    assert(acc0 + (seq![d] + p.0) =~= acc0.push(d) + p.0);
                                },
                                None => {
                                    assert(parse_string_body(s@, cur as int) is None);
                                },
                            }
                        }
                        cur = cur + 2;
                    },
                }
            }
        } else if (c as u32) < 0x20 {
            return None;
        } else {
            let ghost acc0 = acc@;
            push_char(&mut acc, c);
            proof {
                match parse_string_body(s@, cur + 1) {
                    Some(p) => {
                        assert(parse_string_body(s@, cur as int) == Some((seq![c] + p.0, p.1)));
                        assert(acc0 + (seq![c] + p.0) =~= acc0.push(c) + p.0);
                    },
                    None => {
                        assert(parse_string_body(s@, cur as int) is None);
                    },
                }
            }
            cur = cur + 1;
        }
    }
}

/// Whether the characters of `w` stand in `s` at position `i`.
fn matches_at_exec(s: &[char], i: usize, w: &str) -> (r: bool)
    requires
        i <= s@.len(),
    ensures
        r == matches_at(s@, i as int, w@),
{
    let wn = w.unicode_len();
    let n = s.len();
    if n - i < wn {
        return false;
    }
    let mut k: usize = 0;
    while k < wn
        invariant
            k <= wn == w@.len(),
            i + wn <= n == s@.len(),
            forall|m: int| 0 <= m < k ==> s@[i + m] == w@[m],
        decreases wn - k,
    {
        if s[i + k] != w.get_char(k) {
            proof {
                assert(s@.subrange(i as int, i + wn)[k as int] == s@[i + k]);
                assert(s@.subrange(i as int, i + wn) != w@);
            }
            return false;
        }
        k = k + 1;
    }
    proof {
        assert(s@.subrange(i as int, i + wn) =~= w@);
    }
    true
}

/// Reads one scalar value at position `i`.
fn parse_value_at(s: &[char], i: usize) -> (r: Option<(Option<String>, usize)>)
    requires
        i <= s@.len(),
    ensures
        match r {
            Some(p) => parse_jvalue(s@, i as int) == Some(
                (
                    match p.0 {
                        Some(t) => Some(t@),
                        None => None,
                    },
                    p.1 as int,
                ),
            ) && i < p.1 <= s@.len(),
            None => parse_jvalue(s@, i as int) is None,
        },
{
    if i == s.len() {
        return None;
    }
    let c = s[i];
    if c == '"' {
        match parse_string_at(s, i) {
            Some((t, j)) => Some((Some(t), j)),
            None => None,
        }
    } else if matches_at_exec(s, i, "null") {
        proof {
            reveal_strlit("null");
        }
        Some((None, i + 4))
    } else if matches_at_exec(s, i, "true") {
        proof {
            reveal_strlit("null");
            reveal_strlit("true");
        }
        Some((None, i + 4))
    } else if matches_at_exec(s, i, "false") {
        proof {
            reveal_strlit("false");
        }
        Some((None, i + 5))
    } else if is_number_char_exec(c) {
        let j = skip_number_at(s, i);
        proof {
            assert(skip_number(s@, i as int) == skip_number(s@, i + 1));
            lemma_skip_number(s@, i + 1);
        }
        Some((None, j))
    } else {
        None
    }
}

/// Reads the members of an object from `start` (just past the `{`) to its
/// closing brace, tracking the two keys of interest.
fn parse_members_at(s: &[char], start: usize, k1: &str, k2: &str) -> (r: Option<
    ((Option<String>, Option<String>), usize),
>)
    requires
        start <= s@.len(),
    ensures
        match r {
            Some(p) => parse_members(s@, start as int, k1@, k2@, None, None) == Some(
                (
                    (
                        match p.0.0 {
                            Some(t) => Some(t@),
                            None => None,
                        },
                        match p.0.1 {
                            Some(t) => Some(t@),
                            None => None,
                        },
                    ),
                    p.1 as int,
                ),
            ) && p.1 <= s@.len(),
            None => parse_members(s@, start as int, k1@, k2@, None, None) is None,
        },
{
    let mut cur = start;
    let mut v1: Option<String> = None;
    let mut v2: Option<String> = None;
    loop
        invariant
            cur <= s@.len(),
            parse_members(s@, start as int, k1@, k2@, None, None) == parse_members(
                s@,
                cur as int,
                k1@,
                k2@,
                match v1 {
                    Some(ref t) => Some(t@),
                    None => None,
                },
                match v2 {
                    Some(ref t) => Some(t@),
                    None => None,
                },
            ),
        decreases s@.len() - cur,
    {
        let a = skip_ws_at(s, cur);
        match parse_string_at(s, a) {
            None => {
                return None;
            },
            Some((key, j1)) => {
                let j2 = skip_ws_at(s, j1);
                if j2 == s.len() || s[j2] != ':' {
                    return None;
                }
                let j3 = skip_ws_at(s, j2 + 1);
                match parse_value_at(s, j3) {
                    None => {
                        return None;
                    },
                    Some((v, j4)) => {
                        if str_eq(key.as_str(), k1) {
                            v1 = crate::text::clone_opt_string(&v);
                        }
                        if str_eq(key.as_str(), k2) {
                            v2 = crate::text::clone_opt_string(&v);
                        }
                        let j5 = skip_ws_at(s, j4);
                        if j5 < s.len() && s[j5] == ',' {
                            cur = j5 + 1;
                        } else if j5 < s.len() && s[j5] == '}' {
                            return Some(((v1, v2), j5 + 1));
                        } else {
                            return None;
                        }
                    },
                }
            },
        }
    }
}

/// Reads a whole wire object line, yielding the two keys of interest.
fn parse_object_at(line: &str, k1: &str, k2: &str) -> (r: Option<(Option<String>, Option<String>)>)
    ensures
        match r {
            Some(p) => parse_object(line@, k1@, k2@) == Some(
                (
                    match p.0 {
                        Some(t) => Some(t@),
                        None => None,
                    },
                    match p.1 {
                        Some(t) => Some(t@),
                        None => None,
                    },
                ),
            ),
            None => parse_object(line@, k1@, k2@) is None,
        },
{
    let s = str_to_chars(line);
    let n = s.len();
    let i0 = skip_ws_at(s.as_slice(), 0);
    if i0 == n || s[i0] != '{' {
        return None;
    }
    let i1 = skip_ws_at(s.as_slice(), i0 + 1);
    if i1 < n && s[i1] == '}' {
        let j = skip_ws_at(s.as_slice(), i1 + 1);
        if j == n {
            Some((None, None))
        } else {
            None
        }
    } else {
        match parse_members_at(s.as_slice(), i0 + 1, k1, k2) {
            Some(((w1, w2), j)) => {
                let e = skip_ws_at(s.as_slice(), j);
                if e == n {
                    Some((w1, w2))
                } else {
                    None
                }
            },
            None => None,
        }
    }
}

/// Reads a command envelope line: the latest `cmd` member as the command
/// name (empty when missing or not a string, which later reports as an
/// unknown command) and the latest `arg` member as the argument. Nothing
/// when the line is not a well-formed wire object.
pub fn parse_envelope(line: &str) -> (r: Option<(String, Option<String>)>)
    ensures
        match parse_object(line@, "cmd"@, "arg"@) {
            Some(p) => r matches Some(q) && q.0@ == (match p.0 {
                Some(t) => t,
                None => Seq::<char>::empty(),
            }) && (match (q.1, p.1) {
                (Some(x), Some(y)) => x@ == y,
                (None, None) => true,
                _ => false,
            }),
            None => r is None,
        },
{
    match parse_object_at(line, "cmd", "arg") {
        Some((c, a)) => {
            let cmd = match c {
                Some(t) => t,
                None => String::new(),
            };
            Some((cmd, a))
        },
        None => None,
    }
}

/// Reads a command response line as a client: an `error` member means the
/// command failed with that message, any other well-formed object means
/// it succeeded, and an unreadable line reports as malformed.
pub fn parse_command_response(line: &str) -> (r: Result<(), String>)
    ensures
        match parse_object(line@, "error"@, "error"@) {
            Some(p) => match p.0 {
                Some(m) => r matches Err(e) && e@ == m,
                None => r is Ok,
            },
            None => r matches Err(e) && e@ == "bad json"@,
        },
{
    match parse_object_at(line, "error", "error") {
        Some((e, _)) => match e {
            Some(msg) => Err(msg),
            None => Ok(()),
        },
        None => {
            proof {
                reveal_strlit("bad json");
            }
            Err("bad json".to_owned())
        },
    }
}


/// A control character survives the `\\u00XX` escape: writing its code as
/// two hex digits and reading them back yields the same character.
proof fn lemma_u_escape_char(c: char)
    requires
        (c as u32) < 0x20,
    ensures
        ((16 * hex_val(hex_digit((((c as u32) / 16)) as nat)) + hex_val(
            hex_digit((((c as u32) % 16)) as nat),
        )) as u8) as char == c,
        is_hex_digit(hex_digit((((c as u32) / 16)) as nat)),
        is_hex_digit(hex_digit((((c as u32) % 16)) as nat)),
{
    let v = c as u32;
    assert(v as int == c as int);
    assert(hex_val(hex_digit(((v / 16)) as nat)) == (v / 16) as nat);
    assert(hex_val(hex_digit(((v % 16)) as nat)) == (v % 16) as nat);
    let m = 16 * hex_val(hex_digit(((v / 16)) as nat)) + hex_val(hex_digit(((v % 16)) as nat));
    assert(m == v as nat);
    let b = m as u8;
    assert(b as int == v as int);
    let c2 = b as char;
    assert(c2 as int == b as int);
    assert(c2 == c);
}

/// What the emitter writes, the parser reads back: at position `i` the
/// remainder of `w` is an escaped string, its closing quote, and anything
/// after; parsing from `i` recovers exactly that string and stops just
/// past the quote.
pub proof fn lemma_wire_string_round_trip(s: Seq<char>, w: Seq<char>, i: int, rest: Seq<char>)
    requires
        0 <= i <= w.len(),
        w.skip(i) == json_escape(s) + seq!['"'] + rest,
    ensures
        parse_string_body(w, i) == Some((s, i + json_escape(s).len() + 1)),
    decreases s.len(),
{
    let tail = json_escape(s) + seq!['"'] + rest;
    assert(w.len() - i == tail.len());
    if s.len() == 0 {
        assert(w.skip(i)[0] == w[i]);
        assert(tail[0] == '"');
        assert(parse_string_body(w, i) == Some((Seq::<char>::empty(), i + 1)));
        assert(Seq::<char>::empty() =~= s);
    } else {
        let c = s[0];
        let e = esc_char(c);
        let s1 = s.drop_first();
        assert(json_escape(s) == e + json_escape(s1));
        let k = e.len();
        assert forall|m: int| 0 <= m < k implies w[i + m] == e[m] by {
            assert(w.skip(i)[m] == w[i + m]);
            assert(tail[m] == json_escape(s)[m]);
            assert(json_escape(s)[m] == e[m]);
        }
        assert(w.skip(i + k) =~= json_escape(s1) + seq!['"'] + rest) by {
            assert forall|j: int| 0 <= j < w.len() - (i + k) implies w.skip(i + k)[j] == (
            json_escape(s1) + seq!['"'] + rest)[j] by {
                assert(w.skip(i + k)[j] == w[i + k + j]);
                assert(w[i + k + j] == w.skip(i)[k + j]);
                assert(tail[k + j] == (json_escape(s1) + seq!['"'] + rest)[j]);
            }
        }
        lemma_wire_string_round_trip(s1, w, i + k, rest);
        assert(seq![c] + s1 =~= s);
        if c == '"' || c == '\\' || c == '\n' || c == '\r' || c == '\t' || c == '\u{8}' || c
            == '\u{c}' {
            assert(k == 2);
            assert(w[i] == '\\');
            assert(w[i + 1] == e[1]);
            assert(e[1] != 'u');
            assert(unescape_char(e[1]) == Some(c));
            assert(parse_string_body(w, i) == Some((seq![c] + s1, i + json_escape(s).len() + 1)));
        } else if (c as u32) < 0x20 {
            let v = c as u32;
            lemma_u_escape_char(c);
            assert(k == 6);
            assert(w[i] == '\\');
            assert(w[i + 1] == 'u');
            assert(w[i + 2] == '0');
            assert(w[i + 3] == '0');
            let h1 = hex_digit((v / 16) as nat);
            let h2 = hex_digit((v % 16) as nat);
            assert(w[i + 4] == h1);
            assert(w[i + 5] == h2);
            assert(((16 * hex_val(w[i + 4]) + hex_val(w[i + 5])) as u8) as char == c);
            assert(parse_string_body(w, i) == Some((seq![c] + s1, i + json_escape(s).len() + 1)));
        } else {
            assert(k == 1);
            assert(w[i] == c);
            assert(c != '"' && c != '\\' && (c as u32) >= 0x20);
            assert(parse_string_body(w, i) == Some((seq![c] + s1, i + json_escape(s).len() + 1)));
        }
    }
}



/// A quoted wire string round-trips: whatever characters a string holds,
/// the parser reads back from the emitter's rendering exactly that string,
/// stopping just past the closing quote.
pub proof fn lemma_json_string_round_trip(s: Seq<char>, rest: Seq<char>)
    ensures
        parse_jstring(json_string(s) + rest, 0) == Some((s, json_string(s).len() as int)),
{
    let w = json_string(s) + rest;
    assert(w[0] == '"');
    assert(w.skip(1) =~= json_escape(s) + seq!['"'] + rest) by {
        assert forall|j: int| 0 <= j < w.len() - 1 implies w.skip(1)[j] == (json_escape(s)
            + seq!['"'] + rest)[j] by {
            assert(w.skip(1)[j] == w[j + 1]);
        }
    }
    lemma_wire_string_round_trip(s, w, 1, rest);
}


/// A character the escaper writes as itself.
pub open spec fn is_plain_char(c: char) -> bool {
    c != '"' && c != '\\' && (c as u32) >= 0x20
}

/// A string of plain characters passes through the escaper unchanged.
pub proof fn lemma_json_escape_plain(s: Seq<char>)
    requires
        forall|j: int| 0 <= j < s.len() ==> is_plain_char(#[trigger] s[j]),
    ensures
        json_escape(s) == s,
    decreases s.len(),
{
    if s.len() > 0 {
        lemma_json_escape_plain(s.drop_first());
        assert(esc_char(s[0]) == seq![s[0]]);
        assert(seq![s[0]] + s.drop_first() =~= s);
    }
}

/// An error response line round-trips: the message the daemon's emitter
/// wrote is exactly what the client-side parser reads out of the `error`
/// member.
pub proof fn lemma_error_response_round_trip(msg: Seq<char>)
    ensures
        parse_object(error_response_spec(msg), "error"@, "error"@) == Some(
            (Some(msg), Some(msg)),
        ),
{
    reveal_strlit("{\"error\":");
    reveal_strlit("}");
    reveal_strlit("error");
    let head = "{\"error\":"@;
    let js = json_string(msg);
    let w = error_response_spec(msg);
    assert(head.len() == 9);
    assert(w.len() == 9 + js.len() + 1);
    assert(js.len() == json_escape(msg).len() + 2);
    assert(w[0] == '{');
    assert(w[1] == '"');
    assert(w[8] == ':');
    assert forall|j: int| 0 <= j < "error"@.len() implies is_plain_char(#[trigger] "error"@[j]) by {
        assert("error"@.len() == 5);
    }
    lemma_json_escape_plain("error"@);
    // The key string: from position 2 the writer put `error"`, a colon,
    // and then the value.
    let key_rest = seq![':'] + js + "}"@;
    assert(w.skip(2) =~= json_escape("error"@) + seq!['"'] + key_rest) by {
        assert forall|j: int| 0 <= j < w.len() - 2 implies w.skip(2)[j] == (json_escape("error"@)
            + seq!['"'] + key_rest)[j] by {
            assert(w.skip(2)[j] == w[j + 2]);
            if j < 7 {
                assert(w[j + 2] == head[j + 2]);
            } else if j < 7 + js.len() {
                assert(w[j + 2] == js[j - 7]);
                assert(key_rest[j - 6] == js[j - 7]);
            } else {
                assert(w[j + 2] == '}');
            }
        }
    }
    lemma_wire_string_round_trip("error"@, w, 2, key_rest);
    assert(parse_jstring(w, 1) == Some(("error"@, 8int)));
    assert(skip_ws(w, 0) == 0);
    assert(skip_ws(w, 1) == 1);
    assert(skip_ws(w, 8) == 8);
    // The value string: from position 10 the writer put the escaped
    // message, its closing quote, and the final brace.
    assert(w[9] == js[0]);
    assert(js[0] == '"');
    assert(w.skip(10) =~= json_escape(msg) + seq!['"'] + "}"@) by {
        assert forall|j: int| 0 <= j < w.len() - 10 implies w.skip(10)[j] == (json_escape(msg)
            + seq!['"'] + "}"@)[j] by {
            assert(w.skip(10)[j] == w[j + 10]);
            if j < js.len() - 1 {
                assert(w[j + 10] == js[j + 1]);
            } else {
                assert(w[j + 10] == '}');
            }
        }
    }
    lemma_wire_string_round_trip(msg, w, 10, "}"@);
    let j4 = 10 + json_escape(msg).len() + 1;
    assert(parse_jvalue(w, 9) == Some((Some(msg), j4 as int)));
    assert(skip_ws(w, 9) == 9);
    assert(j4 == w.len() - 1);
    assert(w[j4 as int] == '}');
    assert(skip_ws(w, j4 as int) == j4);
    assert(skip_ws(w, w.len() as int) == w.len());
    assert(parse_members(w, 1, "error"@, "error"@, None, None) == Some(
        ((Some(msg), Some(msg)), w.len() as int),
    ));
}


/// A success response line round-trips: the client-side parser finds no
/// `error` member in the daemon's success marker.
pub proof fn lemma_ok_response_round_trip()
    ensures
        parse_object(ok_response_spec(), "error"@, "error"@) == Some(
            (None::<Seq<char>>, None::<Seq<char>>),
        ),
{
    reveal_strlit("{\"ok\":true}");
    reveal_strlit("error");
    reveal_strlit("ok");
    reveal_strlit("null");
    reveal_strlit("true");
    reveal_strlit(":true}");
    let w = ok_response_spec();
    assert(w.len() == 11);
    assert forall|j: int| 0 <= j < "ok"@.len() implies is_plain_char(#[trigger] "ok"@[j]) by {
        assert("ok"@.len() == 2);
    }
    lemma_json_escape_plain("ok"@);
    assert(w.skip(2) =~= json_escape("ok"@) + seq!['"'] + ":true}"@);
    lemma_wire_string_round_trip("ok"@, w, 2, ":true}"@);
    assert(parse_jstring(w, 1) == Some(("ok"@, 5int)));
    assert(skip_ws(w, 0) == 0);
    assert(skip_ws(w, 1) == 1);
    assert(skip_ws(w, 5) == 5);
    assert(skip_ws(w, 6) == 6);
    assert(!matches_at(w, 6, "null"@)) by {
        if matches_at(w, 6, "null"@) {
            assert(w.subrange(6, 10)[0] == w[6]);
        }
    }
    assert(matches_at(w, 6, "true"@)) by {
        assert(w.subrange(6, 10) =~= "true"@);
    }
    assert(parse_jvalue(w, 6) == Some((None::<Seq<char>>, 10int)));
    assert("ok"@ != "error"@);
    assert(skip_ws(w, 10) == 10);
    assert(w[10] == '}');
    assert(skip_ws(w, 11) == 11);
    assert(parse_members(w, 1, "error"@, "error"@, None, None) == Some(
        ((None::<Seq<char>>, None::<Seq<char>>), 11int),
    ));
}

} // verus!

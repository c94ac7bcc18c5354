//! Character-level helpers shared by the lyric parser and the wire codec:
//! whitespace classification, decimal digit parsing and formatting, and
//! small string utilities, each verified against a spec-level model.
use vstd::prelude::*;

verus! {

/// A character with the Unicode `White_Space` property, the set that
/// `str::trim` removes from both ends of a string.
pub open spec fn is_space_char(c: char) -> bool {
    c == ' ' || c == '\t' || c == '\n' || c == '\r' || c == '\u{b}' || c == '\u{c}'
        || c == '\u{85}' || c == '\u{a0}' || c == '\u{1680}'
        || ('\u{2000}' <= c && c <= '\u{200a}')
        || c == '\u{2028}' || c == '\u{2029}' || c == '\u{202f}' || c == '\u{205f}'
        || c == '\u{3000}'
}

/// Runtime check for `is_space_char`.
pub fn is_space(c: char) -> (r: bool)
    ensures
        r == is_space_char(c),
{
    c == ' ' || c == '\t' || c == '\n' || c == '\r' || c == '\u{b}' || c == '\u{c}'
        || c == '\u{85}' || c == '\u{a0}' || c == '\u{1680}'
        || ('\u{2000}' <= c && c <= '\u{200a}')
        || c == '\u{2028}' || c == '\u{2029}' || c == '\u{202f}' || c == '\u{205f}'
        || c == '\u{3000}'
}

pub open spec fn is_digit_char(c: char) -> bool {
    '0' <= c && c <= '9'
}

pub open spec fn digit_val(c: char) -> nat
    recommends
        is_digit_char(c),
{
    ((c as int) - ('0' as int)) as nat
}

/// Numeric value of a digit character, `None` for anything else.
pub fn digit_of(c: char) -> (r: Option<u8>)
    ensures
        r is Some <==> is_digit_char(c),
        r is Some ==> r->0 as nat == digit_val(c),
{
    if '0' <= c && c <= '9' {
        Some((c as u32 - '0' as u32) as u8)
    } else {
        None
    }
}

pub open spec fn all_digits(s: Seq<char>) -> bool {
    forall|i: int| 0 <= i < s.len() ==> is_digit_char(#[trigger] s[i])
}

/// The number a sequence of decimal digit characters denotes.
pub open spec fn digits_val(s: Seq<char>) -> nat
    decreases s.len(),
{
    if s.len() == 0 {
        0
    } else {
        digits_val(s.drop_last()) * 10 + digit_val(s.last())
    }
}

pub open spec fn pow10(n: nat) -> nat
    decreases n,
{
    if n == 0 {
        1
    } else {
        10 * pow10((n - 1) as nat)
    }
}

pub proof fn lemma_pow10_pos(n: nat)
    ensures
        pow10(n) >= 1,
    decreases n,
{
    if n > 0 {
        lemma_pow10_pos((n - 1) as nat);
    }
}

/// Splitting a digit string: the prefix is scaled by one power of ten
/// per remaining digit.
pub proof fn lemma_digits_val_append(s: Seq<char>, t: Seq<char>)
    ensures
        digits_val(s + t) == digits_val(s) * pow10(t.len()) + digits_val(t),
    decreases t.len(),
{
    if t.len() == 0 {
        assert(s + t =~= s);
        assert(digits_val(s) * 1 == digits_val(s));
    } else {
        lemma_digits_val_append(s, t.drop_last());
        let a = digits_val(s);
        let p = pow10(t.drop_last().len());
        let b = digits_val(t.drop_last());
        let d = digit_val(t.last());
        assert((s + t).drop_last() =~= s + t.drop_last());
        assert((s + t).last() == t.last());
        assert(digits_val(s + t) == digits_val(s + t.drop_last()) * 10 + d);
        assert(digits_val(t) == b * 10 + d);
        assert(pow10(t.len()) == 10 * p);
        assert(digits_val(s + t) == a * pow10(t.len()) + digits_val(t)) by (nonlinear_arith)
            requires
                digits_val(s + t) == (a * p + b) * 10 + d,
                pow10(t.len()) == 10 * p,
                digits_val(t) == b * 10 + d,
        ;
    }
}

/// A digit string's value is below ten to the power of its length.
pub proof fn lemma_digits_val_bound(s: Seq<char>)
    requires
        all_digits(s),
    ensures
        digits_val(s) < pow10(s.len()),
    decreases s.len(),
{
    if s.len() > 0 {
        assert(all_digits(s.drop_last())) by {
            assert(forall|i: int| 0 <= i < s.len() - 1 ==> s.drop_last()[i] == s[i]);
        }
        lemma_digits_val_bound(s.drop_last());
        assert(digit_val(s.last()) <= 9);
        assert(pow10(s.len()) == 10 * pow10((s.len() - 1) as nat));
    }
}

/// Whether `s[from..to]` holds decimal digits only.
pub fn all_digits_range(s: &[char], from: usize, to: usize) -> (r: bool)
    requires
        from <= to <= s@.len(),
    ensures
        r == all_digits(s@.subrange(from as int, to as int)),
{
    let ghost sub = s@.subrange(from as int, to as int);
    let mut i: usize = from;
    while i < to
        invariant
            from <= i <= to <= s@.len(),
            sub == s@.subrange(from as int, to as int),
            forall|j: int| 0 <= j < i - from ==> is_digit_char(#[trigger] sub[j]),
        decreases to - i,
    {
        proof {
            assert(sub[i - from] == s@[i as int]);
        }
        match digit_of(s[i]) {
            Some(_) => {},
            None => {
                return false;
            },
        }
        i = i + 1;
    }
    true
}

/// What a digit string denotes as a `u64`: nothing when it is empty,
/// holds a non-digit, or overflows.
pub open spec fn parse_u64_spec(s: Seq<char>) -> Option<u64> {
    if s.len() > 0 && all_digits(s) && digits_val(s) <= u64::MAX {
        Some(digits_val(s) as u64)
    } else {
        None
    }
}

/// Parses the digit characters of `s[from..to]` as a decimal `u64`.
pub fn parse_u64_range(s: &[char], from: usize, to: usize) -> (r: Option<u64>)
    requires
        from <= to <= s@.len(),
    ensures
        r == parse_u64_spec(s@.subrange(from as int, to as int)),
{
    let ghost whole = s@.subrange(from as int, to as int);
    if from == to {
        return None;
    }
    let mut acc: u64 = 0;
    let mut i: usize = from;
    while i < to
        invariant
            from <= i <= to <= s@.len(),
            all_digits(s@.subrange(from as int, i as int)),
            acc as nat == digits_val(s@.subrange(from as int, i as int)),
            whole == s@.subrange(from as int, to as int),
        decreases to - i,
    {
        let ghost pre = s@.subrange(from as int, i as int);
        let ghost pre1 = s@.subrange(from as int, i + 1);
        assert(pre1.drop_last() =~= pre);
        let d = match digit_of(s[i]) {
            Some(d) => d,
            None => {
                assert(!all_digits(whole)) by {
                    assert(whole[i - from] == s@[i as int]);
                }
                return None;
            },
        };
        let shifted = match acc.checked_mul(10) {
            Some(v) => v,
            None => {
                proof {
                    lemma_digits_overflow(s@, from as int, i as int, to as int, acc as nat * 10);
                }
                return None;
            },
        };
        let next = match shifted.checked_add(d as u64) {
            Some(v) => v,
            None => {
                proof {
                    lemma_digits_overflow(s@, from as int, i as int, to as int, acc as nat * 10 + digit_val(s@[i as int]));
                }
                return None;
            },
        };
        assert(next as nat == digits_val(pre1));
        acc = next;
        i = i + 1;
    }
    assert(s@.subrange(from as int, i as int) =~= whole);
    Some(acc)
}

/// If even the value of `s[from..i+1]` exceeds `u64::MAX`, the whole
/// digit string `s[from..to]` does too (or holds a non-digit).
proof fn lemma_digits_overflow(s: Seq<char>, from: int, i: int, to: int, partial: nat)
    requires
        0 <= from <= i < to <= s.len(),
        all_digits(s.subrange(from, i)),
        is_digit_char(s[i]),
        partial > u64::MAX,
        digits_val(s.subrange(from, i)) * 10 + digit_val(s[i]) >= partial,
    ensures
        parse_u64_spec(s.subrange(from, to)) is None,
{
    let whole = s.subrange(from, to);
    if all_digits(whole) {
        let pre1 = s.subrange(from, i + 1);
        let rest = s.subrange(i + 1, to);
        assert(pre1 + rest =~= whole);
        lemma_digits_val_append(pre1, rest);
        assert(pre1.drop_last() =~= s.subrange(from, i));
        assert(digits_val(pre1) >= partial);
        lemma_pow10_pos(rest.len());
        assert(digits_val(pre1) * pow10(rest.len()) >= digits_val(pre1) * 1) by (nonlinear_arith)
            requires
                pow10(rest.len()) >= 1,
        ;
        assert(digits_val(whole) > u64::MAX);
    } else {
        assert(parse_u64_spec(whole) is None);
    }
}

/// What a signed digit string denotes as an `i64`: an optional leading
/// minus sign followed by digits, nothing on overflow.
pub open spec fn parse_i64_spec(s: Seq<char>) -> Option<i64> {
    if s.len() > 0 && s[0] == '-' {
        let mag = s.subrange(1, s.len() as int);
        if mag.len() > 0 && all_digits(mag) && digits_val(mag) <= 0x8000000000000000 {
            Some((-(digits_val(mag) as int)) as i64)
        } else {
            None
        }
    } else {
        if s.len() > 0 && all_digits(s) && digits_val(s) <= i64::MAX {
            Some(digits_val(s) as i64)
        } else {
            None
        }
    }
}

/// Parses the characters of `s[from..to]` as a decimal `i64`.
pub fn parse_i64_range(s: &[char], from: usize, to: usize) -> (r: Option<i64>)
    requires
        from <= to <= s@.len(),
    ensures
        r == parse_i64_spec(s@.subrange(from as int, to as int)),
{
    let ghost whole = s@.subrange(from as int, to as int);
    if from == to {
        return None;
    }
    if s[from] == '-' {
        let ghost mag_s = whole.subrange(1, whole.len() as int);
        proof {
            assert(mag_s =~= s@.subrange(from + 1, to as int));
        }
        match parse_u64_range(s, from + 1, to) {
            Some(mag) => {
                if mag < 9223372036854775808u64 {
                    Some(-(mag as i64))
                } else if mag == 9223372036854775808u64 {
                    Some(i64::MIN)
                } else {
                    None
                }
            },
            None => {
                proof {
                    if mag_s.len() > 0 && all_digits(mag_s) && digits_val(mag_s)
                        <= 0x8000000000000000 {
                        assert(digits_val(mag_s) <= u64::MAX);
                    }
                }
                None
            },
        }
    } else {
        match parse_u64_range(s, from, to) {
            Some(v) => {
                if v <= 9223372036854775807u64 {
                    Some(v as i64)
                } else {
                    None
                }
            },
            None => None,
        }
    }
}

/// What an unsigned command argument denotes: as `str::parse` reads it,
/// an optional leading plus sign before the digits.
pub open spec fn parse_u64_arg_spec(s: Seq<char>) -> Option<u64> {
    if s.len() > 0 && s[0] == '+' {
        parse_u64_spec(s.subrange(1, s.len() as int))
    } else {
        parse_u64_spec(s)
    }
}

/// What a signed command argument denotes: as `str::parse` reads it, an
/// optional leading plus or minus sign before the digits.
pub open spec fn parse_i64_arg_spec(s: Seq<char>) -> Option<i64> {
    if s.len() > 0 && s[0] == '+' {
        match parse_u64_spec(s.subrange(1, s.len() as int)) {
            Some(v) => if v <= i64::MAX {
                Some(v as i64)
            } else {
                None
            },
            None => None,
        }
    } else {
        parse_i64_spec(s)
    }
}

/// The digit character for a value below ten.
pub open spec fn digit_char(d: nat) -> char {
    if d == 0 { '0' } else if d == 1 { '1' } else if d == 2 { '2' } else if d == 3 { '3' }
    else if d == 4 { '4' } else if d == 5 { '5' } else if d == 6 { '6' } else if d == 7 { '7' }
    else if d == 8 { '8' } else { '9' }
}

pub(crate) fn digit_char_of(d: u64) -> (c: char)
    requires
        d < 10,
    ensures
        c == digit_char(d as nat),
{
    if d == 0 { '0' } else if d == 1 { '1' } else if d == 2 { '2' } else if d == 3 { '3' }
    else if d == 4 { '4' } else if d == 5 { '5' } else if d == 6 { '6' } else if d == 7 { '7' }
    else if d == 8 { '8' } else { '9' }
}

/// The decimal rendering of a number, without leading zeros
/// (a single `'0'` for zero).
pub open spec fn dec_digits(n: nat) -> Seq<char>
    decreases n,
{
    if n < 10 {
        seq![digit_char(n)]
    } else {
        dec_digits(n / 10).push(digit_char(n % 10))
    }
}

/// Relies on String::push: appends exactly one character at the end.
#[verifier::external_body]
pub(crate) fn push_char(s: &mut String, c: char)
    ensures
        final(s)@ == old(s)@.push(c),
{
    s.push(c);
}

/// Appends the decimal rendering of `n` to `out`.
#[verifier::rlimit(30)]
pub fn append_u64(out: &mut String, n: u64)
    ensures
        final(out)@ == old(out)@ + dec_digits(n as nat),
{
    let mut rev: Vec<char> = Vec::new();
    let mut m: u64 = n;
    loop
        invariant_except_break
            dec_digits(n as nat) =~= dec_digits(m as nat) + rev@.reverse(),
        ensures
            dec_digits(n as nat) =~= rev@.reverse(),
            rev@.len() > 0,
        decreases m,
    {
        let ghost rev0 = rev@;
        let d = digit_char_of(m % 10);
        rev.push(d);
        proof {
            assert(rev@.reverse() =~= seq![digit_char((m % 10) as nat)] + rev0.reverse());
        }
        if m < 10 {
            proof {
                assert(dec_digits(m as nat) == seq![digit_char(m as nat)]);
                assert(dec_digits(m as nat) + rev0.reverse() =~= rev@.reverse());
            }
            break;
        }
        proof {
            assert(dec_digits(m as nat) == dec_digits((m as nat) / 10).push(digit_char((m as nat) % 10)));
            assert(dec_digits(m as nat) + rev0.reverse() =~= dec_digits((m / 10) as nat) + rev@.reverse());
        }
        m = m / 10;
    }
    let ghost full = dec_digits(n as nat);
    let mut j: usize = rev.len();
    proof {
        assert(full.take(full.len() - j) =~= Seq::<char>::empty());
        assert(out@ =~= old(out)@ + full.take(full.len() - j));
    }
    while j > 0
        invariant
            j <= rev@.len(),
            full == dec_digits(n as nat),
            full =~= rev@.reverse(),
            out@ == old(out)@ + full.take(full.len() - j),
        decreases j,
    {
        j = j - 1;
        let c = rev[j];
        push_char(out, c);
        proof {
            assert(full[full.len() - j - 1] == rev@[j as int]);
            assert(full.take(full.len() - j) =~= full.take(full.len() - j - 1).push(rev@[j as int]));
        }
    }
    proof {
        assert(full.take(full.len() - 0) =~= full);
    }
}

/// Index of the first occurrence of `c` in `s` at or after `from`.
pub open spec fn find_char_from(s: Seq<char>, c: char, from: int) -> Option<int>
    decreases s.len() - from,
{
    if from < 0 || from >= s.len() {
        None
    } else if s[from] == c {
        Some(from)
    } else {
        find_char_from(s, c, from + 1)
    }
}

/// What `find_char_from` finds: the first occurrence at or after `from`,
/// or nothing when the character does not occur there.
pub proof fn lemma_find_char_from(s: Seq<char>, c: char, from: int)
    ensures
        find_char_from(s, c, from) matches Some(i) ==> from <= i < s.len() && s[i] == c
            && (forall|j: int| from <= j < i ==> s[j] != c),
        find_char_from(s, c, from) is None && from >= 0 ==> forall|j: int|
            from <= j < s.len() ==> s[j] != c,
    decreases s.len() - from,
{
    if 0 <= from < s.len() && s[from] != c {
        lemma_find_char_from(s, c, from + 1);
    }
}

/// Scans `s[from..to]` for the first occurrence of `c`.
pub fn find_char(s: &[char], c: char, from: usize, to: usize) -> (r: Option<usize>)
    requires
        from <= to <= s@.len(),
    ensures
        r is Some <==> find_char_from(s@.subrange(0, to as int), c, from as int) is Some,
        r is Some ==> r->0 as int == find_char_from(s@.subrange(0, to as int), c, from as int)->0,
        r is Some ==> from <= r->0 < to && s@[r->0 as int] == c,
{
    let mut i: usize = from;
    while i < to
        invariant
            from <= i <= to <= s@.len(),
            find_char_from(s@.subrange(0, to as int), c, from as int)
                == find_char_from(s@.subrange(0, to as int), c, i as int),
        decreases to - i,
    {
        if s[i] == c {
            return Some(i);
        }
        i = i + 1;
    }
    None
}

/// What remains of `s` after the leading whitespace is removed.
pub open spec fn trim_start_spec(s: Seq<char>) -> Seq<char>
    decreases s.len(),
{
    if s.len() > 0 && is_space_char(s[0]) {
        trim_start_spec(s.drop_first())
    } else {
        s
    }
}

/// What remains of `s` after the trailing whitespace is removed.
pub open spec fn trim_end_spec(s: Seq<char>) -> Seq<char>
    decreases s.len(),
{
    if s.len() > 0 && is_space_char(s.last()) {
        trim_end_spec(s.drop_last())
    } else {
        s
    }
}

/// `s` without leading and trailing whitespace, as `str::trim` leaves it.
pub open spec fn trim_spec(s: Seq<char>) -> Seq<char> {
    trim_end_spec(trim_start_spec(s))
}

/// Narrows `[from, to)` to the bounds of the trimmed form of `s[from..to]`.
pub fn trim_range(s: &[char], from: usize, to: usize) -> (r: (usize, usize))
    requires
        from <= to <= s@.len(),
    ensures
        from <= r.0 <= r.1 <= to,
        s@.subrange(r.0 as int, r.1 as int) == trim_spec(s@.subrange(from as int, to as int)),
{
    let mut lo: usize = from;
    while lo < to && is_space(s[lo])
        invariant
            from <= lo <= to <= s@.len(),
            trim_start_spec(s@.subrange(from as int, to as int))
                == trim_start_spec(s@.subrange(lo as int, to as int)),
        decreases to - lo,
    {
        proof {
            assert(s@.subrange(lo as int, to as int).drop_first()
                =~= s@.subrange(lo + 1, to as int));
        }
        lo = lo + 1;
    }
    proof {
        assert(trim_start_spec(s@.subrange(lo as int, to as int)) == s@.subrange(lo as int, to as int));
    }
    let mut hi: usize = to;
    while hi > lo && is_space(s[hi - 1])
        invariant
            from <= lo <= hi <= to <= s@.len(),
            trim_start_spec(s@.subrange(from as int, to as int)) == s@.subrange(lo as int, to as int),
            trim_end_spec(s@.subrange(lo as int, to as int))
                == trim_end_spec(s@.subrange(lo as int, hi as int)),
        decreases hi,
    {
        proof {
            assert(s@.subrange(lo as int, hi as int).drop_last()
                =~= s@.subrange(lo as int, hi - 1));
        }
        hi = hi - 1;
    }
    proof {
        assert(trim_end_spec(s@.subrange(lo as int, hi as int)) == s@.subrange(lo as int, hi as int));
    }
    (lo, hi)
}

/// The characters of `s`, in order, as a vector.
pub fn str_to_chars(s: &str) -> (r: Vec<char>)
    ensures
        r@ == s@,
{
    let n = s.unicode_len();
    let mut out: Vec<char> = Vec::new();
    let mut i: usize = 0;
    while i < n
        invariant
            i <= n == s@.len(),
            out@ =~= s@.take(i as int),
        decreases n - i,
    {
        let c = s.get_char(i);
        out.push(c);
        proof {
            assert(s@.take(i + 1) =~= s@.take(i as int).push(s@[i as int]));
        }
        i = i + 1;
    }
    proof {
        assert(s@.take(n as int) =~= s@);
    }
    out
}

/// The characters `s[from..to]` collected into a `String`.
pub fn chars_to_string(s: &[char], from: usize, to: usize) -> (r: String)
    requires
        from <= to <= s@.len(),
    ensures
        r@ == s@.subrange(from as int, to as int),
{
    let mut out = String::new();
    let mut i: usize = from;
    while i < to
        invariant
            from <= i <= to <= s@.len(),
            out@ =~= s@.subrange(from as int, i as int),
        decreases to - i,
    {
        push_char(&mut out, s[i]);
        proof {
            assert(s@.subrange(from as int, i + 1)
                =~= s@.subrange(from as int, i as int).push(s@[i as int]));
        }
        i = i + 1;
    }
    out
}

/// Appends every character of `piece` to `out`.
pub fn append_str(out: &mut String, piece: &str)
    ensures
        final(out)@ == old(out)@ + piece@,
{
    let n = piece.unicode_len();
    let mut i: usize = 0;
    while i < n
        invariant
            i <= n == piece@.len(),
            out@ =~= old(out)@ + piece@.take(i as int),
        decreases n - i,
    {
        let c = piece.get_char(i);
        push_char(out, c);
        proof {
            assert(old(out)@ + piece@.take(i + 1)
                =~= (old(out)@ + piece@.take(i as int)).push(piece@[i as int]));
        }
        i = i + 1;
    }
    proof {
        assert(piece@.take(n as int) =~= piece@);
    }
}

/// A copy of an optional string.
pub fn clone_opt_string(o: &Option<String>) -> (r: Option<String>)
    ensures
        r == *o,
{
    match o {
        Some(s) => Some(s.clone()),
        None => None,
    }
}

/// Character-for-character string comparison.
pub fn str_eq(a: &str, b: &str) -> (r: bool)
    ensures
        r == (a@ == b@),
{
    let na = a.unicode_len();
    let nb = b.unicode_len();
    if na != nb {
        return false;
    }
    let mut i: usize = 0;
    while i < na
        invariant
            i <= na == a@.len() == b@.len(),
            forall|j: int| 0 <= j < i ==> a@[j] == b@[j],
        decreases na - i,
    {
        if a.get_char(i) != b.get_char(i) {
            return false;
        }
        i = i + 1;
    }
    proof {
        assert(a@ =~= b@);
    }
    true
}

} // verus!

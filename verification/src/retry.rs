//! Retrying transient failures (`429`, `503`, `504`): which statuses and
//! methods are retried, the exponential backoff, the jitter seed, and
//! `Retry-After` values (seconds or HTTP-date).

use vstd::prelude::*;
use vstd::string::*;

use crate::numbers::{
    digits_value, is_digit, lemma_skip_nonclass_bounds, parse_unsigned, parse_unsigned_range,
    skip_nonclass, skip_nonclass_exec, unsigned_digits,
};
use crate::text::{
    chars_of, eq_ignore_case, eq_ignore_case_exec, lemma_skip_class_bounds, skip_class,
    skip_class_exec, split_chars, split_on, trim, trim_chars, trim_start, views, CharClass,
};
use crate::uri::{first_at, first_at_exec, lemma_first_at};

verus! {

/// `429`, `503` and `504`.
pub open spec fn retryable_status(s: u16) -> bool {
    s == 429 || s == 503 || s == 504
}

/// Whether a status is a transient failure worth retrying (`429 Too Many
/// Requests`, `503 Service Unavailable`, `504 Gateway Timeout`).
pub fn is_retryable_status(status: u16) -> (r: bool)
    ensures
        r == retryable_status(status),
{
    status == 429 || status == 503 || status == 504
}

/// The methods the default policy re-sends automatically.
pub open spec fn idempotent_method(m: Seq<char>) -> bool {
    m == seq!['G', 'E', 'T'] || m == seq!['H', 'E', 'A', 'D'] || m == seq![
        'O',
        'P',
        'T',
        'I',
        'O',
        'N',
        'S',
    ] || m == seq!['P', 'R', 'O', 'P', 'F', 'I', 'N', 'D'] || m == seq!['R', 'E', 'P', 'O', 'R', 'T']
}

/// The methods retried by default are exactly `GET`, `HEAD`, `OPTIONS`,
/// `PROPFIND` and `REPORT` (spelled in upper case).
pub proof fn lemma_idempotent_methods(m: Seq<char>)
    ensures
        idempotent_method(m) <==> (m == "GET"@ || m == "HEAD"@ || m == "OPTIONS"@ || m
            == "PROPFIND"@ || m == "REPORT"@),
{
    reveal_strlit("GET");
    reveal_strlit("HEAD");
    reveal_strlit("OPTIONS");
    reveal_strlit("PROPFIND");
    reveal_strlit("REPORT");
    assert("GET"@ =~= seq!['G', 'E', 'T']);
    assert("HEAD"@ =~= seq!['H', 'E', 'A', 'D']);
    assert("OPTIONS"@ =~= seq!['O', 'P', 'T', 'I', 'O', 'N', 'S']);
    assert("PROPFIND"@ =~= seq!['P', 'R', 'O', 'P', 'F', 'I', 'N', 'D']);
    assert("REPORT"@ =~= seq!['R', 'E', 'P', 'O', 'R', 'T']);
}

/// Whether the method (as `Method::as_str` spells it) is one the default
/// policy considers idempotent: `GET`, `HEAD`, `OPTIONS`, `PROPFIND`,
/// `REPORT`.
pub fn is_idempotent_method(method: &str) -> (r: bool)
    ensures
        r == idempotent_method(method@),
{
    let get = ['G', 'E', 'T'];
    let head = ['H', 'E', 'A', 'D'];
    let options = ['O', 'P', 'T', 'I', 'O', 'N', 'S'];
    let propfind = ['P', 'R', 'O', 'P', 'F', 'I', 'N', 'D'];
    let report = ['R', 'E', 'P', 'O', 'R', 'T'];
    let a: &[char] = &get;
    let b: &[char] = &head;
    let c: &[char] = &options;
    let d: &[char] = &propfind;
    let e: &[char] = &report;
    assert(a@ == seq!['G', 'E', 'T']);
    assert(b@ == seq!['H', 'E', 'A', 'D']);
    assert(c@ == seq!['O', 'P', 'T', 'I', 'O', 'N', 'S']);
    assert(d@ == seq!['P', 'R', 'O', 'P', 'F', 'I', 'N', 'D']);
    assert(e@ == seq!['R', 'E', 'P', 'O', 'R', 'T']);
    crate::uri::str_is(method, a) || crate::uri::str_is(method, b) || crate::uri::str_is(method, c)
        || crate::uri::str_is(method, d) || crate::uri::str_is(method, e)
}

/// `301`, `302`, `303`, `307` and `308`: the redirects that are followed.
pub open spec fn redirect_status(s: u16) -> bool {
    s == 301 || s == 302 || s == 303 || s == 307 || s == 308
}

/// Whether a status is a redirect whose `Location` is followed.
pub fn is_redirect_status(status: u16) -> (r: bool)
    ensures
        r == redirect_status(status),
{
    status == 301 || status == 302 || status == 303 || status == 307 || status == 308
}

/// The largest `std::time::Duration`, in nanoseconds.
pub open spec fn duration_max() -> nat {
    18_446_744_073_709_551_615 * 1_000_000_000 + 999_999_999
}

/// `2 * d`, saturating at the largest duration.
pub open spec fn saturating_double(d: nat) -> nat {
    if 2 * d <= duration_max() {
        2 * d
    } else {
        duration_max()
    }
}

/// `d` doubled `k` times (saturating), stopping as soon as it reaches `cap`.
pub open spec fn doubled(k: nat, d: nat, cap: nat) -> nat
    decreases k,
{
    if k == 0 {
        d
    } else {
        let d2 = saturating_double(d);
        if d2 >= cap {
            d2
        } else {
            doubled((k - 1) as nat, d2, cap)
        }
    }
}

/// The exponential backoff before jitter for `attempt` (0-based):
/// `initial * 2^attempt` in nanoseconds, doubling stopped once the cap is
/// reached.
pub fn backoff_base(attempt: usize, initial: u128, cap: u128) -> (r: u128)
    requires
        initial <= duration_max(),
    ensures
        r == doubled(attempt as nat, initial as nat, cap as nat),
        r <= duration_max(),
{
    let max: u128 = 18_446_744_073_709_551_615u128 * 1_000_000_000u128 + 999_999_999u128;
    let mut delay = initial;
    let mut i: usize = 0;
    while i < attempt
        invariant_except_break
            i <= attempt,
            max == duration_max(),
            delay <= duration_max(),
            doubled(attempt as nat, initial as nat, cap as nat) == doubled((attempt - i) as nat, delay as nat, cap as nat),
        ensures
            delay == doubled(attempt as nat, initial as nat, cap as nat),
            delay <= duration_max(),
        decreases attempt - i,
    {
        delay = if delay <= max / 2 {
            delay * 2
        } else {
            max
        };
        if delay >= cap {
            break;
        }
        i += 1;
    }
    delay
}

/// FNV-1a (64-bit) of `bytes` from the state `h`.
pub open spec fn fnv1a(h: u64, bytes: Seq<u8>) -> u64
    decreases bytes.len(),
{
    if bytes.len() == 0 {
        h
    } else {
        fnv1a(
            (((h ^ (bytes[0] as u64)) as nat * 0x100000001b3nat) % 0x1_0000_0000_0000_0000nat) as u64,
            bytes.drop_first(),
        )
    }
}

/// The little-endian bytes of `x`.
pub open spec fn le_bytes(x: u64) -> Seq<u8> {
    Seq::new(8, |i: int| ((x >> (8 * i) as u64) & 0xff) as u8)
}

/// The jitter seed: FNV-1a over the attempt index and the sub-second
/// clock reading, both as little-endian 64-bit integers.
pub open spec fn jitter_seed_spec(attempt: u64, nanos: u64) -> u64 {
    fnv1a(0xcbf2_9ce4_8422_2325u64, le_bytes(attempt) + le_bytes(nanos))
}

/// Hash-based jitter seed for `attempt`, given the clock's sub-second
/// nanoseconds (spreads concurrent retries apart; not a random source).
pub fn jitter_seed(attempt: usize, nanos: u64) -> (r: u64)
    ensures
        r == jitter_seed_spec(attempt as u64, nanos),
{
    let a = attempt as u64;
    let ghost bytes = le_bytes(a) + le_bytes(nanos);
    let mut h: u64 = 0xcbf2_9ce4_8422_2325;
    let mut i: u64 = 0;
    assert(bytes.skip(0) =~= bytes);
    while i < 16
        invariant
            i <= 16,
            bytes == le_bytes(a) + le_bytes(nanos),
            jitter_seed_spec(a, nanos) == fnv1a(h, bytes.skip(i as int)),
        decreases 16 - i,
    {
        let x = if i < 8 { a } else { nanos };
        let k = if i < 8 { i } else { i - 8 };
        let b = ((x >> (8 * k)) & 0xff) as u8;
        assert(bytes.skip(i as int)[0] == b);
        assert(bytes.skip(i as int).drop_first() =~= bytes.skip(i as int + 1));
        h = (h ^ (b as u64)).wrapping_mul(0x0000_0100_0000_01B3);
        i += 1;
    }
    assert(bytes.skip(16) =~= Seq::<u8>::empty());
    h
}

/// The jitter factor in thousandths, in `750..=1250`: `0.75 + (seed % 501)
/// / 1000`.
pub fn jitter_permille(seed: u64) -> (r: u64)
    ensures
        r == 750 + seed % 501,
        750 <= r <= 1250,
{
    750 + seed % 501
}

/// `str::parse::<i64>`: an optional sign, then one or more ASCII digits,
/// within the range of `i64`.
pub open spec fn parse_signed(s: Seq<char>) -> Option<int> {
    if s.len() > 0 && s[0] == '-' {
        let d = s.skip(1);
        if d.len() > 0 && d[0] != '+' {
            match parse_unsigned(d, 0x8000_0000_0000_0000nat) {
                Some(n) => Some(-(n as int)),
                None => None,
            }
        } else {
            None
        }
    } else {
        match parse_unsigned(s, i64::MAX as nat) {
            Some(n) => Some(n as int),
            None => None,
        }
    }
}

/// `str::parse::<i64>` of `v[from..to]`.
pub fn parse_signed_range(v: &[char], from: usize, to: usize) -> (r: Option<i64>)
    requires
        from <= to <= v@.len(),
    ensures
        match parse_signed(v@.subrange(from as int, to as int)) {
            Some(n) => r matches Some(x) && x as int == n,
            None => r is None,
        },
{
    let ghost s = v@.subrange(from as int, to as int);
    if from < to && v[from] == '-' {
        assert(s.skip(1) =~= v@.subrange(from + 1, to as int));
        if from + 1 < to && v[from + 1] != '+' {
            match parse_unsigned_range(v, from + 1, to, 0x8000_0000_0000_0000u64) {
                Some(n) => {
                    if n == 0x8000_0000_0000_0000u64 {
                        Some(i64::MIN)
                    } else {
                        Some(-(n as i64))
                    }
                },
                None => None,
            }
        } else {
            None
        }
    } else {
        match parse_unsigned_range(v, from, to, 0x7fff_ffff_ffff_ffffu64) {
            Some(n) => Some(n as i64),
            None => None,
        }
    }
}

/// The three-letter month names, in order.
pub open spec fn month_names() -> Seq<Seq<char>> {
    seq![
        seq!['J', 'a', 'n'],
        seq!['F', 'e', 'b'],
        seq!['M', 'a', 'r'],
        seq!['A', 'p', 'r'],
        seq!['M', 'a', 'y'],
        seq!['J', 'u', 'n'],
        seq!['J', 'u', 'l'],
        seq!['A', 'u', 'g'],
        seq!['S', 'e', 'p'],
        seq!['O', 'c', 't'],
        seq!['N', 'o', 'v'],
        seq!['D', 'e', 'c'],
    ]
}

/// The number (1 to 12) of the first month whose name equals `w`, ASCII
/// case ignored, from index `i` on.
pub open spec fn month_from(w: Seq<char>, i: int) -> Option<int>
    decreases 12 - i,
{
    if i < 0 || i >= 12 {
        None
    } else if eq_ignore_case(w, month_names()[i]) {
        Some(i + 1)
    } else {
        month_from(w, i + 1)
    }
}

/// Days since 1970-01-01 of a proleptic Gregorian date (Howard Hinnant's
/// `days_from_civil`).
pub open spec fn days_from_civil_spec(y: int, m: int, d: int) -> int {
    let y2 = if m <= 2 {
        y - 1
    } else {
        y
    };
    let era = y2 / 400;
    let yoe = y2 - era * 400;
    let mp = if m > 2 {
        m - 3
    } else {
        m + 9
    };
    let doy = (153 * mp + 2) / 5 + d - 1;
    let doe = yoe * 365 + yoe / 4 - yoe / 100 + doy;
    era * 146_097 + doe - 719_468
}

/// Days since 1970-01-01 for a date (`m` in `1..=12`, `d` in `1..=31`).
fn days_from_civil(y: i64, m: i64, d: i64) -> (r: i128)
    requires
        1 <= m <= 12,
        1 <= d <= 31,
    ensures
        r == days_from_civil_spec(y as int, m as int, d as int),
        -0x10_0000_0000_0000_0000_0000 <= r <= 0x10_0000_0000_0000_0000_0000,
{
    let y2: i128 = if m <= 2 {
        (y as i128) - 1
    } else {
        y as i128
    };
    let era: i128 = if y2 >= 0 {
        y2 / 400
    } else {
        -((-y2 + 399) / 400)
    };
    proof {
        let e = y2 as int / 400;
        if y2 < 0 {
            let q = (-y2 + 399) as int / 400;
            assert(-q == e) by (nonlinear_arith)
                requires
                    y2 < 0,
                    q == (-y2 + 399) as int / 400,
                    e == y2 as int / 400,
            ;
        }
    }
    let yoe: i128 = y2 - era * 400;
    assert(0 <= yoe < 400) by (nonlinear_arith)
        requires
            era == y2 as int / 400,
            yoe == y2 - era * 400,
    ;
    let mp: i128 = if m > 2 {
        (m as i128) - 3
    } else {
        (m as i128) + 9
    };
    let doy: i128 = (153 * mp + 2) / 5 + (d as i128) - 1;
    let doe: i128 = yoe * 365 + yoe / 4 - yoe / 100 + doy;
    assert(-0x10_0000_0000_0000_0000 <= era <= 0x10_0000_0000_0000_0000) by (nonlinear_arith)
        requires
            era == y2 as int / 400,
            -0x8000_0000_0000_0001 <= y2 <= 0x7fff_ffff_ffff_ffff,
    ;
    era * 146_097 + doe - 719_468
}

/// The start and end of the ASCII-whitespace-separated word at or after
/// `i`.
pub open spec fn word_bounds(s: Seq<char>, i: int) -> (int, int) {
    let a = skip_class(s, i, CharClass::AsciiWhitespace);
    (a, skip_nonclass(s, a, CharClass::AsciiWhitespace))
}

/// The instant the words of an HTTP-date name: day, month name, year and
/// `h:m:s`; the day must be in `1..=31`, the hour at most 23, minutes and
/// seconds at most 59.
pub open spec fn date_of_words(w0: Seq<char>, w1: Seq<char>, w2: Seq<char>, w3: Seq<char>) -> Option<int> {
    let hms = split_on(w3, ':');
    match (parse_signed(w0), month_from(w1, 0), parse_signed(w2)) {
        (Some(day), Some(month), Some(year)) => if hms.len() < 3 {
            None
        } else {
            match (parse_signed(hms[0]), parse_signed(hms[1]), parse_signed(hms[2])) {
                (Some(h), Some(m), Some(sec)) => if 1 <= day <= 31 && h <= 23 && m <= 59 && sec <= 59 {
                    Some(days_from_civil_spec(year, month, day) * 86_400 + h * 3_600 + m * 60 + sec)
                } else {
                    None
                },
                _ => None,
            }
        },
        _ => None,
    }
}

/// An IMF-fixdate `Sun, 06 Nov 1994 08:49:37 GMT` as seconds since the
/// Unix epoch: the first four ASCII-whitespace-separated words after the
/// first comma, read by [`date_of_words`] (the zone is taken to be GMT).
pub open spec fn http_date_spec(value: Seq<char>) -> Option<int> {
    let t = trim(value);
    let c = first_at(t, ',', 0);
    if c >= t.len() {
        None
    } else {
        let rest = trim_start(t.skip(c + 1));
        let (a0, b0) = word_bounds(rest, 0);
        let (a1, b1) = word_bounds(rest, b0);
        let (a2, b2) = word_bounds(rest, b1);
        let (a3, b3) = word_bounds(rest, b2);
        if a0 >= rest.len() || a1 >= rest.len() || a2 >= rest.len() || a3 >= rest.len() {
            None
        } else {
            date_of_words(rest.subrange(a0, b0), rest.subrange(a1, b1), rest.subrange(a2, b2), rest.subrange(a3, b3))
        }
    }
}

/// Seconds since the Unix epoch of a date and time of day, when it fits in
/// an `i64`.
fn instant(year: i64, month: i64, day: i64, h: i64, m: i64, sec: i64) -> (r: Option<i64>)
    requires
        1 <= month <= 12,
        1 <= day <= 31,
    ensures
        ({
            let t = days_from_civil_spec(year as int, month as int, day as int) * 86_400 + h * 3_600 + m * 60 + sec;
            if i64::MIN <= t <= i64::MAX {
                r == Some(t as i64)
            } else {
                r is None
            }
        }),
{
    let days = days_from_civil(year, month, day);
    let total: i128 = days * 86_400 + (h as i128) * 3_600 + (m as i128) * 60 + (sec as i128);
    if total < (i64::MIN as i128) || total > (i64::MAX as i128) {
        None
    } else {
        Some(total as i64)
    }
}

/// The instant named by the words of an HTTP-date (see [`date_of_words`]),
/// when it fits in an `i64`.
fn date_from_words(w0: &[char], w1: &[char], w2: &[char], w3: &[char]) -> (r: Option<i64>)
    ensures
        match date_of_words(w0@, w1@, w2@, w3@) {
            Some(t) => if i64::MIN <= t <= i64::MAX {
                r == Some(t as i64)
            } else {
                r is None
            },
            None => r is None,
        },
{
    let day = parse_signed_range(w0, 0, w0.len());
    assert(w0@.subrange(0, w0@.len() as int) =~= w0@);
    let month = month_number(w1);
    let year = parse_signed_range(w2, 0, w2.len());
    assert(w2@.subrange(0, w2@.len() as int) =~= w2@);
    let hms = split_chars(w3, ':');
    match (day, month, year) {
        (Some(day), Some(month), Some(year)) => {
            if hms.len() < 3 {
                return None;
            }
            assert(views(hms@)[0] == hms@[0]@);
            assert(views(hms@)[1] == hms@[1]@);
            assert(views(hms@)[2] == hms@[2]@);
            let h = parse_signed_range(&hms[0], 0, hms[0].len());
            let m = parse_signed_range(&hms[1], 0, hms[1].len());
            let sec = parse_signed_range(&hms[2], 0, hms[2].len());
            assert(hms@[0]@.subrange(0, hms@[0]@.len() as int) =~= hms@[0]@);
            assert(hms@[1]@.subrange(0, hms@[1]@.len() as int) =~= hms@[1]@);
            assert(hms@[2]@.subrange(0, hms@[2]@.len() as int) =~= hms@[2]@);
            match (h, m, sec) {
                (Some(h), Some(m), Some(sec)) => {
                    if !(1 <= day && day <= 31) || h > 23 || m > 59 || sec > 59 {
                        return None;
                    }
                    instant(year, month, day, h, m, sec)
                },
                _ => None,
            }
        },
        _ => None,
    }
}

/// The number of the month named `w` (ASCII case ignored).
fn month_number(w: &[char]) -> (r: Option<i64>)
    ensures
        match month_from(w@, 0) {
            Some(n) => r matches Some(x) && x as int == n,
            None => r is None,
        },
        r matches Some(n) ==> 1 <= n <= 12,
{
    let names: [[char; 3]; 12] = [
        ['J', 'a', 'n'],
        ['F', 'e', 'b'],
        ['M', 'a', 'r'],
        ['A', 'p', 'r'],
        ['M', 'a', 'y'],
        ['J', 'u', 'n'],
        ['J', 'u', 'l'],
        ['A', 'u', 'g'],
        ['S', 'e', 'p'],
        ['O', 'c', 't'],
        ['N', 'o', 'v'],
        ['D', 'e', 'c'],
    ];
    assert forall|k: int| 0 <= k < 12 implies #[trigger] names@[k]@ == month_names()[k] by {
        assert(names@[k]@ =~= month_names()[k]);
    }
    let mut i: usize = 0;
    while i < 12
        invariant
            i <= 12,
            forall|k: int| 0 <= k < 12 ==> #[trigger] names@[k]@ == month_names()[k],
            month_from(w@, 0) == month_from(w@, i as int),
        decreases 12 - i,
    {
        let name: &[char] = &names[i];
        assert(name@ == month_names()[i as int]);
        if eq_ignore_case_exec(w, name) {
            return Some(i as i64 + 1);
        }
        i += 1;
    }
    None
}

/// The ASCII-whitespace-separated word of `v` at or after `i`.
fn word_at(v: &[char], i: usize) -> (r: (usize, usize))
    requires
        i <= v@.len(),
    ensures
        r.0 as int == word_bounds(v@, i as int).0,
        r.1 as int == word_bounds(v@, i as int).1,
        i <= r.0 <= r.1 <= v@.len(),
{
    let a = skip_class_exec(v, i, CharClass::AsciiWhitespace);
    proof {
        lemma_skip_class_bounds(v@, i as int, CharClass::AsciiWhitespace);
    }
    let b = skip_nonclass_exec(v, a, CharClass::AsciiWhitespace);
    proof {
        lemma_skip_nonclass_bounds(v@, a as int, CharClass::AsciiWhitespace);
    }
    (a, b)
}

/// Parse an IMF-fixdate HTTP-date into seconds since the Unix epoch (see
/// [`http_date_spec`]); `None` when it does not parse or the instant does
/// not fit in an `i64`.
pub fn parse_http_date(value: &str) -> (r: Option<i64>)
    ensures
        match http_date_spec(value@) {
            Some(t) => if i64::MIN <= t <= i64::MAX {
                r == Some(t as i64)
            } else {
                r is None
            },
            None => r is None,
        },
{
    let all = chars_of(value);
    let t = trim_chars(&all);
    let c = first_at_exec(&t, ',', 0);
    if c >= t.len() {
        return None;
    }
    let after = crate::text::copy_range(&t, c + 1, t.len());
    assert(after@ =~= t@.skip(c + 1));
    let s0 = skip_class_exec(&after, 0, CharClass::Whitespace);
    proof {
        lemma_skip_class_bounds(after@, 0, CharClass::Whitespace);
    }
    let rest = crate::text::copy_range(&after, s0, after.len());
    assert(rest@ =~= trim_start(after@));
    let (a0, b0) = word_at(&rest, 0);
    let (a1, b1) = word_at(&rest, b0);
    let (a2, b2) = word_at(&rest, b1);
    let (a3, b3) = word_at(&rest, b2);
    if a0 >= rest.len() || a1 >= rest.len() || a2 >= rest.len() || a3 >= rest.len() {
        return None;
    }
    let w0 = crate::text::copy_range(&rest, a0, b0);
    let w1 = crate::text::copy_range(&rest, a1, b1);
    let w2 = crate::text::copy_range(&rest, a2, b2);
    let w3 = crate::text::copy_range(&rest, a3, b3);
    date_from_words(&w0, &w1, &w2, &w3)
}

/// The delay, in seconds, a `Retry-After` value asks for at the instant
/// `now` (seconds since the Unix epoch, `None` when the clock cannot be
/// read): integer seconds as they are, or the time until an HTTP-date
/// (zero when it is past).
pub open spec fn retry_after_spec(value: Seq<char>, now: Option<i64>) -> Option<u64> {
    match parse_unsigned(trim(value), u64::MAX as nat) {
        Some(n) => Some(n as u64),
        None => match http_date_spec(value) {
            Some(t) => if i64::MIN <= t <= i64::MAX {
                match now {
                    Some(n) => Some(
                        if t - n <= 0 {
                            0u64
                        } else {
                            (t - n) as u64
                        },
                    ),
                    None => None,
                }
            } else {
                None
            },
            None => None,
        },
    }
}

/// Delay instructed by a `Retry-After` header value (see
/// [`retry_after_spec`]); `None` when it is neither integer seconds nor an
/// HTTP-date (the caller falls back to the exponential backoff).
pub fn retry_after_delay(value: &str, now: Option<i64>) -> (r: Option<u64>)
    ensures
        r == retry_after_spec(value@, now),
{
    let v = chars_of(value);
    let t = trim_chars(&v);
    let secs = parse_unsigned_range(&t, 0, t.len(), u64::MAX);
    assert(t@.subrange(0, t@.len() as int) =~= t@);
    if secs.is_some() {
        return secs;
    }
    match parse_http_date(value) {
        Some(unix) => match now {
            Some(n) => {
                let diff: i128 = (unix as i128) - (n as i128);
                if diff <= 0 {
                    Some(0)
                } else {
                    Some(diff as u64)
                }
            },
            None => None,
        },
        None => None,
    }
}


/// The delay a failed attempt asks for by itself: on `429 Too Many
/// Requests`, the `Retry-After` value when it parses (seconds or HTTP-date,
/// see [`retry_after_spec`]); `None` means the exponential backoff applies.
pub fn retry_after_for(status: u16, retry_after: Option<&str>, now: Option<i64>) -> (r: Option<u64>)
    ensures
        r == (if status == 429 {
            match retry_after {
                Some(v) => retry_after_spec(v@, now),
                None => None,
            }
        } else {
            None
        }),
{
    if status == 429 {
        match retry_after {
            Some(v) => retry_after_delay(v, now),
            None => None,
        }
    } else {
        None
    }
}

} // verus!

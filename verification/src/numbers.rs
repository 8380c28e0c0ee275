//! Decimal integers as `str::parse` reads them, and the status code of a
//! `<D:status>` line.

use vstd::prelude::*;

use crate::text::{char_in_class, chars_of, in_class, skip_class, skip_class_exec, lemma_skip_class_bounds, CharClass};

verus! {

pub open spec fn is_digit(c: char) -> bool {
    '0' <= c && c <= '9'
}

/// Value of a string of ASCII digits.
pub open spec fn digits_value(d: Seq<char>) -> nat
    decreases d.len(),
{
    if d.len() == 0 {
        0
    } else {
        digits_value(d.drop_last()) * 10 + ((d.last() as u32) - ('0' as u32)) as nat
    }
}

/// The digits of an unsigned number: what follows an optional leading `+`.
pub open spec fn unsigned_digits(s: Seq<char>) -> Seq<char> {
    if s.len() > 0 && s[0] == '+' {
        s.skip(1)
    } else {
        s
    }
}

/// `str::parse` for an unsigned integer type whose largest value is `max`:
/// an optional `+`, then one or more ASCII digits whose value is at most
/// `max`.
pub open spec fn parse_unsigned(s: Seq<char>, max: nat) -> Option<nat> {
    let d = unsigned_digits(s);
    if d.len() > 0 && (forall|i: int| 0 <= i < d.len() ==> is_digit(#[trigger] d[i]))
        && digits_value(d) <= max {
        Some(digits_value(d))
    } else {
        None
    }
}

proof fn lemma_digits_step(d: Seq<char>, acc: nat, cap: nat)
    requires
        d.len() > 0,
        is_digit(d.last()),
        acc == if digits_value(d.drop_last()) < cap { digits_value(d.drop_last()) } else { cap },
        cap > 0,
    ensures
        ({
            let x = acc * 10 + ((d.last() as u32) - ('0' as u32)) as nat;
            (if x < cap { x } else { cap }) == (if digits_value(d) < cap { digits_value(d) } else { cap })
        }),
{
    let v = digits_value(d.drop_last());
    let k = ((d.last() as u32) - ('0' as u32)) as nat;
    assert(digits_value(d) == v * 10 + k);
    if v >= cap {
        assert(v * 10 >= cap * 10) by (nonlinear_arith)
            requires
                v >= cap,
        ;
    }
}

/// `str::parse::<u64>`-style parsing of `v[from..to]` for values up to `max`.
pub fn parse_unsigned_range(v: &[char], from: usize, to: usize, max: u64) -> (r: Option<u64>)
    requires
        from <= to <= v@.len(),
    ensures
        match parse_unsigned(v@.subrange(from as int, to as int), max as nat) {
            Some(n) => r == Some(n as u64),
            None => r is None,
        },
{
    let ghost s = v@.subrange(from as int, to as int);
    let mut start = from;
    if from < to && v[from] == '+' {
        start = from + 1;
    }
    let ghost d = unsigned_digits(s);
    assert(d =~= v@.subrange(start as int, to as int));
    if start >= to {
        return None;
    }
    let cap: u128 = (max as u128) + 1;
    let mut acc: u128 = 0;
    let mut i = start;
    while i < to
        invariant
            start <= i <= to <= v@.len(),
            d == v@.subrange(start as int, to as int),
            d == unsigned_digits(v@.subrange(from as int, to as int)),
            cap == max as nat + 1,
            cap <= 0x1_0000_0000_0000_0000,
            forall|j: int| 0 <= j < i - start ==> is_digit(#[trigger] d[j]),
            acc == if digits_value(d.take(i - start)) < cap { digits_value(d.take(i - start)) } else { cap as nat },
        decreases to - i,
    {
        let c = v[i];
        if !('0' <= c && c <= '9') {
            assert(d[i - start] == c);
            assert(!is_digit(d[i - start]));
            return None;
        }
        let k: u128 = ((c as u32) - ('0' as u32)) as u128;
        proof {
            let p = d.take(i - start + 1);
            assert(p.drop_last() =~= d.take(i - start));
            assert(p.last() == c);
            lemma_digits_step(p, acc as nat, cap as nat);
        }
        let x: u128 = acc * 10 + k;
        acc = if x < cap { x } else { cap };
        i += 1;
    }
    assert(d.take(d.len() as int) =~= d);
    if acc < cap {
        Some(acc as u64)
    } else {
        None
    }
}

/// The index after the run of characters outside class `k` starting at `i`.
pub open spec fn skip_nonclass(s: Seq<char>, i: int, k: CharClass) -> int
    decreases s.len() - i,
{
    if 0 <= i < s.len() && !in_class(s[i], k) {
        skip_nonclass(s, i + 1, k)
    } else {
        i
    }
}

pub proof fn lemma_skip_nonclass_bounds(s: Seq<char>, i: int, k: CharClass)
    requires
        0 <= i <= s.len(),
    ensures
        i <= skip_nonclass(s, i, k) <= s.len(),
        i < s.len() && !in_class(s[i], k) ==> i < skip_nonclass(s, i, k),
    decreases s.len() - i,
{
    if i < s.len() && !in_class(s[i], k) {
        lemma_skip_nonclass_bounds(s, i + 1, k);
    }
}

pub fn skip_nonclass_exec(v: &[char], i: usize, k: CharClass) -> (r: usize)
    requires
        i <= v@.len(),
    ensures
        r == skip_nonclass(v@, i as int, k),
{
    let mut j = i;
    while j < v.len() && !char_in_class(v[j], k)
        invariant
            i <= j <= v@.len(),
            skip_nonclass(v@, i as int, k) == skip_nonclass(v@, j as int, k),
        decreases v.len() - j,
    {
        j += 1;
    }
    j
}

/// A token of a status line read as a status code: a `u16` in `100..=599`.
pub open spec fn status_code_of(t: Seq<char>) -> Option<u16> {
    match parse_unsigned(t, 65535) {
        Some(n) => if 100 <= n && n <= 599 {
            Some(n as u16)
        } else {
            None
        },
        None => None,
    }
}

/// The first ASCII-whitespace-separated token of `s` from `i` on that is a
/// status code.
pub open spec fn status_from(s: Seq<char>, i: int) -> Option<u16>
    decreases s.len() - i,
{
    if i < 0 || i >= s.len() {
        None
    } else {
        let a = skip_class(s, i, CharClass::AsciiWhitespace);
        if a >= s.len() {
            None
        } else {
            let b = skip_nonclass(s, a, CharClass::AsciiWhitespace);
            proof {
                lemma_skip_class_bounds(s, i, CharClass::AsciiWhitespace);
                lemma_skip_nonclass_bounds(s, a, CharClass::AsciiWhitespace);
            }
            match status_code_of(s.subrange(a, b)) {
                Some(c) => Some(c),
                None => status_from(s, b),
            }
        }
    }
}

/// Extract the numeric HTTP status code from a `<D:status>` value: the
/// first ASCII-whitespace-separated token that parses as a `u16` within
/// `100..=599`. Handles `"HTTP/1.1 404 Not Found"` and `"404"` alike and
/// rejects look-alikes such as `"HTTP/1.1 4040 Custom"`.
pub fn http_status_code(status_line: &str) -> (r: Option<u16>)
    ensures
        r == status_from(status_line@, 0),
{
    let v = chars_of(status_line);
    let mut i: usize = 0;
    while i < v.len()
        invariant
            i <= v@.len(),
            v@ == status_line@,
            status_from(v@, 0) == status_from(v@, i as int),
        decreases v.len() - i,
    {
        let a = skip_class_exec(&v, i, CharClass::AsciiWhitespace);
        proof {
            lemma_skip_class_bounds(v@, i as int, CharClass::AsciiWhitespace);
        }
        if a >= v.len() {
            return None;
        }
        let b = skip_nonclass_exec(&v, a, CharClass::AsciiWhitespace);
        proof {
            lemma_skip_nonclass_bounds(v@, a as int, CharClass::AsciiWhitespace);
        }
        let code = parse_unsigned_range(&v, a, b, 65535);
        match code {
            Some(n) => {
                if 100 <= n && n <= 599 {
                    return Some(n as u16);
                }
            },
            None => {},
        }
        i = b;
    }
    None
}

} // verus!

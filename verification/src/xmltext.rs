//! Decoding of XML character data (entity and character references) and
//! bounded accumulation of text.

use vstd::prelude::*;
use vstd::string::*;
use vstd::utf8::*;

use crate::error::{Error, ErrorView, EscapeErrorKind};
use crate::text::{chars_of, copy_range, string_of, string_of_range};
use crate::uri::{first_at, first_at_exec, lemma_first_at};
use crate::xmlread::{spec_unescape, spec_utf8_lossy, unescape, utf8_lossy, utf8_str};

verus! {

/// A reference token decoded leniently: predefined entities and character
/// references resolve, an unknown named entity stays as written.
pub open spec fn lenient_token(token: Seq<char>) -> Result<Seq<char>, EscapeErrorKind> {
    match spec_unescape(token) {
        Ok(d) => Ok(d),
        Err(EscapeErrorKind::UnrecognizedEntity) => Ok(token),
        Err(k) => Err(k),
    }
}

/// Reference-by-reference decoding of `s`: each `&...;` is decoded with
/// [`lenient_token`]; an `&` without a later `;` fails.
pub open spec fn lenient_text(s: Seq<char>) -> Result<Seq<char>, EscapeErrorKind>
    decreases s.len(),
{
    let amp = first_at(s, '&', 0);
    if amp >= s.len() || amp < 0 {
        Ok(s)
    } else {
        let tail = s.skip(amp);
        let semi = first_at(tail, ';', 0);
        if semi >= tail.len() || semi < 0 {
            Err(EscapeErrorKind::UnterminatedEntity)
        } else {
            match lenient_token(tail.take(semi + 1)) {
                Err(k) => Err(k),
                Ok(d) => match lenient_text(tail.skip(semi + 1)) {
                    Err(k) => Err(k),
                    Ok(r) => Ok(s.take(amp) + d + r),
                },
            }
        }
    }
}

/// Second, lenient pass used when the strict decoder met an entity it does
/// not know: unknown named entities are copied through verbatim, while an
/// unterminated `&` or a malformed character reference still fails.
pub fn unescape_lenient(s: &str) -> (r: Result<String, Error>)
    ensures
        match lenient_text(s@) {
            Ok(t) => r matches Ok(x) && x@ == t,
            Err(k) => r matches Err(e) && e@ == ErrorView::Escape(k),
        },
{
    let v = chars_of(s);
    let mut rest = copy_range(&v, 0, v.len());
    assert(rest@ =~= s@);
    let mut out = String::new();
    loop
        invariant
            match lenient_text(s@) {
                Ok(t) => match lenient_text(rest@) {
                    Ok(u) => out@ + u == t,
                    Err(_) => false,
                },
                Err(k) => match lenient_text(rest@) {
                    Ok(_) => false,
                    Err(k2) => k2 == k,
                },
            },
        decreases rest@.len(),
    {
        let amp = first_at_exec(&rest, '&', 0);
        proof {
            lemma_first_at(rest@, '&', 0);
        }
        if amp >= rest.len() {
            let tailstr = string_of(&rest);
            out.append(tailstr.as_str());
            return Ok(out);
        }
        let tail = copy_range(&rest, amp, rest.len());
        assert(tail@ =~= rest@.skip(amp as int));
        let semi = first_at_exec(&tail, ';', 0);
        proof {
            lemma_first_at(tail@, ';', 0);
        }
        if semi >= tail.len() {
            return Err(Error::Escape(EscapeErrorKind::UnterminatedEntity));
        }
        let token = string_of_range(&tail, 0, semi + 1);
        assert(token@ =~= tail@.take(semi + 1));
        let piece = match unescape(token.as_str()) {
            Ok(d) => d,
            Err(EscapeErrorKind::UnrecognizedEntity) => token,
            Err(k) => {
                return Err(Error::Escape(k));
            },
        };
        let head = string_of_range(&rest, 0, amp);
        assert(head@ =~= rest@.take(amp as int));
        out.append(head.as_str());
        out.append(piece.as_str());
        let next = copy_range(&tail, semi + 1, tail.len());
        assert(next@ =~= tail@.skip(semi + 1));
        proof {
            match lenient_text(next@) {
                Ok(u) => {
                    assert(rest@.take(amp as int) + piece@ + u =~= out@.subrange(
                        out@.len() - (rest@.take(amp as int) + piece@).len(),
                        out@.len() as int,
                    ) + u);
                },
                Err(_) => {},
            }
        }
        let ghost old_out = out@;
        rest = next;
        proof {
            assert(old_out == old_out);
        }
    }
}

/// Strict decoding first; on an unknown named entity, the lenient pass.
pub open spec fn decode_str(s: Seq<char>) -> Result<Seq<char>, EscapeErrorKind> {
    match spec_unescape(s) {
        Ok(t) => Ok(t),
        Err(EscapeErrorKind::UnrecognizedEntity) => lenient_text(s),
        Err(k) => Err(k),
    }
}

/// Decoding of raw XML text: valid UTF-8 is decoded as [`decode_str`]
/// says; other bytes are read lossily, as they are.
pub open spec fn decode_text_spec(raw: Seq<u8>) -> Result<Seq<char>, EscapeErrorKind> {
    if valid_utf8(raw) {
        decode_str(decode_utf8(raw))
    } else {
        Ok(spec_utf8_lossy(raw))
    }
}

/// Decode raw XML text content, resolving entity references. Predefined
/// entities and numeric character references are resolved; unknown named
/// entities (e.g. `&nbsp;`) are kept as literal text; malformed numeric
/// references fail.
pub fn decode_text(raw: &[u8]) -> (r: Result<String, Error>)
    ensures
        match decode_text_spec(raw@) {
            Ok(t) => r matches Ok(x) && x@ == t,
            Err(k) => r matches Err(e) && e@ == ErrorView::Escape(k),
        },
{
    match utf8_str(raw) {
        Some(s) => match unescape(s.as_str()) {
            Ok(t) => Ok(t),
            Err(EscapeErrorKind::UnrecognizedEntity) => unescape_lenient(s.as_str()),
            Err(k) => Err(Error::Escape(k)),
        },
        None => Ok(utf8_lossy(raw)),
    }
}

/// Decode one reference token `&name;`: as [`lenient_token`] says.
pub fn decode_entity_token(token: &str) -> (r: Result<String, Error>)
    ensures
        match lenient_token(token@) {
            Ok(t) => r matches Ok(x) && x@ == t,
            Err(k) => r matches Err(e) && e@ == ErrorView::Escape(k),
        },
{
    match unescape(token) {
        Ok(t) => Ok(t),
        Err(EscapeErrorKind::UnrecognizedEntity) => Ok(token.to_owned()),
        Err(k) => Err(Error::Escape(k)),
    }
}

/// Byte length of a string as `str::len` reports it.
pub open spec fn byte_len(s: Seq<char>) -> usize {
    encode_utf8(s).len() as usize
}

/// Append `text` to `target` unless that would push it past `limit` bytes;
/// then fail with `BodyTooLarge`, leaving `target` unchanged.
pub fn append_capped(target: &mut String, text: &str, limit: usize) -> (r: Result<(), Error>)
    ensures
        r is Err <==> byte_len(old(target)@) + byte_len(text@) > limit,
        match r {
            Ok(_) => final(target)@ == old(target)@ + text@,
            Err(e) => e@ == (ErrorView::BodyTooLarge { limit }) && final(target)@ == old(target)@,
        },
{
    let have = target.as_str().len();
    let add = text.len();
    if add > limit || have > limit - add {
        return Err(Error::BodyTooLarge { limit });
    }
    target.append(text);
    Ok(())
}

} // verus!

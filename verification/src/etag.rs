//! Entity-tag and sync-token normalization, and `If-Match` validation
//! (RFC 9110 §8.8.3, §13.1.1).

use vstd::prelude::*;
use vstd::string::*;
use vstd::utf8::*;

use crate::error::{Error, EtagReason};
use crate::text::{
    back_class, chars_of, is_ws, lemma_ascii_utf8, lemma_utf8_append, skip_class, copy_range, has_prefix, push_chars, starts_with_at, string_of_range, trim, trim_bounds, trim_chars,
    trim_quotes, trim_string, CharClass,
};

verus! {

/// `"W/"`, the weak-validator prefix.
pub open spec fn weak_prefix() -> Seq<char> {
    seq!['W', '/']
}

/// An entity-tag with surrounding whitespace removed, then the quotes around
/// its opaque part stripped; the `W/` prefix of a weak tag is kept.
pub open spec fn normalize_etag_spec(s: Seq<char>) -> Seq<char> {
    let t = trim(s);
    if t.len() == 0 {
        Seq::empty()
    } else if has_prefix(t, weak_prefix()) {
        weak_prefix() + trim_quotes(t.skip(2))
    } else {
        trim_quotes(t)
    }
}

/// A sync token with surrounding whitespace and then double quotes removed.
pub open spec fn normalize_sync_token_spec(s: Seq<char>) -> Seq<char> {
    trim_quotes(trim(s))
}

/// Normalize an entity-tag: trim whitespace and strip the double quotes
/// around the opaque tag, keeping a `W/` prefix. `"abc"` becomes `abc`,
/// `W/"abc"` becomes `W/abc`.
pub fn normalize_etag(etag: &str) -> (r: String)
    ensures
        r@ == normalize_etag_spec(etag@),
{
    let v = chars_of(etag);
    let t = trim_chars(&v);
    if t.len() == 0 {
        return String::new();
    }
    let w = ['W', '/'];
    let ws: &[char] = &w;
    assert(ws@ == weak_prefix());
    if starts_with_at(&t, 0, ws) {
        assert(t@.skip(0) == t@);
        let rest = copy_range(&t, 2, t.len());
        assert(rest@ == t@.skip(2));
        let (a, b) = trim_bounds(&rest, CharClass::DoubleQuote);
        let mut out = String::new();
        out.push('W');
        out.push('/');
        let inner = copy_range(&rest, a, b);
        push_chars(&mut out, &inner);
        assert(out@ =~= weak_prefix() + trim_quotes(t@.skip(2)));
        out
    } else {
        assert(t@.skip(0) == t@);
        let (a, b) = trim_bounds(&t, CharClass::DoubleQuote);
        string_of_range(&t, a, b)
    }
}

/// Normalize a sync token: trim whitespace, then strip double quotes.
pub fn normalize_sync_token(token: &str) -> (r: String)
    ensures
        r@ == normalize_sync_token_spec(token@),
{
    let v = chars_of(token);
    let t = trim_chars(&v);
    let (a, b) = trim_bounds(&t, CharClass::DoubleQuote);
    string_of_range(&t, a, b)
}

/// The entity-tag alphabet (`etagc`, RFC 9110 §8.8.3): `!`, `#`..`~`, and
/// obs-text (bytes `0x80` and above).
pub open spec fn is_etag_byte(b: u8) -> bool {
    b == 0x21 || (0x23 <= b && b <= 0x7e) || b >= 0x80
}

/// Whether `byte` belongs to the entity-tag alphabet.
pub fn is_etag_character(byte: u8) -> (r: bool)
    ensures
        r == is_etag_byte(byte),
{
    byte == 0x21u8 || (0x23u8 <= byte && byte <= 0x7eu8) || byte >= 0x80
}

pub open spec fn all_etag_bytes(b: Seq<u8>, from: int, to: int) -> bool {
    forall|i: int| from <= i < to ==> is_etag_byte(#[trigger] b[i])
}

/// Outcome of validating an opaque tag given by its bytes.
pub open spec fn opaque_tag_check(b: Seq<u8>) -> Option<EtagReason> {
    if b.len() == 0 || b.contains(0x22u8) {
        Some(EtagReason::InvalidFormat)
    } else if !all_etag_bytes(b, 0, b.len() as int) {
        Some(EtagReason::InvalidCharacters)
    } else {
        None
    }
}

pub open spec fn etag_error(reason: Option<EtagReason>) -> Result<(), Error> {
    match reason {
        Some(r) => Err(Error::InvalidEtag { reason: r }),
        None => Ok(()),
    }
}

fn all_etag_bytes_exec(b: &[u8], from: usize, to: usize) -> (r: bool)
    requires
        from <= to <= b@.len(),
    ensures
        r == all_etag_bytes(b@, from as int, to as int),
{
    let mut i = from;
    while i < to
        invariant
            from <= i <= to <= b@.len(),
            all_etag_bytes(b@, from as int, i as int),
        decreases to - i,
    {
        if !is_etag_character(b[i]) {
            return false;
        }
        i += 1;
    }
    true
}

fn opaque_tag_reason(b: &[u8], from: usize) -> (r: Option<EtagReason>)
    requires
        from <= b@.len(),
    ensures
        r == opaque_tag_check(b@.skip(from as int)),
{
    let n = b.len();
    if n == from {
        return Some(EtagReason::InvalidFormat);
    }
    let mut i = from;
    while i < n
        invariant
            from <= i <= n == b@.len(),
            forall|j: int| from <= j < i ==> b@[j] != 0x22u8,
        decreases n - i,
    {
        if b[i] == 0x22u8 {
            assert(b@.skip(from as int)[i - from] == 0x22u8);
            return Some(EtagReason::InvalidFormat);
        }
        i += 1;
    }
    assert(!b@.skip(from as int).contains(0x22u8)) by {
        if b@.skip(from as int).contains(0x22u8) {
            let k = choose|k: int| 0 <= k < b@.skip(from as int).len() && b@.skip(from as int)[k]
                == 0x22u8;
            assert(b@[from + k] == 0x22u8);
        }
    }
    let ok = all_etag_bytes_exec(b, from, n);
    assert(ok == all_etag_bytes(b@.skip(from as int), 0, b@.skip(from as int).len() as int)) by {
        if ok {
            assert forall|j: int| 0 <= j < b@.skip(from as int).len() implies is_etag_byte(
                #[trigger] b@.skip(from as int)[j],
            ) by {
                assert(b@.skip(from as int)[j] == b@[from + j]);
            }
        } else {
            let k = choose|k: int| from <= k < n && !is_etag_byte(#[trigger] b@[k]);
            assert(b@.skip(from as int)[k - from] == b@[k]);
        }
    }
    if ok {
        None
    } else {
        Some(EtagReason::InvalidCharacters)
    }
}

/// Validate an opaque entity-tag (the part between the quotes): it must be
/// non-empty, free of double quotes, and made of entity-tag bytes only.
pub fn validate_opaque_tag(opaque: &str) -> (r: Result<(), Error>)
    ensures
        r == etag_error(opaque_tag_check(opaque.spec_bytes())),
{
    let b = opaque.as_bytes();
    assert(b@.skip(0) == b@);
    match opaque_tag_reason(b, 0) {
        Some(reason) => Err(Error::InvalidEtag { reason }),
        None => Ok(()),
    }
}

/// Whether the bytes start with `W/`.
pub open spec fn has_weak_prefix(b: Seq<u8>) -> bool {
    b.len() >= 2 && b[0] == 0x57u8 && b[1] == 0x2fu8
}

/// The bytes with a leading `W/` removed, if present.
pub open spec fn strip_weak(b: Seq<u8>) -> Seq<u8> {
    if has_weak_prefix(b) {
        b.skip(2)
    } else {
        b
    }
}

/// A strong or weak entity-tag: an optional `W/`, then a double-quoted run
/// of entity-tag bytes.
pub open spec fn is_valid_entity_tag_spec(b: Seq<u8>) -> bool {
    let o = strip_weak(b);
    o.len() >= 2 && o[0] == 0x22u8 && o[o.len() - 1] == 0x22u8 && all_etag_bytes(
        o,
        1,
        o.len() - 1,
    )
}

fn is_valid_entity_tag_bytes(b: &[u8]) -> (r: bool)
    ensures
        r == is_valid_entity_tag_spec(b@),
{
    let n = b.len();
    let start: usize = if n >= 2 && b[0] == 0x57u8 && b[1] == 0x2fu8 {
        2
    } else {
        0
    };
    let ghost o = strip_weak(b@);
    assert(o == b@.skip(start as int));
    if n - start < 2 || b[start] != 0x22u8 || b[n - 1] != 0x22u8 {
        return false;
    }
    let ok = all_etag_bytes_exec(b, start + 1, n - 1);
    assert(ok == all_etag_bytes(o, 1, o.len() - 1)) by {
        if ok {
            assert forall|j: int| 1 <= j < o.len() - 1 implies is_etag_byte(#[trigger] o[j]) by {
                assert(o[j] == b@[start + j]);
            }
        } else {
            let k = choose|k: int| start + 1 <= k < n - 1 && !is_etag_byte(#[trigger] b@[k]);
            assert(o[k - start] == b@[k]);
        }
    }
    ok
}

/// Whether `etag` is a syntactically valid entity-tag (`"abc"` or
/// `W/"abc"`).
pub fn is_valid_entity_tag(etag: &str) -> (r: bool)
    ensures
        r == is_valid_entity_tag_spec(etag.spec_bytes()),
{
    is_valid_entity_tag_bytes(etag.as_bytes())
}

/// The `If-Match` header value for `etag`, or why it cannot be used: `*`
/// and quoted strong tags pass through, bare tags are quoted, weak tags and
/// malformed tags are rejected.
pub open spec fn if_match_value_spec(s: Seq<char>) -> Result<Seq<char>, EtagReason> {
    let t = trim(s);
    let b = encode_utf8(t);
    if t.len() == 0 {
        Err(EtagReason::Empty)
    } else if b == seq![0x2au8] || is_valid_entity_tag_spec(b) {
        if has_weak_prefix(b) {
            Err(EtagReason::Weak)
        } else {
            Ok(t)
        }
    } else if has_weak_prefix(b) {
        match opaque_tag_check(b.skip(2)) {
            Some(k) => Err(k),
            None => Err(EtagReason::Weak),
        }
    } else {
        match opaque_tag_check(b) {
            Some(k) => Err(k),
            None => Ok(seq!['"'] + t + seq!['"']),
        }
    }
}

/// Build the `If-Match` header value for a conditional request.
///
/// Accepts `*` and strong entity-tags (quoted, or bare and then quoted);
/// rejects empty, malformed and weak tags: `If-Match` uses strong
/// comparison, so a weak validator would never match.
pub fn if_match_header_value(etag: &str) -> (r: Result<String, Error>)
    ensures
        match if_match_value_spec(etag@) {
            Ok(v) => r matches Ok(s) && s@ == v,
            Err(k) => r == Err::<String, Error>(Error::InvalidEtag { reason: k }),
        },
{
    let t = trim_string(etag);
    let b = t.as_str().as_bytes();
    if t.as_str().is_empty() {
        return Err(Error::InvalidEtag { reason: EtagReason::Empty });
    }
    let star = b.len() == 1 && b[0] == 0x2au8;
    assert(star == (b@ == seq![0x2au8])) by {
        if b@ == seq![0x2au8] {
            assert(b@[0] == 0x2au8);
        }
        if star {
            assert(b@ =~= seq![0x2au8]);
        }
    }
    let weak = b.len() >= 2 && b[0] == 0x57u8 && b[1] == 0x2fu8;
    if star || is_valid_entity_tag_bytes(b) {
        if weak {
            return Err(Error::InvalidEtag { reason: EtagReason::Weak });
        }
        return Ok(t);
    }
    if weak {
        return match opaque_tag_reason(b, 2) {
            Some(reason) => Err(Error::InvalidEtag { reason }),
            None => Err(Error::InvalidEtag { reason: EtagReason::Weak }),
        };
    }
    assert(b@.skip(0) == b@);
    match opaque_tag_reason(b, 0) {
        Some(reason) => Err(Error::InvalidEtag { reason }),
        None => {
            let mut out = String::new();
            out.push('"');
            out.append(t.as_str());
            out.push('"');
            Ok(out)
        },
    }
}

/// Every `If-Match` value that is produced is `*` or a strong entity-tag:
/// a double-quoted run of entity-tag bytes without the `W/` prefix.
pub proof fn lemma_if_match_value_is_strong_tag(s: Seq<char>)
    ensures
        if_match_value_spec(s) matches Ok(v) ==> {
            let b = encode_utf8(v);
            b == seq![0x2au8] || (is_valid_entity_tag_spec(b) && !has_weak_prefix(b))
        },
{
    let t = trim(s);
    let b = encode_utf8(t);
    if t.len() > 0 && !(b == seq![0x2au8] || is_valid_entity_tag_spec(b)) && !has_weak_prefix(b)
        && opaque_tag_check(b) is None {
        let q = seq!['"'];
        lemma_ascii_utf8('"');
        lemma_utf8_append(q, t);
        lemma_utf8_append(q + t, q);
        let v = q + t + q;
        let vb = encode_utf8(v);
        assert(vb =~= seq![0x22u8] + b + seq![0x22u8]);
        assert(!has_weak_prefix(vb));
        assert(strip_weak(vb) == vb);
        assert forall|i: int| 1 <= i < vb.len() - 1 implies is_etag_byte(#[trigger] vb[i]) by {
            assert(vb[i] == b[i - 1]);
        }
    }
}

/// A strong entity-tag as a server sends it, normalized (its quotes
/// stripped) and then handed back for a conditional request, is sent as
/// the server wrote it. Left out: tags whose opaque part would read as
/// another form once unquoted (`*`, or beginning with `W/`) or carries
/// whitespace at either end.
pub proof fn lemma_if_match_requotes_normalized_tag(inner: Seq<char>)
    requires
        inner.len() > 0,
        all_etag_bytes(encode_utf8(inner), 0, encode_utf8(inner).len() as int),
        trim(inner) == inner,
        !has_weak_prefix(encode_utf8(inner)),
        encode_utf8(inner) != seq![0x2au8],
    ensures
        if_match_value_spec(normalize_etag_spec(seq!['"'] + inner + seq!['"'])) == Ok::<Seq<char>, EtagReason>(
            seq!['"'] + inner + seq!['"'],
        ),
{
    let q = seq!['"'];
    let t = q + inner + q;
    let b = encode_utf8(inner);
    let n = t.len() as int;
    lemma_ascii_utf8('"');
    // The opaque part starts and ends with characters other than `"`.
    assert(b == encode_scalar(inner[0] as u32) + encode_utf8(inner.drop_first()));
    assert(inner[0] != '"') by {
        if inner[0] == '"' {
            assert(encode_scalar(inner[0] as u32) == seq![0x22u8]);
            assert(b[0] == 0x22u8);
        }
    }
    assert(inner.last() != '"') by {
        let front = inner.drop_last();
        assert(inner =~= front + seq![inner.last()]);
        lemma_utf8_append(front, seq![inner.last()]);
        if inner.last() == '"' {
            assert(b[b.len() - 1] == 0x22u8);
        }
    }
    // Normalization: `t` has nothing to trim and no `W/` prefix, and its
    // quotes come off.
    assert(t[0] == '"' && t[n - 1] == '"');
    assert(!is_ws(t[0]) && !is_ws(t[n - 1]));
    assert(skip_class(t, 0, CharClass::Whitespace) == 0);
    assert(back_class(t, 0, n, CharClass::Whitespace) == n);
    assert(trim(t) =~= t);
    assert(!has_prefix(t, weak_prefix())) by {
        assert(t.subrange(0, 2)[0] == '"');
    }
    assert(t[1] == inner[0]);
    assert(skip_class(t, 1, CharClass::DoubleQuote) == 1);
    assert(skip_class(t, 0, CharClass::DoubleQuote) == 1);
    assert(t[n - 2] == inner.last());
    assert(back_class(t, 1, n - 1, CharClass::DoubleQuote) == n - 1);
    assert(back_class(t, 1, n, CharClass::DoubleQuote) == n - 1);
    assert(trim_quotes(t) =~= inner);
    assert(normalize_etag_spec(t) == inner);
    // The `If-Match` value of the opaque part: it is no entity-tag by
    // itself, so it is quoted.
    assert(b.len() > 0);
    assert(is_etag_byte(b[0]));
    assert(!is_valid_entity_tag_spec(b)) by {
        assert(strip_weak(b) == b);
    }
    assert(!b.contains(0x22u8)) by {
        if b.contains(0x22u8) {
            let j = choose|j: int| 0 <= j < b.len() && b[j] == 0x22u8;
            assert(is_etag_byte(b[j]));
        }
    }
    assert(opaque_tag_check(b) is None);
}

} // verus!

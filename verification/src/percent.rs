//! What path percent-encoding guarantees: the encoded form never carries
//! a raw `?` or `#`, and encoding it again changes nothing.

use vstd::prelude::*;
use vstd::utf8::*;

use crate::text::{lemma_ascii_utf8, lemma_utf8_append};
use crate::uri::{
    encode_path_segments_spec, first_at, hex_upper, in_encode_set, is_hex_char, lemma_first_at,
    pct_bytes, should_encode, EncodeSet,
};

verus! {

/// A character that path encoding leaves as it is: ASCII outside the
/// escaped set.
pub open spec fn plain_path_char(c: char) -> bool {
    (c as u32) < 0x80 && !in_encode_set((c as u32) as u8, EncodeSet::PathSegment)
}

/// Position `i` of `w` is as encoding leaves it: a plain character, and a
/// `%` only as the start of a `%XX` escape.
pub open spec fn encoded_at(w: Seq<char>, i: int) -> bool {
    &&& plain_path_char(w[i])
    &&& w[i] == '%' ==> i + 2 < w.len() && is_hex_char(w[i + 1]) && is_hex_char(w[i + 2])
}

/// A path in the form that `encode_path_segments` produces.
pub open spec fn is_encoded_path(w: Seq<char>) -> bool {
    forall|i: int| 0 <= i < w.len() ==> #[trigger] encoded_at(w, i)
}

proof fn lemma_pct_append(a: Seq<u8>, b: Seq<u8>, set: EncodeSet)
    ensures
        pct_bytes(a + b, set) == pct_bytes(a, set) + pct_bytes(b, set),
    decreases b.len(),
{
    if b.len() == 0 {
        assert(a + b =~= a);
        assert(pct_bytes(a, set) + pct_bytes(b, set) =~= pct_bytes(a, set));
    } else {
        assert((a + b).drop_last() =~= a + b.drop_last());
        assert((a + b).last() == b.last());
        lemma_pct_append(a, b.drop_last(), set);
        assert(pct_bytes(a + b, set) =~= pct_bytes(a, set) + pct_bytes(b, set));
    }
}

/// Plain characters other than `%` come out of path encoding unchanged.
proof fn lemma_plain_unchanged(w: Seq<char>)
    requires
        forall|i: int| 0 <= i < w.len() ==> plain_path_char(#[trigger] w[i]) && w[i] != '%',
    ensures
        pct_bytes(encode_utf8(w), EncodeSet::PathSegment) == w,
    decreases w.len(),
{
    if w.len() > 0 {
        let front = w.drop_last();
        let c = w.last();
        assert(w =~= front + seq![c]);
        lemma_utf8_append(front, seq![c]);
        lemma_ascii_utf8(c);
        let x = (c as u32) as u8;
        let b = encode_utf8(front) + seq![x];
        assert(b.drop_last() =~= encode_utf8(front));
        assert(b.last() == x);
        assert(!should_encode(x, EncodeSet::PathSegment));
        lemma_plain_unchanged(front);
        assert(pct_bytes(b, EncodeSet::PathSegment) =~= front + seq![c]);
    }
}

/// No byte of the UTF-8 encoding of a scalar other than `%` is `%`'s byte.
proof fn lemma_scalar_bytes_not_percent(u: u32)
    requires
        u != 0x25,
    ensures
        forall|j: int| 0 <= j < encode_scalar(u).len() ==> #[trigger] encode_scalar(u)[j] != 0x25u8,
{
    if has_width_1_encoding(u) {
        assert(u & 0x7F == u) by (bit_vector)
            requires
                u <= 0x7F,
        ;
        assert((u & 0x7F) as u8 != 0x25u8);
    } else {
        assert((0xC0u8 | (((u >> 6) & 0x1F) as u8)) >= 0x80u8) by (bit_vector);
        assert((0xE0u8 | (((u >> 12) & 0x0F) as u8)) >= 0x80u8) by (bit_vector);
        assert((0xF0u8 | (((u >> 18) & 0x7) as u8)) >= 0x80u8) by (bit_vector);
        assert((0x80u8 | ((u & 0x3F) as u8)) >= 0x80u8) by (bit_vector);
        assert((0x80u8 | (((u >> 6) & 0x3F) as u8)) >= 0x80u8) by (bit_vector);
        assert((0x80u8 | (((u >> 12) & 0x3F) as u8)) >= 0x80u8) by (bit_vector);
    }
}

/// Characters other than `%` encode to bytes other than `%`'s.
proof fn lemma_utf8_no_percent(t: Seq<char>)
    requires
        forall|i: int| 0 <= i < t.len() ==> #[trigger] t[i] != '%',
    ensures
        forall|j: int| 0 <= j < encode_utf8(t).len() ==> #[trigger] encode_utf8(t)[j] != 0x25u8,
    decreases t.len(),
{
    if t.len() > 0 {
        let u = t[0] as u32;
        assert(u != 0x25) by {
            char_u32_cast(t[0], u);
        }
        lemma_scalar_bytes_not_percent(u);
        assert forall|i: int| 0 <= i < t.drop_first().len() implies #[trigger] t.drop_first()[i] != '%' by {
            assert(t.drop_first()[i] == t[i + 1]);
        }
        lemma_utf8_no_percent(t.drop_first());
        let e = encode_utf8(t);
        assert(e == encode_scalar(u) + encode_utf8(t.drop_first()));
        assert forall|j: int| 0 <= j < e.len() implies #[trigger] e[j] != 0x25u8 by {
            if j < encode_scalar(u).len() {
                assert(e[j] == encode_scalar(u)[j]);
            } else {
                assert(e[j] == encode_utf8(t.drop_first())[j - encode_scalar(u).len()]);
            }
        }
    }
}

/// Two encoded paths side by side form an encoded path.
proof fn lemma_encoded_concat(a: Seq<char>, b: Seq<char>)
    requires
        is_encoded_path(a),
        is_encoded_path(b),
    ensures
        is_encoded_path(a + b),
{
    let w = a + b;
    assert forall|i: int| 0 <= i < w.len() implies #[trigger] encoded_at(w, i) by {
        if i < a.len() {
            assert(encoded_at(a, i));
        } else {
            assert(encoded_at(b, i - a.len()));
        }
    }
}

/// The uppercase hexadecimal digits that escapes use are plain hex digits.
proof fn lemma_hex_upper(n: u8)
    requires
        n < 16,
    ensures
        is_hex_char(hex_upper(n)),
        plain_path_char(hex_upper(n)),
        hex_upper(n) != '%',
{
}

/// The escape of one byte is an encoded path.
proof fn lemma_piece_encoded(x: u8)
    requires
        x != 0x25,
    ensures
        is_encoded_path(pct_bytes(seq![x], EncodeSet::PathSegment)),
{
    let one = seq![x];
    assert(one.drop_last() =~= Seq::<u8>::empty());
    assert(one.last() == x);
    let piece = pct_bytes(one, EncodeSet::PathSegment);
    assert(pct_bytes(Seq::<u8>::empty(), EncodeSet::PathSegment) == Seq::<char>::empty());
    assert(piece == pct_bytes(one.drop_last(), EncodeSet::PathSegment) + if should_encode(x, EncodeSet::PathSegment) {
        seq!['%', hex_upper(x / 16), hex_upper(x % 16)]
    } else {
        seq![x as char]
    });
    if should_encode(x, EncodeSet::PathSegment) {
        lemma_hex_upper(x / 16);
        lemma_hex_upper(x % 16);
        assert(piece =~= seq!['%', hex_upper(x / 16), hex_upper(x % 16)]);
        assert(encoded_at(piece, 0));
        assert(encoded_at(piece, 1));
        assert(encoded_at(piece, 2));
    } else {
        assert(piece =~= seq![x as char]);
        assert(encoded_at(piece, 0));
    }
}

/// Path encoding of bytes other than `%`'s yields an encoded path.
proof fn lemma_pct_encoded(b: Seq<u8>)
    requires
        forall|j: int| 0 <= j < b.len() ==> #[trigger] b[j] != 0x25u8,
    ensures
        is_encoded_path(pct_bytes(b, EncodeSet::PathSegment)),
    decreases b.len(),
{
    if b.len() > 0 {
        let front = b.drop_last();
        let x = b.last();
        assert(b =~= front + seq![x]);
        lemma_pct_append(front, seq![x], EncodeSet::PathSegment);
        lemma_pct_encoded(front);
        lemma_piece_encoded(x);
        lemma_encoded_concat(pct_bytes(front, EncodeSet::PathSegment), pct_bytes(seq![x], EncodeSet::PathSegment));
    }
}

/// What path encoding produces is an encoded path.
proof fn lemma_encode_path_encoded(s: Seq<char>)
    ensures
        is_encoded_path(encode_path_segments_spec(s)),
    decreases s.len(),
{
    let p = first_at(s, '%', 0);
    lemma_first_at(s, '%', 0);
    if p >= s.len() {
        lemma_utf8_no_percent(s);
        lemma_pct_encoded(encode_utf8(s));
    } else {
        let pre = s.take(p);
        assert forall|i: int| 0 <= i < pre.len() implies #[trigger] pre[i] != '%' by {
            assert(pre[i] == s[i]);
        }
        lemma_utf8_no_percent(pre);
        lemma_pct_encoded(encode_utf8(pre));
        let head = pct_bytes(encode_utf8(pre), EncodeSet::PathSegment);
        let tail = s.skip(p);
        assert(tail[0] == '%');
        if tail.len() >= 3 && is_hex_char(tail[1]) && is_hex_char(tail[2]) {
            let esc = tail.take(3);
            assert(encoded_at(esc, 0));
            assert(encoded_at(esc, 1));
            assert(encoded_at(esc, 2));
            lemma_encode_path_encoded(tail.skip(3));
            lemma_encoded_concat(head, esc);
            lemma_encoded_concat(head + esc, encode_path_segments_spec(tail.skip(3)));
        } else {
            let esc = seq!['%', '2', '5'];
            assert(encoded_at(esc, 0));
            assert(encoded_at(esc, 1));
            assert(encoded_at(esc, 2));
            lemma_encode_path_encoded(tail.skip(1));
            lemma_encoded_concat(head, esc);
            lemma_encoded_concat(head + esc, encode_path_segments_spec(tail.skip(1)));
        }
    }
}

/// Path encoding leaves an encoded path as it is.
proof fn lemma_encoded_path_fixed(w: Seq<char>)
    requires
        is_encoded_path(w),
    ensures
        encode_path_segments_spec(w) == w,
    decreases w.len(),
{
    let p = first_at(w, '%', 0);
    lemma_first_at(w, '%', 0);
    if p >= w.len() {
        assert forall|i: int| 0 <= i < w.len() implies plain_path_char(#[trigger] w[i]) && w[i] != '%' by {
            assert(encoded_at(w, i));
        }
        lemma_plain_unchanged(w);
    } else {
        let pre = w.take(p);
        assert forall|i: int| 0 <= i < pre.len() implies plain_path_char(#[trigger] pre[i]) && pre[i] != '%' by {
            assert(pre[i] == w[i]);
            assert(encoded_at(w, i));
        }
        lemma_plain_unchanged(pre);
        let tail = w.skip(p);
        assert(encoded_at(w, p));
        assert(tail[0] == '%' && tail[1] == w[p + 1] && tail[2] == w[p + 2]);
        let rest = tail.skip(3);
        assert forall|i: int| 0 <= i < rest.len() implies #[trigger] encoded_at(rest, i) by {
            assert(encoded_at(w, p + 3 + i));
            assert(rest[i] == w[p + 3 + i]);
            if rest[i] == '%' {
                assert(rest[i + 1] == w[p + 3 + i + 1]);
                assert(rest[i + 2] == w[p + 3 + i + 2]);
            }
        }
        lemma_encoded_path_fixed(rest);
        assert(pre + tail.take(3) + rest =~= w);
    }
}

/// Percent-encoding a path yields text without a raw `?` or `#` (so no
/// resource name can reach the query or fragment), and encoding that text
/// again gives it back unchanged: escapes already there are never decoded
/// or encoded twice.
pub proof fn lemma_encode_path_segments_idempotent(s: Seq<char>)
    ensures
        encode_path_segments_spec(encode_path_segments_spec(s)) == encode_path_segments_spec(s),
        forall|i: int|
            0 <= i < encode_path_segments_spec(s).len() ==> #[trigger] encode_path_segments_spec(s)[i]
                != '?' && encode_path_segments_spec(s)[i] != '#',
{
    let e = encode_path_segments_spec(s);
    lemma_encode_path_encoded(s);
    lemma_encoded_path_fixed(e);
    assert forall|i: int| 0 <= i < e.len() implies #[trigger] e[i] != '?' && e[i] != '#' by {
        assert(encoded_at(e, i));
    }
}

} // verus!

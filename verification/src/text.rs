//! Character-sequence helpers: trimming, splitting, prefix tests and
//! ASCII-case-insensitive comparison, each with its mathematical meaning.

use vstd::prelude::*;
use vstd::utf8::*;

verus! {

/// Appending one character to a `String` extends its view by that character.
pub assume_specification[ String::push ](s: &mut String, ch: char)
    ensures
        final(s)@ == old(s)@.push(ch),
;

/// Classes of characters that trimming and splitting skip over.
#[derive(Clone, Copy, PartialEq, Eq, Debug)]
pub enum CharClass {
    /// Unicode `White_Space` (what `char::is_whitespace` accepts).
    Whitespace,
    /// ASCII whitespace: space, tab, line feed, form feed, carriage return.
    AsciiWhitespace,
    /// The double quote `"`.
    DoubleQuote,
    /// The slash `/`.
    Slash,
}

/// Unicode `White_Space` code points.
pub open spec fn is_ws(c: char) -> bool {
    let u = c as u32;
    (0x9 <= u && u <= 0xd) || u == 0x20 || u == 0x85 || u == 0xa0 || u == 0x1680 || (0x2000 <= u
        && u <= 0x200a) || u == 0x2028 || u == 0x2029 || u == 0x202f || u == 0x205f || u == 0x3000
}

/// ASCII whitespace as `char::is_ascii_whitespace` defines it.
pub open spec fn is_ascii_ws(c: char) -> bool {
    c == ' ' || c == '\t' || c == '\n' || c == '\x0C' || c == '\r'
}

pub open spec fn in_class(c: char, k: CharClass) -> bool {
    match k {
        CharClass::Whitespace => is_ws(c),
        CharClass::AsciiWhitespace => is_ascii_ws(c),
        CharClass::DoubleQuote => c == '"',
        CharClass::Slash => c == '/',
    }
}

pub fn char_in_class(c: char, k: CharClass) -> (r: bool)
    ensures
        r == in_class(c, k),
{
    match k {
        CharClass::Whitespace => {
            let u = c as u32;
            (0x9 <= u && u <= 0xd) || u == 0x20 || u == 0x85 || u == 0xa0 || u == 0x1680 || (0x2000
                <= u && u <= 0x200a) || u == 0x2028 || u == 0x2029 || u == 0x202f || u == 0x205f
                || u == 0x3000
        },
        CharClass::AsciiWhitespace => c == ' ' || c == '\t' || c == '\n' || c == '\x0C' || c
            == '\r',
        CharClass::DoubleQuote => c == '"',
        CharClass::Slash => c == '/',
    }
}

/// First index at or after `i` whose character is not in class `k`.
pub open spec fn skip_class(s: Seq<char>, i: int, k: CharClass) -> int
    decreases s.len() - i,
{
    if 0 <= i < s.len() && in_class(s[i], k) {
        skip_class(s, i + 1, k)
    } else {
        i
    }
}

/// Walking back from `j` (not below `lo`), the end of the run of class-`k`
/// characters that precedes `j`.
pub open spec fn back_class(s: Seq<char>, lo: int, j: int, k: CharClass) -> int
    decreases j - lo,
{
    if lo < j && j <= s.len() && in_class(s[j - 1], k) {
        back_class(s, lo, j - 1, k)
    } else {
        j
    }
}

/// `s` with leading and trailing characters of class `k` removed.
pub open spec fn trim_class(s: Seq<char>, k: CharClass) -> Seq<char> {
    let a = skip_class(s, 0, k);
    s.subrange(a, back_class(s, a, s.len() as int, k))
}

/// `str::trim`: leading and trailing Unicode whitespace removed.
pub open spec fn trim(s: Seq<char>) -> Seq<char> {
    trim_class(s, CharClass::Whitespace)
}

/// `str::trim_start`.
pub open spec fn trim_start(s: Seq<char>) -> Seq<char> {
    s.skip(skip_class(s, 0, CharClass::Whitespace))
}

/// `str::trim_matches('"')`.
pub open spec fn trim_quotes(s: Seq<char>) -> Seq<char> {
    trim_class(s, CharClass::DoubleQuote)
}

pub proof fn lemma_skip_class_bounds(s: Seq<char>, i: int, k: CharClass)
    requires
        0 <= i <= s.len(),
    ensures
        i <= skip_class(s, i, k) <= s.len(),
        skip_class(s, i, k) < s.len() ==> !in_class(s[skip_class(s, i, k)], k),
        forall|j: int| i <= j < skip_class(s, i, k) ==> in_class(#[trigger] s[j], k),
    decreases s.len() - i,
{
    if i < s.len() && in_class(s[i], k) {
        lemma_skip_class_bounds(s, i + 1, k);
    }
}

pub proof fn lemma_back_class_bounds(s: Seq<char>, lo: int, j: int, k: CharClass)
    requires
        0 <= lo <= j <= s.len(),
    ensures
        lo <= back_class(s, lo, j, k) <= j,
        lo < back_class(s, lo, j, k) ==> !in_class(s[back_class(s, lo, j, k) - 1], k),
        forall|m: int| back_class(s, lo, j, k) <= m < j ==> in_class(#[trigger] s[m], k),
    decreases j - lo,
{
    if lo < j && in_class(s[j - 1], k) {
        lemma_back_class_bounds(s, lo, j - 1, k);
    }
}

/// Index of the first character at or after `i` outside class `k`.
pub fn skip_class_exec(v: &[char], i: usize, k: CharClass) -> (r: usize)
    requires
        i <= v@.len(),
    ensures
        r == skip_class(v@, i as int, k),
{
    let mut j = i;
    while j < v.len() && char_in_class(v[j], k)
        invariant
            i <= j <= v@.len(),
            skip_class(v@, i as int, k) == skip_class(v@, j as int, k),
        decreases v.len() - j,
    {
        j += 1;
    }
    j
}

/// End of `v[lo..j]` once trailing class-`k` characters are dropped.
pub fn back_class_exec(v: &[char], lo: usize, j: usize, k: CharClass) -> (r: usize)
    requires
        lo <= j <= v@.len(),
    ensures
        r == back_class(v@, lo as int, j as int, k),
{
    let mut e = j;
    while lo < e && char_in_class(v[e - 1], k)
        invariant
            lo <= e <= j,
            j <= v@.len(),
            back_class(v@, lo as int, j as int, k) == back_class(v@, lo as int, e as int, k),
        decreases e - lo,
    {
        e -= 1;
    }
    e
}

/// The characters of `s`, in order.
pub fn chars_of(s: &str) -> (v: Vec<char>)
    ensures
        v@ == s@,
{
    let mut v: Vec<char> = Vec::new();
    for c in it: s.chars()
        invariant
            v@ == it.seq().take(it.index() as int),
            it.seq() == s@,
    {
        v.push(c);
    }
    v
}

/// Copy `v[a..b]` into a new vector.
pub fn copy_range(v: &[char], a: usize, b: usize) -> (r: Vec<char>)
    requires
        a <= b <= v@.len(),
    ensures
        r@ == v@.subrange(a as int, b as int),
{
    let mut r: Vec<char> = Vec::new();
    let mut i = a;
    while i < b
        invariant
            a <= i <= b <= v@.len(),
            r@ == v@.subrange(a as int, i as int),
        decreases b - i,
    {
        r.push(v[i]);
        assert(v@.subrange(a as int, i as int + 1) == v@.subrange(a as int, i as int).push(
            v@[i as int],
        ));
        i += 1;
    }
    r
}

/// A `String` holding exactly the characters `v[from..to]`.
pub fn string_of_range(v: &[char], from: usize, to: usize) -> (s: String)
    requires
        from <= to <= v@.len(),
    ensures
        s@ == v@.subrange(from as int, to as int),
{
    let mut s = String::new();
    let mut i: usize = from;
    while i < to
        invariant
            from <= i <= to <= v@.len(),
            s@ == v@.subrange(from as int, i as int),
        decreases to - i,
    {
        s.push(v[i]);
        assert(v@.subrange(from as int, i as int + 1) == v@.subrange(from as int, i as int).push(
            v@[i as int],
        ));
        i += 1;
    }
    s
}

/// A `String` holding exactly the characters of `v`.
pub fn string_of(v: &[char]) -> (s: String)
    ensures
        s@ == v@,
{
    let s = string_of_range(v, 0, v.len());
    assert(v@.subrange(0, v@.len() as int) == v@);
    s
}

/// Append every character of `v` to `out`.
pub fn push_chars(out: &mut String, v: &[char])
    ensures
        final(out)@ == old(out)@ + v@,
{
    let mut i: usize = 0;
    while i < v.len()
        invariant
            i <= v@.len(),
            out@ == old(out)@ + v@.take(i as int),
        decreases v.len() - i,
    {
        out.push(v[i]);
        assert(v@.take(i as int + 1) == v@.take(i as int).push(v@[i as int]));
        i += 1;
    }
    assert(v@.take(v@.len() as int) == v@);
}

/// Bounds `(a, b)` such that `v[a..b]` is `v` trimmed of class-`k` characters.
pub fn trim_bounds(v: &[char], k: CharClass) -> (r: (usize, usize))
    ensures
        r.0 == skip_class(v@, 0, k),
        r.1 == back_class(v@, r.0 as int, v@.len() as int, k),
        r.0 <= r.1 <= v@.len(),
        v@.subrange(r.0 as int, r.1 as int) == trim_class(v@, k),
{
    let a = skip_class_exec(v, 0, k);
    proof {
        lemma_skip_class_bounds(v@, 0, k);
    }
    let b = back_class_exec(v, a, v.len(), k);
    proof {
        lemma_back_class_bounds(v@, a as int, v@.len() as int, k);
    }
    (a, b)
}

/// `str::trim`, as characters.
pub fn trim_chars(v: &[char]) -> (r: Vec<char>)
    ensures
        r@ == trim(v@),
{
    let (a, b) = trim_bounds(v, CharClass::Whitespace);
    let mut r: Vec<char> = Vec::new();
    let mut i = a;
    while i < b
        invariant
            a <= i <= b <= v@.len(),
            r@ == v@.subrange(a as int, i as int),
        decreases b - i,
    {
        r.push(v[i]);
        assert(v@.subrange(a as int, i as int + 1) == v@.subrange(a as int, i as int).push(
            v@[i as int],
        ));
        i += 1;
    }
    r
}

/// `str::trim` of `s`, as an owned `String`.
pub fn trim_string(s: &str) -> (r: String)
    ensures
        r@ == trim(s@),
{
    let v = chars_of(s);
    let (a, b) = trim_bounds(&v, CharClass::Whitespace);
    string_of_range(&v, a, b)
}

/// `true` when `p` is a prefix of `s`.
pub open spec fn has_prefix(s: Seq<char>, p: Seq<char>) -> bool {
    p.len() <= s.len() && s.subrange(0, p.len() as int) == p
}

/// Whether `v[from..]` starts with `p`.
pub fn starts_with_at(v: &[char], from: usize, p: &[char]) -> (r: bool)
    requires
        from <= v@.len(),
    ensures
        r == has_prefix(v@.skip(from as int), p@),
{
    if p.len() > v.len() - from {
        return false;
    }
    let mut i: usize = 0;
    while i < p.len()
        invariant
            i <= p@.len(),
            from + p@.len() <= v@.len(),
            v@.len() <= usize::MAX,
            forall|j: int| 0 <= j < i ==> v@[from + j] == p@[j],
        decreases p.len() - i,
    {
        if v[from + i] != p[i] {
            assert(v@.skip(from as int).subrange(0, p@.len() as int)[i as int] != p@[i as int]);
            return false;
        }
        i += 1;
    }
    assert(v@.skip(from as int).subrange(0, p@.len() as int) =~= p@);
    true
}

/// Code point of the ASCII-lowercased character (non-ASCII-uppercase
/// characters keep their own code point).
pub open spec fn lower_code(c: char) -> u32 {
    if 'A' <= c && c <= 'Z' {
        ((c as u32) + 32) as u32
    } else {
        c as u32
    }
}

pub fn lower_code_exec(c: char) -> (r: u32)
    ensures
        r == lower_code(c),
{
    if 'A' <= c && c <= 'Z' {
        (c as u32) + 32
    } else {
        c as u32
    }
}

/// ASCII-case-insensitive equality of character sequences
/// (`str::eq_ignore_ascii_case`).
pub open spec fn eq_ignore_case(a: Seq<char>, b: Seq<char>) -> bool {
    a.len() == b.len() && forall|i: int| 0 <= i < a.len() ==> lower_code(#[trigger] a[i]) == lower_code(b[i])
}

pub fn eq_ignore_case_exec(a: &[char], b: &[char]) -> (r: bool)
    ensures
        r == eq_ignore_case(a@, b@),
{
    if a.len() != b.len() {
        return false;
    }
    let mut i: usize = 0;
    while i < a.len()
        invariant
            a@.len() == b@.len(),
            i <= a@.len(),
            forall|j: int| 0 <= j < i ==> lower_code(#[trigger] a@[j]) == lower_code(b@[j]),
        decreases a.len() - i,
    {
        if lower_code_exec(a[i]) != lower_code_exec(b[i]) {
            return false;
        }
        i += 1;
    }
    true
}

/// Whether the character `c` occurs in `s`.
pub fn contains_char(v: &[char], c: char) -> (r: bool)
    ensures
        r == v@.contains(c),
{
    let mut i: usize = 0;
    while i < v.len()
        invariant
            i <= v@.len(),
            forall|j: int| 0 <= j < i ==> v@[j] != c,
        decreases v.len() - i,
    {
        if v[i] == c {
            assert(v@[i as int] == c);
            return true;
        }
        i += 1;
    }
    false
}


/// `str::split(c)`: the pieces between occurrences of `c` (always at least
/// one piece; empty pieces are kept).
pub open spec fn split_on(s: Seq<char>, c: char) -> Seq<Seq<char>>
    decreases s.len(),
{
    if s.len() == 0 {
        seq![Seq::empty()]
    } else {
        let p = split_on(s.drop_last(), c);
        if s.last() == c {
            p.push(Seq::empty())
        } else {
            p.update(p.len() - 1, p.last().push(s.last()))
        }
    }
}

pub proof fn lemma_split_on_nonempty(s: Seq<char>, c: char)
    ensures
        split_on(s, c).len() >= 1,
    decreases s.len(),
{
    if s.len() > 0 {
        lemma_split_on_nonempty(s.drop_last(), c);
    }
}

/// The pieces joined back together with `sep` between consecutive pieces.
pub open spec fn join(p: Seq<Seq<char>>, sep: char) -> Seq<char>
    decreases p.len(),
{
    if p.len() == 0 {
        Seq::empty()
    } else if p.len() == 1 {
        p[0]
    } else {
        join(p.drop_last(), sep) + seq![sep] + p.last()
    }
}

/// The character sequences held by a vector of character vectors.
pub open spec fn views(v: Seq<Vec<char>>) -> Seq<Seq<char>> {
    v.map_values(|x: Vec<char>| x@)
}

/// Split `v` on every occurrence of `c`.
pub fn split_chars(v: &[char], c: char) -> (r: Vec<Vec<char>>)
    ensures
        views(r@) == split_on(v@, c),
{
    let mut pieces: Vec<Vec<char>> = Vec::new();
    let mut cur: Vec<char> = Vec::new();
    let mut i: usize = 0;
    assert(v@.take(0) =~= Seq::<char>::empty());
    assert(views(pieces@).push(cur@) =~= split_on(v@.take(0), c));
    while i < v.len()
        invariant
            i <= v@.len(),
            views(pieces@).push(cur@) == split_on(v@.take(i as int), c),
        decreases v.len() - i,
    {
        let ghost before = views(pieces@);
        let ch = v[i];
        assert(v@.take(i as int + 1).drop_last() =~= v@.take(i as int));
        assert(v@.take(i as int + 1).last() == ch);
        if ch == c {
            let done = cur;
            cur = Vec::new();
            pieces.push(done);
            assert(views(pieces@) =~= before.push(done@));
            assert(views(pieces@).push(cur@) =~= split_on(v@.take(i as int + 1), c));
        } else {
            let ghost old_cur = cur@;
            cur.push(ch);
            assert(views(pieces@).push(cur@) =~= before.push(old_cur).update(
                before.len() as int,
                old_cur.push(ch),
            ));
        }
        i += 1;
    }
    let ghost before = views(pieces@);
    pieces.push(cur);
    assert(views(pieces@) =~= before.push(cur@));
    assert(v@.take(v@.len() as int) =~= v@);
    pieces
}

/// Join `p` with `sep` between consecutive pieces.
pub fn join_chars(p: &Vec<Vec<char>>, sep: char) -> (r: Vec<char>)
    ensures
        r@ == join(views(p@), sep),
{
    let mut out: Vec<char> = Vec::new();
    let mut i: usize = 0;
    while i < p.len()
        invariant
            i <= p@.len(),
            out@ == join(views(p@).take(i as int), sep),
        decreases p.len() - i,
    {
        let ghost pd = views(p@);
        assert(pd.take(i as int + 1).drop_last() =~= pd.take(i as int));
        if i > 0 {
            out.push(sep);
        }
        let piece = &p[i];
        let mut j: usize = 0;
        let ghost start = out@;
        while j < piece.len()
            invariant
                j <= piece@.len(),
                out@ == start + piece@.take(j as int),
            decreases piece.len() - j,
        {
            out.push(piece[j]);
            assert(piece@.take(j as int + 1) =~= piece@.take(j as int).push(piece@[j as int]));
            j += 1;
        }
        assert(piece@.take(piece@.len() as int) =~= piece@);
        assert(pd[i as int] == piece@);
        if i == 0 {
            assert(pd.take(1) =~= seq![piece@]);
        }
        assert(out@ =~= join(pd.take(i as int + 1), sep));
        i += 1;
    }
    assert(views(p@).take(p@.len() as int) =~= views(p@));
    out
}

/// No piece of `split_on(s, c)` contains `c`.
pub proof fn lemma_split_pieces_free(s: Seq<char>, c: char)
    ensures
        forall|k: int| 0 <= k < split_on(s, c).len() ==> !(#[trigger] split_on(s, c)[k]).contains(c),
    decreases s.len(),
{
    if s.len() > 0 {
        lemma_split_pieces_free(s.drop_last(), c);
        lemma_split_on_nonempty(s.drop_last(), c);
        let p = split_on(s.drop_last(), c);
        if s.last() != c {
            let q = p.update(p.len() - 1, p.last().push(s.last()));
            assert forall|k: int| 0 <= k < q.len() implies !(#[trigger] q[k]).contains(c) by {
                if k == p.len() - 1 {
                    assert(!p[k].contains(c));
                    if q[k].contains(c) {
                        let j = choose|j: int| 0 <= j < q[k].len() && q[k][j] == c;
                        if j < p[k].len() {
                            assert(p[k][j] == c);
                        }
                    }
                }
            }
        } else {
            let q = p.push(Seq::<char>::empty());
            assert forall|k: int| 0 <= k < q.len() implies !(#[trigger] q[k]).contains(c) by {
                if k < p.len() {
                    assert(q[k] == p[k]);
                }
            }
        }
    }
}

/// Splitting `s` followed by characters other than `c` extends the last
/// piece by those characters.
proof fn lemma_split_extend(s: Seq<char>, t: Seq<char>, c: char)
    requires
        !t.contains(c),
    ensures
        split_on(s + t, c) == split_on(s, c).update(
            split_on(s, c).len() - 1,
            split_on(s, c).last() + t,
        ),
    decreases t.len(),
{
    lemma_split_on_nonempty(s, c);
    if t.len() == 0 {
        assert(s + t =~= s);
        assert(split_on(s, c).last() + t =~= split_on(s, c).last());
        assert(split_on(s, c).update(split_on(s, c).len() - 1, split_on(s, c).last()) =~= split_on(s, c));
    } else {
        let t0 = t.drop_last();
        assert(!t0.contains(c)) by {
            if t0.contains(c) {
                let j = choose|j: int| 0 <= j < t0.len() && t0[j] == c;
                assert(t[j] == c);
            }
        }
        assert(t.last() != c) by {
            assert(t[t.len() - 1] == t.last());
        }
        lemma_split_extend(s, t0, c);
        assert((s + t).drop_last() =~= s + t0);
        assert((s + t).last() == t.last());
        let p = split_on(s, c);
        let q = split_on(s + t0, c);
        assert(q == p.update(p.len() - 1, p.last() + t0));
        assert(q.len() == p.len());
        assert(q.last() == p.last() + t0);
        assert(split_on(s + t, c) == q.update(q.len() - 1, q.last().push(t.last())));
        assert((p.last() + t0).push(t.last()) =~= p.last() + t);
        assert(split_on(s + t, c) =~= p.update(p.len() - 1, p.last() + t));
    }
}

/// Joining pieces that do not contain `c` and splitting at `c` gives the
/// pieces back.
pub proof fn lemma_split_join(p: Seq<Seq<char>>, c: char)
    requires
        p.len() >= 1,
        forall|k: int| 0 <= k < p.len() ==> !(#[trigger] p[k]).contains(c),
    ensures
        split_on(join(p, c), c) == p,
    decreases p.len(),
{
    if p.len() == 1 {
        lemma_split_extend(Seq::empty(), p[0], c);
        assert(Seq::<char>::empty() + p[0] =~= p[0]);
        assert(split_on(Seq::<char>::empty(), c) == seq![Seq::<char>::empty()]);
        assert(Seq::<char>::empty() + p[0] =~= p[0]);
        assert(seq![Seq::<char>::empty()].update(0, Seq::<char>::empty() + p[0]) =~= p);
    } else {
        let front = p.drop_last();
        assert forall|k: int| 0 <= k < front.len() implies !(#[trigger] front[k]).contains(c) by {
            assert(front[k] == p[k]);
        }
        lemma_split_join(front, c);
        let x = join(front, c) + seq![c];
        assert(x.drop_last() =~= join(front, c));
        assert(x.last() == c);
        assert(split_on(x, c) == front.push(Seq::<char>::empty()));
        assert(!p.last().contains(c)) by {
            assert(p[p.len() - 1] == p.last());
        }
        lemma_split_extend(x, p.last(), c);
        assert(Seq::<char>::empty() + p.last() =~= p.last());
        assert(front.push(Seq::<char>::empty()).update(front.len() as int, p.last()) =~= p);
    }
}

/// UTF-8 encoding distributes over concatenation.
pub proof fn lemma_utf8_append(a: Seq<char>, b: Seq<char>)
    ensures
        encode_utf8(a + b) == encode_utf8(a) + encode_utf8(b),
    decreases a.len(),
{
    if a.len() == 0 {
        assert(a + b =~= b);
        assert(encode_utf8(a) + encode_utf8(b) =~= encode_utf8(b));
    } else {
        assert((a + b).drop_first() =~= a.drop_first() + b);
        assert((a + b)[0] == a[0]);
        lemma_utf8_append(a.drop_first(), b);
        assert(encode_utf8(a + b) =~= encode_utf8(a) + encode_utf8(b));
    }
}

/// An ASCII character is encoded as the one byte of its value.
pub proof fn lemma_ascii_utf8(c: char)
    requires
        (c as u32) < 0x80,
    ensures
        encode_utf8(seq![c]) == seq![(c as u32) as u8],
        ((c as u32) as u8) as char == c,
        (((c as u32) as u8) as char) as u32 == c as u32,
{
    let u = c as u32;
    assert(u & 0x7F == u) by (bit_vector)
        requires
            u < 0x80,
    ;
    assert(seq![c].drop_first() =~= Seq::<char>::empty());
    assert(encode_scalar(u) == seq![(u & 0x7F) as u8]);
    assert(encode_utf8(Seq::<char>::empty()) == Seq::<u8>::empty());
    assert(encode_utf8(seq![c]) == encode_scalar(u) + encode_utf8(seq![c].drop_first()));
    assert(encode_utf8(seq![c]) =~= seq![(u as u8)]);
    char_u32_cast(c, u);
}

} // verus!

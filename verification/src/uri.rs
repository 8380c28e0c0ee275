//! URI handling: RFC 3986 reference resolution (`Location` headers), dot
//! segment removal, origin comparison, and request-URI construction with
//! per-segment percent-encoding.

use vstd::prelude::*;
use vstd::string::*;
use vstd::utf8::*;

use crate::error::Error;
use crate::text::{
    back_class, back_class_exec, chars_of, copy_range, eq_ignore_case, eq_ignore_case_exec,
    has_prefix, join, join_chars, lemma_split_join, lemma_split_on_nonempty,
    lemma_split_pieces_free, push_chars, split_chars, split_on,
    starts_with_at, string_of, string_of_range, views, CharClass,
};

verus! {

/// A parsed URI, held as plain values.
#[derive(Clone, Debug)]
pub struct Uri {
    /// The URI as `Uri::to_string` renders it.
    pub text: String,
    /// The scheme in canonical (lowercase for http/https) form.
    pub scheme: Option<String>,
    /// The authority (`userinfo@host:port`).
    pub authority: Option<String>,
    /// The host part of the authority.
    pub host: Option<String>,
    /// The explicit port, if any.
    pub port: Option<u16>,
    /// The path (`""` when the URI has none).
    pub path: String,
    /// The query, without `?`.
    pub query: Option<String>,
    /// The path of the URI's path-and-query component, when it has one.
    pub parts_path: Option<String>,
}

/// Mathematical view of a [`Uri`].
pub struct UriView {
    pub text: Seq<char>,
    pub scheme: Option<Seq<char>>,
    pub authority: Option<Seq<char>>,
    pub host: Option<Seq<char>>,
    pub port: Option<u16>,
    pub path: Seq<char>,
    pub query: Option<Seq<char>>,
    pub parts_path: Option<Seq<char>>,
}

pub open spec fn opt_view(o: Option<String>) -> Option<Seq<char>> {
    match o {
        Some(s) => Some(s@),
        None => None,
    }
}

impl View for Uri {
    type V = UriView;

    open spec fn view(&self) -> UriView {
        UriView {
            text: self.text@,
            scheme: opt_view(self.scheme),
            authority: opt_view(self.authority),
            host: opt_view(self.host),
            port: self.port,
            path: self.path@,
            query: opt_view(self.query),
            parts_path: opt_view(self.parts_path),
        }
    }
}

pub open spec fn opt_uri_view(o: Option<Uri>) -> Option<UriView> {
    match o {
        Some(u) => Some(u@),
        None => None,
    }
}

/// The URI that `hyper::Uri`'s parser makes of a string, if it accepts it.
pub uninterp spec fn spec_parse_uri(s: Seq<char>) -> Option<UriView>;

/// The URI that `hyper::Uri::builder` assembles from a scheme, an authority
/// and a path-and-query, if it accepts them.
pub uninterp spec fn spec_assemble_uri(
    scheme: Seq<char>,
    authority: Seq<char>,
    path_and_query: Seq<char>,
) -> Option<UriView>;

/// The URI that `hyper::Uri::from_parts` makes of `base` with its
/// path-and-query replaced, if it accepts it.
pub uninterp spec fn spec_replace_path(base: UriView, path_and_query: Seq<char>) -> Option<
    UriView,
>;

/// Parse `s` with `hyper::Uri`'s `FromStr` and extract its components.
#[verifier::external_body]
pub(crate) fn parse_uri(s: &str) -> (r: Option<Uri>)
    ensures
        opt_uri_view(r) == spec_parse_uri(s@),
{
    let u: hyper::Uri = s.parse().ok()?;
    let parts_path = u.clone().into_parts().path_and_query.map(|p| p.path().to_owned());
    Some(Uri {
        text: u.to_string(),
        scheme: u.scheme_str().map(str::to_owned),
        authority: u.authority().map(|a| a.as_str().to_owned()),
        host: u.host().map(str::to_owned),
        port: u.port_u16(),
        path: u.path().to_owned(),
        query: u.query().map(str::to_owned),
        parts_path,
    })
}

impl Uri {
    /// Parse an absolute or relative URI reference.
    pub fn parse(s: &str) -> (r: Option<Uri>)
        ensures
            opt_uri_view(r) == spec_parse_uri(s@),
    {
        parse_uri(s)
    }
}

/// Assemble a URI with `hyper::Uri::builder` and extract its components.
#[verifier::external_body]
fn assemble_uri(scheme: &str, authority: &str, path_and_query: &str) -> (r: Option<Uri>)
    ensures
        opt_uri_view(r) == spec_assemble_uri(scheme@, authority@, path_and_query@),
{
    let b = hyper::Uri::builder().scheme(scheme).authority(authority);
    let u = b.path_and_query(path_and_query).build().ok()?;
    let parts_path = u.clone().into_parts().path_and_query.map(|p| p.path().to_owned());
    Some(Uri {
        text: u.to_string(),
        scheme: u.scheme_str().map(str::to_owned),
        authority: u.authority().map(|a| a.as_str().to_owned()),
        host: u.host().map(str::to_owned),
        port: u.port_u16(),
        path: u.path().to_owned(),
        query: u.query().map(str::to_owned),
        parts_path,
    })
}

/// Replace the path-and-query of `base` with `hyper::Uri::from_parts`.
#[verifier::external_body]
fn replace_path(base: &Uri, path_and_query: &str) -> (r: Option<Uri>)
    ensures
        opt_uri_view(r) == spec_replace_path(base@, path_and_query@),
{
    let mut parts = base.text.parse::<hyper::Uri>().ok()?.into_parts();
    parts.path_and_query = Some(path_and_query.parse().ok()?);
    let u = hyper::Uri::from_parts(parts).ok()?;
    let parts_path = u.clone().into_parts().path_and_query.map(|p| p.path().to_owned());
    Some(Uri {
        text: u.to_string(),
        scheme: u.scheme_str().map(str::to_owned),
        authority: u.authority().map(|a| a.as_str().to_owned()),
        host: u.host().map(str::to_owned),
        port: u.port_u16(),
        path: u.path().to_owned(),
        query: u.query().map(str::to_owned),
        parts_path,
    })
}

/// First index at or after `i` holding `c`, or `s.len()` when there is none.
pub open spec fn first_at(s: Seq<char>, c: char, i: int) -> int
    decreases s.len() - i,
{
    if 0 <= i < s.len() && s[i] != c {
        first_at(s, c, i + 1)
    } else {
        i
    }
}

/// Last index below `j` holding `c`, or `-1` when there is none.
pub open spec fn last_before(s: Seq<char>, c: char, j: int) -> int
    decreases j,
{
    if j <= 0 {
        -1
    } else if s[j - 1] == c {
        j - 1
    } else {
        last_before(s, c, j - 1)
    }
}

pub proof fn lemma_first_at(s: Seq<char>, c: char, i: int)
    requires
        0 <= i <= s.len(),
    ensures
        i <= first_at(s, c, i) <= s.len(),
        first_at(s, c, i) < s.len() ==> s[first_at(s, c, i)] == c,
        forall|j: int| i <= j < first_at(s, c, i) ==> #[trigger] s[j] != c,
    decreases s.len() - i,
{
    if i < s.len() && s[i] != c {
        lemma_first_at(s, c, i + 1);
    }
}

pub proof fn lemma_last_before(s: Seq<char>, c: char, j: int)
    requires
        0 <= j <= s.len(),
    ensures
        -1 <= last_before(s, c, j) < j,
        last_before(s, c, j) >= 0 ==> s[last_before(s, c, j)] == c,
    decreases j,
{
    if j > 0 && s[j - 1] != c {
        lemma_last_before(s, c, j - 1);
    }
}

pub fn first_at_exec(v: &[char], c: char, i: usize) -> (r: usize)
    requires
        i <= v@.len(),
    ensures
        r == first_at(v@, c, i as int),
        r <= v@.len(),
{
    proof {
        lemma_first_at(v@, c, i as int);
    }
    let mut j = i;
    while j < v.len() && v[j] != c
        invariant
            i <= j <= v@.len(),
            first_at(v@, c, i as int) == first_at(v@, c, j as int),
        decreases v.len() - j,
    {
        j += 1;
    }
    j
}

/// Index of the last `c` in `v`, if any.
pub fn last_index_exec(v: &[char], c: char) -> (r: Option<usize>)
    ensures
        match r {
            Some(k) => k as int == last_before(v@, c, v@.len() as int) && k >= 0,
            None => last_before(v@, c, v@.len() as int) == -1,
        },
{
    let mut j = v.len();
    while j > 0 && v[j - 1] != c
        invariant
            j <= v@.len(),
            last_before(v@, c, v@.len() as int) == last_before(v@, c, j as int),
        decreases j,
    {
        j -= 1;
    }
    if j == 0 {
        None
    } else {
        Some(j - 1)
    }
}

/// A valid URI scheme (RFC 3986 §3.1): an ASCII letter followed by ASCII
/// letters, digits, `+`, `-` or `.`.
pub open spec fn is_uri_scheme_spec(s: Seq<char>) -> bool {
    s.len() > 0 && is_ascii_alpha(s[0]) && forall|i: int|
        1 <= i < s.len() ==> is_scheme_char(#[trigger] s[i])
}

pub open spec fn is_ascii_alpha(c: char) -> bool {
    ('a' <= c && c <= 'z') || ('A' <= c && c <= 'Z')
}

pub open spec fn is_ascii_digit(c: char) -> bool {
    '0' <= c && c <= '9'
}

pub open spec fn is_scheme_char(c: char) -> bool {
    is_ascii_alpha(c) || is_ascii_digit(c) || c == '+' || c == '-' || c == '.'
}

/// Whether `v` is a valid URI scheme (RFC 3986 §3.1).
fn is_uri_scheme(v: &[char]) -> (r: bool)
    ensures
        r == is_uri_scheme_spec(v@),
{
    if v.len() == 0 {
        return false;
    }
    let c0 = v[0];
    if !(('a' <= c0 && c0 <= 'z') || ('A' <= c0 && c0 <= 'Z')) {
        return false;
    }
    let mut i: usize = 1;
    while i < v.len()
        invariant
            1 <= i <= v@.len(),
            forall|j: int| 1 <= j < i ==> is_scheme_char(#[trigger] v@[j]),
        decreases v.len() - i,
    {
        let c = v[i];
        if !(('a' <= c && c <= 'z') || ('A' <= c && c <= 'Z') || ('0' <= c && c <= '9') || c
            == '+' || c == '-' || c == '.') {
            return false;
        }
        i += 1;
    }
    true
}

/// One step of RFC 3986 §5.2.4 `remove_dot_segments` over `/`-separated
/// segments: `.` is dropped, `..` drops the previous segment (never the
/// root of an absolute path), and a trailing `.`/`..` leaves a trailing
/// slash.
pub open spec fn rds_step(acc: Seq<Seq<char>>, seg: Seq<char>, is_last: bool, absolute: bool) -> Seq<
    Seq<char>,
> {
    if seg == seq!['.'] {
        if is_last {
            acc.push(Seq::empty())
        } else {
            acc
        }
    } else if seg == seq!['.', '.'] {
        let floor: int = if absolute {
            1
        } else {
            0
        };
        let a = if acc.len() > floor {
            acc.drop_last()
        } else {
            acc
        };
        if is_last {
            a.push(Seq::empty())
        } else {
            a
        }
    } else {
        acc.push(seg)
    }
}

/// The output segments after the first `n` input segments.
pub open spec fn rds_fold(segs: Seq<Seq<char>>, n: int, absolute: bool) -> Seq<Seq<char>>
    decreases n,
{
    if n <= 0 {
        Seq::empty()
    } else {
        rds_step(rds_fold(segs, n - 1, absolute), segs[n - 1], n - 1 == segs.len() - 1, absolute)
    }
}

/// RFC 3986 §5.2.4 `remove_dot_segments`.
pub open spec fn remove_dot_segments_spec(path: Seq<char>) -> Seq<char> {
    let segs = split_on(path, '/');
    join(rds_fold(segs, segs.len() as int, has_prefix(path, seq!['/'])), '/')
}

/// A segment that dot-segment removal may keep: neither `.` nor `..`, and
/// without `/`.
pub open spec fn kept_segment(x: Seq<char>) -> bool {
    x != seq!['.'] && x != seq!['.', '.'] && !x.contains('/')
}

#[verifier::spinoff_prover]
proof fn lemma_rds_fold_kept(segs: Seq<Seq<char>>, n: int, absolute: bool)
    requires
        0 <= n <= segs.len(),
        forall|k: int| 0 <= k < segs.len() ==> !(#[trigger] segs[k]).contains('/'),
    ensures
        forall|k: int|
            0 <= k < rds_fold(segs, n, absolute).len() ==> kept_segment(
                #[trigger] rds_fold(segs, n, absolute)[k],
            ),
    decreases n,
{
    if n > 0 {
        lemma_rds_fold_kept(segs, n - 1, absolute);
        let acc = rds_fold(segs, n - 1, absolute);
        let out = rds_fold(segs, n, absolute);
        assert(!Seq::<char>::empty().contains('/'));
        assert(!segs[n - 1].contains('/'));
        let seg = segs[n - 1];
        let is_last = n - 1 == segs.len() - 1;
        assert(out == rds_step(acc, seg, is_last, absolute));
        let floor: int = if absolute {
            1
        } else {
            0
        };
        let base = if seg == seq!['.'] || seg == seq!['.', '.'] {
            if seg == seq!['.'] || acc.len() <= floor {
                acc
            } else {
                acc.drop_last()
            }
        } else {
            acc
        };
        assert forall|k: int| 0 <= k < base.len() implies kept_segment(#[trigger] base[k]) by {
            assert(base[k] == acc[k]);
        }
        assert(kept_segment(Seq::<char>::empty())) by {
            assert(Seq::<char>::empty().len() != seq!['.'].len());
            assert(Seq::<char>::empty().len() != seq!['.', '.'].len());
        }
        if seg == seq!['.'] || seg == seq!['.', '.'] {
            if is_last {
                let e = Seq::<char>::empty();
                assert(out == base.push(e));
                assert forall|k: int| 0 <= k < out.len() implies kept_segment(#[trigger] out[k]) by {
                    if k < base.len() {
                        assert(out[k] == base[k]);
                    } else {
                        assert(out[k] == e);
                    }
                }
            } else {
                assert(out == base);
            }
        } else {
            assert(kept_segment(seg));
            assert(out == acc.push(seg));
            assert forall|k: int| 0 <= k < out.len() implies kept_segment(#[trigger] out[k]) by {
                if k < acc.len() {
                    assert(out[k] == acc[k]);
                } else {
                    assert(out[k] == seg);
                }
            }
        }
    }
}

/// Dot-segment removal leaves no `.` or `..` segment in the path it
/// returns.
pub proof fn lemma_remove_dot_segments_leaves_none(path: Seq<char>)
    ensures
        forall|k: int|
            0 <= k < split_on(remove_dot_segments_spec(path), '/').len() ==> #[trigger] split_on(
                remove_dot_segments_spec(path),
                '/',
            )[k] != seq!['.'] && split_on(remove_dot_segments_spec(path), '/')[k] != seq!['.', '.'],
{
    let segs = split_on(path, '/');
    let absolute = has_prefix(path, seq!['/']);
    lemma_split_pieces_free(path, '/');
    lemma_split_on_nonempty(path, '/');
    let n = segs.len() as int;
    lemma_rds_fold_kept(segs, n, absolute);
    let kept = rds_fold(segs, n, absolute);
    assert(kept == rds_step(rds_fold(segs, n - 1, absolute), segs[n - 1], true, absolute));
    assert(kept.len() >= 1);
    assert forall|k: int| 0 <= k < kept.len() implies !(#[trigger] kept[k]).contains('/') by {
        assert(kept_segment(kept[k]));
    }
    lemma_split_join(kept, '/');
    assert forall|k: int| 0 <= k < kept.len() implies #[trigger] kept[k] != seq!['.'] && kept[k] != seq!['.', '.'] by {
        assert(kept_segment(kept[k]));
    }
}

/// `remove_dot_segments` over characters.
pub fn remove_dot_segments_chars(path: &[char]) -> (r: Vec<char>)
    ensures
        r@ == remove_dot_segments_spec(path@),
{
    let absolute = path.len() > 0 && path[0] == '/';
    assert(absolute == has_prefix(path@, seq!['/'])) by {
        if absolute {
            assert(path@.subrange(0, 1) =~= seq!['/']);
        }
        if has_prefix(path@, seq!['/']) {
            assert(path@.subrange(0, 1)[0] == '/');
        }
    }
    let segs = split_chars(path, '/');
    proof {
        lemma_split_on_nonempty(path@, '/');
    }
    let ghost sv = views(segs@);
    let mut out: Vec<Vec<char>> = Vec::new();
    let mut i: usize = 0;
    let floor: usize = if absolute {
        1
    } else {
        0
    };
    while i < segs.len()
        invariant
            i <= segs@.len(),
            sv == views(segs@),
            sv.len() >= 1,
            floor == (if absolute {
                1usize
            } else {
                0usize
            }),
            views(out@) == rds_fold(sv, i as int, absolute),
        decreases segs.len() - i,
    {
        let is_last = i == segs.len() - 1;
        let seg = &segs[i];
        assert(sv[i as int] == seg@);
        let is_dot = seg.len() == 1 && seg[0] == '.';
        let is_dotdot = seg.len() == 2 && seg[0] == '.' && seg[1] == '.';
        assert(is_dot == (seg@ == seq!['.'])) by {
            if is_dot {
                assert(seg@ =~= seq!['.']);
            }
        }
        assert(is_dotdot == (seg@ == seq!['.', '.'])) by {
            if is_dotdot {
                assert(seg@ =~= seq!['.', '.']);
            }
        }
        let ghost before = views(out@);
        if is_dot {
            if is_last {
                out.push(Vec::new());
                assert(views(out@) =~= before.push(Seq::empty()));
            }
        } else if is_dotdot {
            if out.len() > floor {
                out.pop();
                assert(views(out@) =~= before.drop_last());
            }
            let ghost mid = views(out@);
            if is_last {
                out.push(Vec::new());
                assert(views(out@) =~= mid.push(Seq::empty()));
            }
        } else {
            let copy = copy_range(seg, 0, seg.len());
            assert(seg@.subrange(0, seg@.len() as int) =~= seg@);
            out.push(copy);
            assert(views(out@) =~= before.push(seg@));
        }
        i += 1;
    }
    join_chars(&out, '/')
}

/// Remove `.` and `..` segments from `path` (RFC 3986 §5.2.4). Empty
/// segments are kept, `..` never climbs above the root of an absolute
/// path, and a trailing `.` or `..` keeps the trailing slash.
pub fn remove_dot_segments(path: &str) -> (r: String)
    ensures
        r@ == remove_dot_segments_spec(path@),
{
    let v = chars_of(path);
    let out = remove_dot_segments_chars(&v);
    string_of(&out)
}

/// The directory part of `path`: everything before its last `/` (empty
/// when `path` has no `/`).
pub open spec fn dir_of(path: Seq<char>) -> Seq<char> {
    let k = last_before(path, '/', path.len() as int);
    if k >= 0 {
        path.take(k)
    } else {
        Seq::empty()
    }
}

/// The path-and-query that a relative reference resolves to against a base
/// path: the fragment is dropped, the path is merged with the base
/// directory and freed of dot segments, and the query is kept.
pub open spec fn relative_target(base_path: Seq<char>, loc: Seq<char>) -> Seq<char> {
    let path_q = loc.take(first_at(loc, '#', 0));
    let q = first_at(path_q, '?', 0);
    let path = path_q.take(q);
    let merged = if path.len() == 0 {
        base_path
    } else if path[0] == '/' {
        path
    } else {
        dir_of(base_path) + seq!['/'] + path
    };
    let resolved = remove_dot_segments_spec(merged);
    if q < path_q.len() {
        resolved + seq!['?'] + path_q.skip(q + 1)
    } else {
        resolved
    }
}

/// RFC 3986 resolution of a `Location` value against the URI that produced
/// it: absolute URLs (any valid scheme, any case) are parsed as they are,
/// network-path references reuse the current scheme, and other references
/// are resolved against the current scheme, authority and path.
pub open spec fn resolve_location_spec(cur: UriView, loc: Seq<char>) -> Option<UriView> {
    let k = first_at(loc, ':', 0);
    if k < loc.len() && has_prefix(loc.skip(k + 1), seq!['/', '/']) && is_uri_scheme_spec(
        loc.take(k),
    ) {
        spec_parse_uri(loc)
    } else if has_prefix(loc, seq!['/', '/']) {
        match cur.scheme {
            Some(sc) => spec_parse_uri(sc + seq![':'] + loc),
            None => None,
        }
    } else {
        match (cur.scheme, cur.authority) {
            (Some(sc), Some(au)) => spec_assemble_uri(sc, au, relative_target(cur.path, loc)),
            _ => None,
        }
    }
}

proof fn lemma_split_pieces_lack(s: Seq<char>, c: char, d: char)
    requires
        !s.contains(d),
    ensures
        forall|k: int| 0 <= k < split_on(s, c).len() ==> !(#[trigger] split_on(s, c)[k]).contains(d),
    decreases s.len(),
{
    if s.len() > 0 {
        let f = s.drop_last();
        assert(!f.contains(d)) by {
            if f.contains(d) {
                let j = choose|j: int| 0 <= j < f.len() && f[j] == d;
                assert(s[j] == d);
            }
        }
        assert(s[s.len() - 1] != d);
        lemma_split_pieces_lack(f, c, d);
        lemma_split_on_nonempty(f, c);
        let p = split_on(f, c);
        if s.last() != c {
            let q = p.update(p.len() - 1, p.last().push(s.last()));
            assert forall|k: int| 0 <= k < q.len() implies !(#[trigger] q[k]).contains(d) by {
                if k == p.len() - 1 {
                    assert(!p[k].contains(d));
                    if q[k].contains(d) {
                        let j = choose|j: int| 0 <= j < q[k].len() && q[k][j] == d;
                        if j < p[k].len() {
                            assert(p[k][j] == d);
                        }
                    }
                }
            }
        } else {
            let q = p.push(Seq::<char>::empty());
            assert forall|k: int| 0 <= k < q.len() implies !(#[trigger] q[k]).contains(d) by {
                if k < p.len() {
                    assert(q[k] == p[k]);
                }
            }
        }
    }
}

proof fn lemma_rds_fold_lack(segs: Seq<Seq<char>>, n: int, absolute: bool, d: char)
    requires
        0 <= n <= segs.len(),
        forall|k: int| 0 <= k < segs.len() ==> !(#[trigger] segs[k]).contains(d),
    ensures
        forall|k: int|
            0 <= k < rds_fold(segs, n, absolute).len() ==> !(#[trigger] rds_fold(segs, n, absolute)[k]).contains(d),
    decreases n,
{
    if n > 0 {
        lemma_rds_fold_lack(segs, n - 1, absolute, d);
        let acc = rds_fold(segs, n - 1, absolute);
        let out = rds_fold(segs, n, absolute);
        let seg = segs[n - 1];
        assert(!seg.contains(d));
        assert(!Seq::<char>::empty().contains(d));
        assert(out == rds_step(acc, seg, n - 1 == segs.len() - 1, absolute));
        let is_last = n - 1 == segs.len() - 1;
        let floor: int = if absolute {
            1
        } else {
            0
        };
        assert(seq!['.'].len() != seq!['.', '.'].len());
        let base = if seg == seq!['.', '.'] && acc.len() > floor {
            acc.drop_last()
        } else {
            acc
        };
        assert forall|k: int| 0 <= k < base.len() implies !(#[trigger] base[k]).contains(d) by {
            assert(base[k] == acc[k]);
        }
        if seg == seq!['.'] || seg == seq!['.', '.'] {
            if is_last {
                assert(out == base.push(Seq::<char>::empty()));
                assert forall|k: int| 0 <= k < out.len() implies !(#[trigger] out[k]).contains(d) by {
                    if k < base.len() {
                        assert(out[k] == base[k]);
                    }
                }
            } else {
                assert(out == base);
            }
        } else {
            assert(out == acc.push(seg));
            assert forall|k: int| 0 <= k < out.len() implies !(#[trigger] out[k]).contains(d) by {
                if k < acc.len() {
                    assert(out[k] == acc[k]);
                }
            }
        }
    }
}

proof fn lemma_join_lack(p: Seq<Seq<char>>, sep: char, d: char)
    requires
        sep != d,
        forall|k: int| 0 <= k < p.len() ==> !(#[trigger] p[k]).contains(d),
    ensures
        !join(p, sep).contains(d),
    decreases p.len(),
{
    if p.len() > 1 {
        let f = p.drop_last();
        assert forall|k: int| 0 <= k < f.len() implies !(#[trigger] f[k]).contains(d) by {
            assert(f[k] == p[k]);
        }
        lemma_join_lack(f, sep, d);
        let a = join(f, sep);
        let l = p.last();
        assert(!l.contains(d));
        let whole = a + seq![sep] + l;
        assert(join(p, sep) == whole);
        if whole.contains(d) {
            let j = choose|j: int| 0 <= j < whole.len() && whole[j] == d;
            if j < a.len() {
                assert(a[j] == d);
            } else if j > a.len() {
                assert(l[j - a.len() - 1] == d);
            }
        }
    } else if p.len() == 1 {
        assert(!p[0].contains(d));
    }
}

/// Dot-segment removal brings in no character other than `/` that the
/// path does not hold.
proof fn lemma_remove_dot_segments_lack(path: Seq<char>, d: char)
    requires
        d != '/',
        !path.contains(d),
    ensures
        !remove_dot_segments_spec(path).contains(d),
{
    let segs = split_on(path, '/');
    lemma_split_pieces_lack(path, '/', d);
    lemma_rds_fold_lack(segs, segs.len() as int, has_prefix(path, seq!['/']), d);
    lemma_join_lack(rds_fold(segs, segs.len() as int, has_prefix(path, seq!['/'])), '/', d);
}

/// The first `c` of `a + [c] + b`, when `a` holds none, is right after `a`.
proof fn lemma_first_at_after(a: Seq<char>, b: Seq<char>, c: char)
    requires
        !a.contains(c),
    ensures
        first_at(a + seq![c] + b, c, 0) == a.len(),
{
    let s = a + seq![c] + b;
    lemma_first_at(s, c, 0);
    let k = first_at(s, c, 0);
    assert(s[a.len() as int] == c);
    if k > a.len() {
        assert(s[a.len() as int] != c);
    }
    if k < a.len() {
        assert(s[k] == a[k]);
    }
}

/// Resolving a relative reference keeps its query: when the reference
/// (before any `#`) holds a `?`, the text after the first `?` of the target
/// is the text after the first `?` of the reference; when it holds none,
/// neither does the target. (A base path holds no `?`.)
pub proof fn lemma_relative_target_keeps_query(base_path: Seq<char>, loc: Seq<char>)
    requires
        !base_path.contains('?'),
    ensures
        ({
            let h = loc.take(first_at(loc, '#', 0));
            let r = relative_target(base_path, loc);
            &&& h.contains('?') ==> r.contains('?') && r.skip(first_at(r, '?', 0) + 1) == h.skip(
                first_at(h, '?', 0) + 1,
            )
            &&& !h.contains('?') ==> !r.contains('?')
        }),
{
    lemma_first_at(loc, '#', 0);
    let h = loc.take(first_at(loc, '#', 0));
    lemma_first_at(h, '?', 0);
    let q = first_at(h, '?', 0);
    let path = h.take(q);
    assert(!path.contains('?')) by {
        if path.contains('?') {
            let j = choose|j: int| 0 <= j < path.len() && path[j] == '?';
            assert(h[j] == '?');
        }
    }
    let dir = dir_of(base_path);
    assert(!dir.contains('?')) by {
        if dir.contains('?') {
            let j = choose|j: int| 0 <= j < dir.len() && dir[j] == '?';
            lemma_last_before(base_path, '/', base_path.len() as int);
            assert(base_path[j] == '?');
        }
    }
    let merged = if path.len() == 0 {
        base_path
    } else if path[0] == '/' {
        path
    } else {
        dir + seq!['/'] + path
    };
    assert(!merged.contains('?')) by {
        if merged.contains('?') && path.len() != 0 && path[0] != '/' {
            let m = dir + seq!['/'] + path;
            let j = choose|j: int| 0 <= j < m.len() && m[j] == '?';
            if j < dir.len() {
                assert(dir[j] == '?');
            } else if j > dir.len() {
                assert(path[j - dir.len() - 1] == '?');
            }
        }
    }
    lemma_remove_dot_segments_lack(merged, '?');
    let resolved = remove_dot_segments_spec(merged);
    let r = relative_target(base_path, loc);
    if q < h.len() {
        assert(h.contains('?')) by {
            assert(h[q] == '?');
        }
        assert(r == resolved + seq!['?'] + h.skip(q + 1));
        lemma_first_at_after(resolved, h.skip(q + 1), '?');
        assert(r[resolved.len() as int] == '?');
        assert(r.skip(resolved.len() as int + 1) =~= h.skip(q + 1));
    } else {
        assert(!h.contains('?')) by {
            if h.contains('?') {
                let j = choose|j: int| 0 <= j < h.len() && h[j] == '?';
            }
        }
        assert(r == resolved);
    }
}

fn relative_target_exec(base_path: &[char], loc: &[char]) -> (r: Vec<char>)
    ensures
        r@ == relative_target(base_path@, loc@),
{
    let h = first_at_exec(loc, '#', 0);
    let path_q = copy_range(loc, 0, h);
    assert(path_q@ == loc@.take(h as int));
    let q = first_at_exec(&path_q, '?', 0);
    let path = copy_range(&path_q, 0, q);
    assert(path@ == path_q@.take(q as int));
    let merged: Vec<char> = if path.len() == 0 {
        copy_range(base_path, 0, base_path.len())
    } else if path[0] == '/' {
        path
    } else {
        let mut m: Vec<char> = match last_index_exec(base_path, '/') {
            Some(k) => {
                proof {
                    lemma_last_before(base_path@, '/', base_path@.len() as int);
                }
                copy_range(base_path, 0, k)
            },
            None => Vec::new(),
        };
        m.push('/');
        let mut j: usize = 0;
        let ghost start = m@;
        while j < path.len()
            invariant
                j <= path@.len(),
                m@ == start + path@.take(j as int),
            decreases path.len() - j,
        {
            m.push(path[j]);
            assert(path@.take(j as int + 1) =~= path@.take(j as int).push(path@[j as int]));
            j += 1;
        }
        assert(path@.take(path@.len() as int) =~= path@);
        m
    };
    assert(base_path@.subrange(0, base_path@.len() as int) =~= base_path@);
    assert(merged@ =~= (if path@.len() == 0 {
        base_path@
    } else if path@[0] == '/' {
        path@
    } else {
        dir_of(base_path@) + seq!['/'] + path@
    }));
    let mut resolved = remove_dot_segments_chars(&merged);
    if q < path_q.len() {
        resolved.push('?');
        let mut j = q + 1;
        let ghost start = resolved@;
        while j < path_q.len()
            invariant
                q + 1 <= j <= path_q@.len(),
                resolved@ == start + path_q@.subrange(q + 1, j as int),
            decreases path_q.len() - j,
        {
            resolved.push(path_q[j]);
            assert(path_q@.subrange(q + 1, j as int + 1) =~= path_q@.subrange(
                q + 1,
                j as int,
            ).push(path_q@[j as int]));
            j += 1;
        }
        assert(path_q@.subrange(q + 1, path_q@.len() as int) =~= path_q@.skip(q + 1));
    }
    resolved
}

/// Resolve a `Location` header value against the URI that produced it
/// (RFC 3986 §5); `None` when the reference cannot be resolved.
pub fn resolve_location(current: &Uri, location: &str) -> (r: Option<Uri>)
    ensures
        opt_uri_view(r) == resolve_location_spec(current@, location@),
{
    let loc = chars_of(location);
    let k = first_at_exec(&loc, ':', 0);
    let slashes = ['/', '/'];
    let sl: &[char] = &slashes;
    assert(sl@ == seq!['/', '/']);
    if k < loc.len() {
        let abs = starts_with_at(&loc, k + 1, sl);
        let scheme = copy_range(&loc, 0, k);
        if abs && is_uri_scheme(&scheme) {
            return parse_uri(location);
        }
    }
    assert(loc@.skip(0) == loc@);
    if starts_with_at(&loc, 0, sl) {
        return match &current.scheme {
            Some(sc) => {
                let mut full = String::new();
                full.append(sc.as_str());
                full.push(':');
                full.append(location);
                assert(full@ =~= sc@ + seq![':'] + location@);
                parse_uri(full.as_str())
            },
            None => None,
        };
    }
    match (&current.scheme, &current.authority) {
        (Some(sc), Some(au)) => {
            let base_path = chars_of(current.path.as_str());
            let target = relative_target_exec(&base_path, &loc);
            let pq = string_of(&target);
            assemble_uri(sc.as_str(), au.as_str(), pq.as_str())
        },
        _ => None,
    }
}

pub open spec fn http_seq() -> Seq<char> {
    seq!['h', 't', 't', 'p']
}

pub open spec fn https_seq() -> Seq<char> {
    seq!['h', 't', 't', 'p', 's']
}

/// The port a URI connects to: its explicit port, else 443 for `https`,
/// 80 for `http`, 0 otherwise.
pub open spec fn effective_port(u: UriView) -> u16 {
    match u.port {
        Some(p) => p,
        None => if u.scheme == Some(https_seq()) {
            443
        } else if u.scheme == Some(http_seq()) {
            80
        } else {
            0
        },
    }
}

pub open spec fn opt_eq_ignore_case(a: Option<Seq<char>>, b: Option<Seq<char>>) -> bool {
    match (a, b) {
        (Some(x), Some(y)) => eq_ignore_case(x, y),
        (None, None) => true,
        _ => false,
    }
}

/// Same origin: equal scheme, ASCII-case-insensitively equal host, and
/// equal effective port.
pub open spec fn same_origin_spec(a: UriView, b: UriView) -> bool {
    a.scheme == b.scheme && opt_eq_ignore_case(a.host, b.host) && effective_port(a)
        == effective_port(b)
}

/// Whether `s` holds exactly the characters `lit`.
pub fn str_is(s: &str, lit: &[char]) -> (r: bool)
    ensures
        r == (s@ == lit@),
{
    let v = chars_of(s);
    if v.len() != lit.len() {
        return false;
    }
    let mut i: usize = 0;
    while i < v.len()
        invariant
            v@.len() == lit@.len(),
            v@ == s@,
            i <= v@.len(),
            forall|j: int| 0 <= j < i ==> v@[j] == lit@[j],
        decreases v.len() - i,
    {
        if v[i] != lit[i] {
            assert(v@[i as int] != lit@[i as int]);
            return false;
        }
        i += 1;
    }
    assert(v@ =~= lit@);
    true
}

fn opt_str_is(s: &Option<String>, lit: &[char]) -> (r: bool)
    ensures
        r == (opt_view(*s) == Some(lit@)),
{
    match s {
        Some(x) => str_is(x.as_str(), lit),
        None => false,
    }
}

fn effective_port_exec(u: &Uri) -> (r: u16)
    ensures
        r == effective_port(u@),
{
    let https = ['h', 't', 't', 'p', 's'];
    let http = ['h', 't', 't', 'p'];
    let hs: &[char] = &https;
    let h: &[char] = &http;
    assert(hs@ == https_seq());
    assert(h@ == http_seq());
    match u.port {
        Some(p) => p,
        None => if opt_str_is(&u.scheme, hs) {
            443
        } else if opt_str_is(&u.scheme, h) {
            80
        } else {
            0
        },
    }
}

fn opt_string_eq(a: &Option<String>, b: &Option<String>) -> (r: bool)
    ensures
        r == (opt_view(*a) == opt_view(*b)),
{
    match (a, b) {
        (Some(x), Some(y)) => {
            let xv = chars_of(x.as_str());
            str_is(y.as_str(), &xv)
        },
        (None, None) => true,
        _ => false,
    }
}

/// Whether two URIs share an origin: same scheme, same host (ASCII case
/// ignored) and same effective port.
pub fn same_origin(a: &Uri, b: &Uri) -> (r: bool)
    ensures
        r == same_origin_spec(a@, b@),
{
    if !opt_string_eq(&a.scheme, &b.scheme) {
        return false;
    }
    let hosts = match (&a.host, &b.host) {
        (Some(x), Some(y)) => {
            let xv = chars_of(x.as_str());
            let yv = chars_of(y.as_str());
            eq_ignore_case_exec(&xv, &yv)
        },
        (None, None) => true,
        _ => false,
    };
    hosts && effective_port_exec(a) == effective_port_exec(b)
}

/// Whether following `next` from `current` would go from HTTPS to HTTP.
pub open spec fn is_downgrade_spec(current: UriView, next: UriView) -> bool {
    next.scheme == Some(http_seq()) && current.scheme == Some(https_seq())
}

/// Whether following `next` would downgrade the connection from HTTPS to
/// plain HTTP.
pub fn is_https_to_http_downgrade(current: &Uri, next: &Uri) -> (r: bool)
    ensures
        r == is_downgrade_spec(current@, next@),
{
    let https = ['h', 't', 't', 'p', 's'];
    let http = ['h', 't', 't', 'p'];
    let hs: &[char] = &https;
    let h: &[char] = &http;
    assert(hs@ == https_seq());
    assert(h@ == http_seq());
    opt_str_is(&next.scheme, h) && opt_str_is(&current.scheme, hs)
}


/// Byte sets that percent-encoding escapes (besides every non-ASCII byte).
#[derive(Clone, Copy, PartialEq, Eq, Debug)]
pub enum EncodeSet {
    /// Controls, space, and `"` `#` `<` `>` `?` `` ` `` `{` `}` `\` `^` `|`
    /// `[` `]`: what may not appear raw in a URI path segment.
    PathSegment,
    /// Every ASCII byte except letters, digits, `-`, `.`, `_` and `~`
    /// (RFC 3986 unreserved), for form-encoded values.
    FormUnreserved,
}

pub open spec fn in_encode_set(b: u8, set: EncodeSet) -> bool {
    match set {
        EncodeSet::PathSegment => b < 0x20 || b == 0x7f || b == 0x20 || b == 0x22 || b == 0x23
            || b == 0x3c || b == 0x3e || b == 0x3f || b == 0x60 || b == 0x7b || b == 0x7d || b
            == 0x5c || b == 0x5e || b == 0x7c || b == 0x5b || b == 0x5d,
        EncodeSet::FormUnreserved => !((0x30 <= b && b <= 0x39) || (0x41 <= b && b <= 0x5a) || (
        0x61 <= b && b <= 0x7a) || b == 0x2d || b == 0x2e || b == 0x5f || b == 0x7e),
    }
}

/// Whether percent-encoding escapes byte `b`: every non-ASCII byte, and the
/// ASCII bytes of the set.
pub open spec fn should_encode(b: u8, set: EncodeSet) -> bool {
    b >= 0x80 || in_encode_set(b, set)
}

/// Uppercase hexadecimal digit for a value below 16.
pub open spec fn hex_upper(n: u8) -> char {
    if n < 10 {
        ((0x30 + n) as u8) as char
    } else {
        ((0x41 + n - 10) as u8) as char
    }
}

/// Percent-encoding of a byte string: bytes of the set become `%XX`
/// (uppercase hex), every other byte is kept as its ASCII character.
pub open spec fn pct_bytes(b: Seq<u8>, set: EncodeSet) -> Seq<char>
    decreases b.len(),
{
    if b.len() == 0 {
        Seq::empty()
    } else {
        let x = b.last();
        pct_bytes(b.drop_last(), set) + if should_encode(x, set) {
            seq!['%', hex_upper(x / 16), hex_upper(x % 16)]
        } else {
            seq![x as char]
        }
    }
}

fn hex_upper_exec(n: u8) -> (c: char)
    requires
        n < 16,
    ensures
        c == hex_upper(n),
{
    if n < 10 {
        ((0x30 + n) as u8) as char
    } else {
        ((0x41 + n - 10) as u8) as char
    }
}

fn should_encode_exec(b: u8, set: EncodeSet) -> (r: bool)
    ensures
        r == should_encode(b, set),
{
    if b >= 0x80 {
        return true;
    }
    match set {
        EncodeSet::PathSegment => b < 0x20 || b == 0x7f || b == 0x20 || b == 0x22 || b == 0x23
            || b == 0x3c || b == 0x3e || b == 0x3f || b == 0x60 || b == 0x7b || b == 0x7d || b
            == 0x5c || b == 0x5e || b == 0x7c || b == 0x5b || b == 0x5d,
        EncodeSet::FormUnreserved => !((0x30 <= b && b <= 0x39) || (0x41 <= b && b <= 0x5a) || (
        0x61 <= b && b <= 0x7a) || b == 0x2d || b == 0x2e || b == 0x5f || b == 0x7e),
    }
}

/// Percent-encode the UTF-8 bytes of `s` with the byte set `set`
/// (each byte of the set, and every non-ASCII byte, as `%XX`).
pub fn percent_encode(s: &str, set: EncodeSet) -> (r: String)
    ensures
        r@ == pct_bytes(s.spec_bytes(), set),
{
    let b = s.as_bytes();
    let mut out = String::new();
    let mut i: usize = 0;
    while i < b.len()
        invariant
            i <= b@.len(),
            out@ == pct_bytes(b@.take(i as int), set),
        decreases b.len() - i,
    {
        let x = b[i];
        assert(b@.take(i as int + 1).drop_last() =~= b@.take(i as int));
        if should_encode_exec(x, set) {
            out.push('%');
            out.push(hex_upper_exec(x / 16));
            out.push(hex_upper_exec(x % 16));
        } else {
            out.push(x as char);
        }
        i += 1;
    }
    assert(b@.take(b@.len() as int) =~= b@);
    out
}

pub open spec fn is_hex_char(c: char) -> bool {
    ('0' <= c && c <= '9') || ('a' <= c && c <= 'f') || ('A' <= c && c <= 'F')
}

/// Path-segment percent-encoding that keeps `/`, keeps already-valid
/// `%XX` escapes verbatim, and turns a bare `%` into `%25`.
pub open spec fn encode_path_segments_spec(s: Seq<char>) -> Seq<char>
    decreases s.len(),
{
    let p = first_at(s, '%', 0);
    if p < 0 || p >= s.len() {
        pct_bytes(encode_utf8(s), EncodeSet::PathSegment)
    } else {
        let head = pct_bytes(encode_utf8(s.take(p)), EncodeSet::PathSegment);
        let tail = s.skip(p);
        if tail.len() >= 3 && is_hex_char(tail[1]) && is_hex_char(tail[2]) {
            head + tail.take(3) + encode_path_segments_spec(tail.skip(3))
        } else {
            head + seq!['%', '2', '5'] + encode_path_segments_spec(tail.skip(1))
        }
    }
}

fn is_hex_char_exec(c: char) -> (r: bool)
    ensures
        r == is_hex_char(c),
{
    ('0' <= c && c <= '9') || ('a' <= c && c <= 'f') || ('A' <= c && c <= 'F')
}

/// Percent-encode every path segment of `path`: `/` separators are kept,
/// already-valid `%XX` escapes are kept verbatim, a bare `%` becomes `%25`,
/// and controls, space, `"#<>?` and friends and non-ASCII bytes are
/// escaped, so `?` and `#` can never start a query or fragment.
pub fn encode_path_segments(path: &str) -> (r: String)
    ensures
        r@ == encode_path_segments_spec(path@),
{
    let all = chars_of(path);
    let mut rest = copy_range(&all, 0, all.len());
    assert(all@.subrange(0, all@.len() as int) =~= path@);
    let mut out = String::new();
    loop
        invariant
            out@ + encode_path_segments_spec(rest@) == encode_path_segments_spec(path@),
        decreases rest@.len(),
    {
        let p = first_at_exec(&rest, '%', 0);
        proof {
            lemma_first_at(rest@, '%', 0);
        }
        if p >= rest.len() {
            let s = string_of(&rest);
            let enc = percent_encode(s.as_str(), EncodeSet::PathSegment);
            out.append(enc.as_str());
            assert(out@ =~= encode_path_segments_spec(path@));
            return out;
        }
        let head = string_of_range(&rest, 0, p);
        let enc = percent_encode(head.as_str(), EncodeSet::PathSegment);
        let ghost before = out@;
        out.append(enc.as_str());
        let n = rest.len();
        let ghost tail = rest@.skip(p as int);
        if n - p >= 3 && is_hex_char_exec(rest[p + 1]) && is_hex_char_exec(rest[p + 2]) {
            assert(tail[1] == rest@[p + 1] && tail[2] == rest@[p + 2]);
            out.push(rest[p]);
            out.push(rest[p + 1]);
            out.push(rest[p + 2]);
            assert(tail.take(3) =~= seq![rest@[p as int], rest@[p + 1], rest@[p + 2]]);
            let next = copy_range(&rest, p + 3, n);
            assert(next@ =~= tail.skip(3));
            assert(out@ + encode_path_segments_spec(next@) =~= before
                + encode_path_segments_spec(rest@));
            rest = next;
        } else {
            out.push('%');
            out.push('2');
            out.push('5');
            let next = copy_range(&rest, p + 1, n);
            assert(next@ =~= tail.skip(1));
            assert(out@ + encode_path_segments_spec(next@) =~= before
                + encode_path_segments_spec(rest@));
            rest = next;
        }
    }
}

/// `path` appended to the directory of `existing`: trailing slashes of
/// `existing` are dropped, then exactly one `/` separates the two.
pub open spec fn join_relative(existing: Seq<char>, path: Seq<char>) -> Seq<char> {
    let b0 = existing.take(back_class(existing, 0, existing.len() as int, CharClass::Slash));
    let b1 = if b0.len() == 0 {
        seq!['/']
    } else {
        b0
    };
    let b2 = if b1.last() != '/' {
        b1.push('/')
    } else {
        b1
    };
    b2 + path
}

/// The path `build_uri` combines from the base path and the requested path,
/// before encoding.
pub open spec fn combined_path(existing: Seq<char>, path: Seq<char>) -> Seq<char> {
    let c = if path.len() == 0 {
        existing
    } else if path[0] == '/' {
        path
    } else {
        join_relative(existing, path)
    };
    if c.len() == 0 {
        seq!['/']
    } else {
        c
    }
}

/// Whether `path` is an absolute `http://` or `https://` URL.
pub open spec fn is_absolute_url(path: Seq<char>) -> bool {
    has_prefix(path, seq!['h', 't', 't', 'p', ':', '/', '/']) || has_prefix(
        path,
        seq!['h', 't', 't', 'p', 's', ':', '/', '/'],
    )
}

/// The request URI for `path` against `base`.
pub open spec fn build_uri_spec(base: UriView, path: Seq<char>) -> Option<UriView> {
    if is_absolute_url(path) {
        spec_parse_uri(path)
    } else {
        let existing = match base.parts_path {
            Some(p) => p,
            None => seq!['/'],
        };
        spec_replace_path(base, encode_path_segments_spec(combined_path(existing, path)))
    }
}

fn join_relative_exec(existing: &[char], path: &[char]) -> (r: Vec<char>)
    ensures
        r@ == join_relative(existing@, path@),
{
    let end = back_class_exec(existing, 0, existing.len(), CharClass::Slash);
    proof {
        crate::text::lemma_back_class_bounds(existing@, 0, existing@.len() as int, CharClass::Slash);
    }
    let mut b = copy_range(existing, 0, end);
    assert(b@ =~= existing@.take(end as int));
    if b.len() == 0 {
        b.push('/');
        assert(b@ =~= seq!['/']);
    }
    if b[b.len() - 1] != '/' {
        b.push('/');
    }
    let ghost b2 = b@;
    let mut j: usize = 0;
    while j < path.len()
        invariant
            j <= path@.len(),
            b@ == b2 + path@.take(j as int),
        decreases path.len() - j,
    {
        b.push(path[j]);
        assert(path@.take(j as int + 1) =~= path@.take(j as int).push(path@[j as int]));
        j += 1;
    }
    assert(path@.take(path@.len() as int) =~= path@);
    b
}

/// Build the request URI for `path` against the base URI: an absolute URL
/// (`http://`, `https://`) is parsed as it is; an empty path keeps the base
/// path; an absolute path replaces it; a relative path is appended to the
/// base path's directory. The whole input is treated as a path and
/// percent-encoded per segment.
pub fn build_uri(base: &Uri, path: &str) -> (r: Result<Uri, Error>)
    ensures
        match build_uri_spec(base@, path@) {
            Some(u) => r matches Ok(x) && x@ == u,
            None => r matches Err(Error::InvalidUrl(p)) && p@ == path@,
        },
{
    let v = chars_of(path);
    let http = ['h', 't', 't', 'p', ':', '/', '/'];
    let https = ['h', 't', 't', 'p', 's', ':', '/', '/'];
    let h: &[char] = &http;
    let hs: &[char] = &https;
    assert(h@ == seq!['h', 't', 't', 'p', ':', '/', '/']);
    assert(hs@ == seq!['h', 't', 't', 'p', 's', ':', '/', '/']);
    assert(v@.skip(0) == v@);
    if starts_with_at(&v, 0, h) || starts_with_at(&v, 0, hs) {
        return match parse_uri(path) {
            Some(u) => Ok(u),
            None => Err(Error::InvalidUrl(path.to_owned())),
        };
    }
    let existing: Vec<char> = match &base.parts_path {
        Some(p) => chars_of(p.as_str()),
        None => {
            let mut e: Vec<char> = Vec::new();
            e.push('/');
            assert(e@ =~= seq!['/']);
            e
        },
    };
    let ghost ex = existing@;
    let mut combined: Vec<char> = if v.len() == 0 {
        existing
    } else if v[0] == '/' {
        v
    } else {
        join_relative_exec(&existing, &v)
    };
    if combined.len() == 0 {
        combined.push('/');
        assert(combined@ =~= seq!['/']);
    }
    assert(combined@ == combined_path(ex, path@));
    let cs = string_of(&combined);
    let encoded = encode_path_segments(cs.as_str());
    match replace_path(base, encoded.as_str()) {
        Some(u) => Ok(u),
        None => Err(Error::InvalidUrl(path.to_owned())),
    }
}

} // verus!

//! Request bodies: XML escaping, filter elements, and the
//! `sync-collection` and multiget REPORT bodies.

use vstd::prelude::*;
use vstd::string::*;

use crate::error::{Error, ErrorView};
use crate::text::chars_of;
use crate::types::{SyncLevel, sync_level_text};

verus! {

/// How one character is written inside XML text or attribute values.
pub open spec fn escape_char(c: char) -> Seq<char> {
    if c == '&' {
        seq!['&', 'a', 'm', 'p', ';']
    } else if c == '<' {
        seq!['&', 'l', 't', ';']
    } else if c == '>' {
        seq!['&', 'g', 't', ';']
    } else if c == '"' {
        seq!['&', 'q', 'u', 'o', 't', ';']
    } else if c == '\'' {
        seq!['&', 'a', 'p', 'o', 's', ';']
    } else {
        seq![c]
    }
}

/// `s` with `&`, `<`, `>`, `"` and `'` replaced by their predefined entities.
pub open spec fn escape_xml_spec(s: Seq<char>) -> Seq<char>
    decreases s.len(),
{
    if s.len() == 0 {
        Seq::empty()
    } else {
        escape_xml_spec(s.drop_last()) + escape_char(s.last())
    }
}

fn push_escaped(out: &mut String, c: char)
    ensures
        final(out)@ == old(out)@ + escape_char(c),
{
    if c == '&' {
        out.push('&');
        out.push('a');
        out.push('m');
        out.push('p');
        out.push(';');
    } else if c == '<' {
        out.push('&');
        out.push('l');
        out.push('t');
        out.push(';');
    } else if c == '>' {
        out.push('&');
        out.push('g');
        out.push('t');
        out.push(';');
    } else if c == '"' {
        out.push('&');
        out.push('q');
        out.push('u');
        out.push('o');
        out.push('t');
        out.push(';');
    } else if c == '\'' {
        out.push('&');
        out.push('a');
        out.push('p');
        out.push('o');
        out.push('s');
        out.push(';');
    } else {
        out.push(c);
    }
}

/// Escape `input` for XML text and attribute values: `&`, `<`, `>`, `"`
/// and `'` become `&amp;`, `&lt;`, `&gt;`, `&quot;` and `&apos;`.
pub fn escape_xml(input: &str) -> (r: String)
    ensures
        r@ == escape_xml_spec(input@),
{
    let v = chars_of(input);
    let mut out = String::new();
    let mut i: usize = 0;
    while i < v.len()
        invariant
            i <= v@.len(),
            v@ == input@,
            out@ == escape_xml_spec(v@.take(i as int)),
        decreases v.len() - i,
    {
        assert(v@.take(i as int + 1).drop_last() =~= v@.take(i as int));
        push_escaped(&mut out, v[i]);
        i += 1;
    }
    assert(v@.take(v@.len() as int) =~= v@);
    out
}

/// Append the escaped form of `s` to `out`.
fn append_escaped(out: &mut String, s: &str)
    ensures
        final(out)@ == old(out)@ + escape_xml_spec(s@),
{
    let e = escape_xml(s);
    out.append(e.as_str());
}

pub open spec fn is_ascii_alnum(c: char) -> bool {
    ('0' <= c && c <= '9') || ('a' <= c && c <= 'z') || ('A' <= c && c <= 'Z')
}

/// A character allowed in an iCalendar component name.
pub open spec fn component_char(c: char) -> bool {
    is_ascii_alnum(c) || c == '-'
}

/// Index of the first character of `s` not allowed in a component name.
pub open spec fn first_bad_component_char(s: Seq<char>, i: int) -> Option<int>
    decreases s.len() - i,
{
    if i < 0 || i >= s.len() {
        None
    } else if !component_char(s[i]) {
        Some(i)
    } else {
        first_bad_component_char(s, i + 1)
    }
}

/// Validate an iCalendar component name (`VEVENT`, `X-CUSTOM`): non-empty,
/// made of ASCII letters, digits and `-` only, so untrusted values cannot
/// alter the structure of generated XML. The error names the first
/// offending character.
pub fn validate_component_name(name: &str, context: &str) -> (r: Result<(), Error>)
    ensures
        name@.len() == 0 ==> (r matches Err(e) && e@ == (ErrorView::InvalidComponentName {
            context: context@,
            name: name@,
            bad_char: None,
        })),
        name@.len() > 0 ==> match first_bad_component_char(name@, 0) {
            Some(k) => r matches Err(e) && e@ == (ErrorView::InvalidComponentName {
                context: context@,
                name: name@,
                bad_char: Some(name@[k]),
            }),
            None => r is Ok,
        },
{
    let v = chars_of(name);
    if v.len() == 0 {
        return Err(Error::InvalidComponentName { context: context.to_owned(), name: name.to_owned(), bad_char: None });
    }
    let mut i: usize = 0;
    while i < v.len()
        invariant
            i <= v@.len(),
            v@ == name@,
            first_bad_component_char(v@, 0) == first_bad_component_char(v@, i as int),
        decreases v.len() - i,
    {
        let c = v[i];
        let ok = ('0' <= c && c <= '9') || ('a' <= c && c <= 'z') || ('A' <= c && c <= 'Z') || c == '-';
        if !ok {
            return Err(
                Error::InvalidComponentName {
                    context: context.to_owned(),
                    name: name.to_owned(),
                    bad_char: Some(c),
                },
            );
        }
        i += 1;
    }
    Ok(())
}

pub open spec fn is_ascii_digit_byte(b: u8) -> bool {
    0x30 <= b && b <= 0x39
}

/// `YYYYMMDDTHHMMSSZ`: 8 ASCII digits, `T`, 6 ASCII digits, `Z`.
pub open spec fn utc_datetime_shape(b: Seq<u8>) -> bool {
    b.len() == 16 && (forall|i: int| 0 <= i < 8 ==> is_ascii_digit_byte(#[trigger] b[i])) && b[8] == 0x54
        && (forall|i: int| 9 <= i < 15 ==> is_ascii_digit_byte(#[trigger] b[i])) && b[15] == 0x5a
}

/// Validate the shape of an iCalendar UTC date-time (`20240101T000000Z`);
/// a structural check only, calendar semantics are not checked.
pub fn validate_utc_datetime(value: &str, context: &str) -> (r: Result<(), Error>)
    ensures
        utc_datetime_shape(value.spec_bytes()) ==> r is Ok,
        !utc_datetime_shape(value.spec_bytes()) ==> (r matches Err(e) && e@ == (ErrorView::InvalidDateTime {
            context: context@,
            value: value@,
        })),
{
    let b = value.as_bytes();
    let mut ok = b.len() == 16;
    if ok {
        let mut i: usize = 0;
        while i < 16
            invariant
                b@.len() == 16,
                i <= 16,
                ok == forall|j: int| 0 <= j < i && j != 8 && j != 15 ==> is_ascii_digit_byte(#[trigger] b@[j]),
            decreases 16 - i,
        {
            if i != 8 && i != 15 {
                ok = ok && 0x30 <= b[i] && b[i] <= 0x39;
            }
            i += 1;
        }
        ok = ok && b[8] == 0x54 && b[15] == 0x5a;
    }
    if !ok {
        return Err(Error::InvalidDateTime { context: context.to_owned(), value: value.to_owned() });
    }
    Ok(())
}

/// The decimal digits of `n`.
pub open spec fn decimal(n: nat) -> Seq<char>
    decreases n,
{
    if n < 10 {
        seq![(('0' as u32) + n) as char]
    } else {
        decimal(n / 10) + seq![(('0' as u32) + n % 10) as char]
    }
}

/// `n` in decimal.
pub fn u32_decimal(n: u32) -> (r: String)
    ensures
        r@ == decimal(n as nat),
    decreases n,
{
    if n < 10 {
        let mut s = String::new();
        s.push(char_of_digit(n));
        s
    } else {
        let mut s = u32_decimal(n / 10);
        s.push(char_of_digit(n % 10));
        s
    }
}

/// `n` in decimal.
pub fn u64_decimal(n: u64) -> (r: String)
    ensures
        r@ == decimal(n as nat),
    decreases n,
{
    if n < 10 {
        let mut s = String::new();
        s.push(digit_char(n));
        s
    } else {
        let mut s = u64_decimal(n / 10);
        s.push(digit_char(n % 10));
        s
    }
}

fn digit_char(d: u64) -> (c: char)
    requires
        d < 10,
    ensures
        c == (('0' as u32) + d) as char,
{
    let b: u8 = 0x30 + d as u8;
    b as char
}

fn char_of_digit(d: u32) -> (c: char)
    requires
        d < 10,
    ensures
        c == (('0' as u32) + d) as char,
{
    if d == 0 {
        '0'
    } else if d == 1 {
        '1'
    } else if d == 2 {
        '2'
    } else if d == 3 {
        '3'
    } else if d == 4 {
        '4'
    } else if d == 5 {
        '5'
    } else if d == 6 {
        '6'
    } else if d == 7 {
        '7'
    } else if d == 8 {
        '8'
    } else {
        '9'
    }
}

/// The `calendar-data` / `address-data` element: bare, or wrapping an
/// `<C:expand>` (RFC 4791 §9.6) when expansion over `start`..`end` is asked.
pub open spec fn data_element_spec(data_element: Seq<char>, expand: Option<(Seq<char>, Option<Seq<char>>)>) -> Seq<char> {
    match expand {
        None => "<C:"@ + data_element + "/>"@,
        Some((start, end)) => "<C:"@ + data_element + "><C:expand start=\""@ + escape_xml_spec(start) + "\""@
            + match end {
            Some(e) => " end=\""@ + escape_xml_spec(e) + "\""@,
            None => Seq::empty(),
        } + "/></C:"@ + data_element + ">"@,
    }
}

pub open spec fn expand_view(expand: Option<(&str, Option<&str>)>) -> Option<(Seq<char>, Option<Seq<char>>)> {
    match expand {
        None => None,
        Some((s, e)) => Some(
            (
                s@,
                match e {
                    Some(x) => Some(x@),
                    None => None,
                },
            ),
        ),
    }
}

/// Render a data element (see [`data_element_spec`]).
pub fn data_element_xml(data_element: &str, expand: Option<(&str, Option<&str>)>) -> (r: String)
    ensures
        r@ == data_element_spec(data_element@, expand_view(expand)),
{
    match expand {
        None => {
            let mut out = "<C:".to_owned();
            out.append(data_element);
            out.append("/>");
            out
        },
        Some((start, end)) => {
            let mut out = "<C:".to_owned();
            out.append(data_element);
            out.append("><C:expand start=\"");
            append_escaped(&mut out, start);
            out.append("\"");
            let ghost before = out@;
            match end {
                Some(e) => {
                    out.append(" end=\"");
                    append_escaped(&mut out, e);
                    out.append("\"");
                },
                None => {},
            }
            out.append("/></C:");
            out.append(data_element);
            out.append(">");
            out
        },
    }
}

/// A `text-match` element (RFC 4791 §9.7.5).
pub open spec fn text_match_spec(value: Seq<char>, collation: Seq<char>, match_type: Seq<char>, negate: bool) -> Seq<char> {
    "<C:text-match collation=\""@ + escape_xml_spec(collation) + "\" match-type=\""@ + escape_xml_spec(match_type)
        + "\""@ + (if negate {
        " negate-condition=\"yes\""@
    } else {
        Seq::empty()
    }) + ">"@ + escape_xml_spec(value) + "</C:text-match>"@
}

/// Render a `text-match` element (see [`text_match_spec`]).
pub fn text_match_xml(value: &str, collation: &str, match_type: &str, negate: bool) -> (r: String)
    ensures
        r@ == text_match_spec(value@, collation@, match_type@, negate),
{
    let mut out = "<C:text-match collation=\"".to_owned();
    append_escaped(&mut out, collation);
    out.append("\" match-type=\"");
    append_escaped(&mut out, match_type);
    out.append("\"");
    if negate {
        out.append(" negate-condition=\"yes\"");
    }
    out.append(">");
    append_escaped(&mut out, value);
    out.append("</C:text-match>");
    out
}

/// An element `<C:tag name="...">inner</C:tag>`.
pub open spec fn named_filter_spec(tag: Seq<char>, name: Seq<char>, inner: Seq<char>) -> Seq<char> {
    "<C:"@ + tag + " name=\""@ + escape_xml_spec(name) + "\">"@ + inner + "</C:"@ + tag + ">"@
}

fn named_filter_xml(tag: &str, name: &str, inner: &str) -> (r: String)
    ensures
        r@ == named_filter_spec(tag@, name@, inner@),
{
    let mut out = "<C:".to_owned();
    out.append(tag);
    out.append(" name=\"");
    append_escaped(&mut out, name);
    out.append("\">");
    out.append(inner);
    out.append("</C:");
    out.append(tag);
    out.append(">");
    out
}

/// Render a `param-filter` element around `inner`.
pub fn param_filter_xml(name: &str, inner: &str) -> (r: String)
    ensures
        r@ == named_filter_spec("param-filter"@, name@, inner@),
{
    named_filter_xml("param-filter", name, inner)
}

/// Render a `prop-filter` element around `inner`.
pub fn prop_filter_xml(name: &str, inner: &str) -> (r: String)
    ensures
        r@ == named_filter_spec("prop-filter"@, name@, inner@),
{
    named_filter_xml("prop-filter", name, inner)
}

/// Render a `comp-filter` element around `inner`.
pub fn comp_filter_xml(name: &str, inner: &str) -> (r: String)
    ensures
        r@ == named_filter_spec("comp-filter"@, name@, inner@),
{
    named_filter_xml("comp-filter", name, inner)
}

/// A `time-range` element.
pub open spec fn time_range_spec(start: Seq<char>, end: Option<Seq<char>>) -> Seq<char> {
    "<C:time-range start=\""@ + escape_xml_spec(start) + "\""@ + match end {
        Some(e) => " end=\""@ + escape_xml_spec(e) + "\""@,
        None => Seq::empty(),
    } + "/>"@
}

/// Render a `time-range` element (see [`time_range_spec`]).
pub fn time_range_xml(start: &str, end: Option<&str>) -> (r: String)
    ensures
        r@ == time_range_spec(
            start@,
            match end {
                Some(e) => Some(e@),
                None => None,
            },
        ),
{
    let mut out = "<C:time-range start=\"".to_owned();
    append_escaped(&mut out, start);
    out.append("\"");
    match end {
        Some(e) => {
            out.append(" end=\"");
            append_escaped(&mut out, e);
            out.append("\"");
        },
        None => {},
    }
    out.append("/>");
    out
}

/// The `is-not-defined` element.
pub fn is_not_defined_xml() -> (r: &'static str)
    ensures
        r@ == "<C:is-not-defined/>"@,
{
    "<C:is-not-defined/>"
}


/// The `sync-collection` REPORT body (RFC 6578 §3.3).
pub open spec fn sync_collection_spec(
    sync_token: Option<Seq<char>>,
    limit: Option<u32>,
    include_data: bool,
    namespace: Seq<char>,
    data_element: Seq<char>,
    expand: Option<(Seq<char>, Option<Seq<char>>)>,
    sync_level: SyncLevel,
) -> Seq<char> {
    "<D:sync-collection xmlns:D=\"DAV:\" xmlns:C=\""@ + namespace + "\">"@
        + match sync_token {
        Some(t) => "<D:sync-token>"@ + escape_xml_spec(t) + "</D:sync-token>"@,
        None => "<D:sync-token/>"@,
    } + "<D:sync-level>"@ + sync_level_text(sync_level) + "</D:sync-level>"@ + "<D:prop><D:getetag/>"@
        + (if include_data || expand is Some {
        data_element_spec(data_element, expand)
    } else {
        Seq::empty()
    }) + "</D:prop>"@ + match limit {
        Some(n) => "<D:limit><D:nresults>"@ + decimal(n as nat) + "</D:nresults></D:limit>"@,
        None => Seq::empty(),
    } + "</D:sync-collection>"@
}

pub open spec fn opt_str_view(o: Option<&str>) -> Option<Seq<char>> {
    match o {
        Some(s) => Some(s@),
        None => None,
    }
}

/// Build a `sync-collection` REPORT body: the sync token (empty element for
/// an initial sync), the sync level, the properties (`getetag`, plus the data
/// element when data or expansion is asked) and an optional result limit.
pub fn build_sync_collection_body(
    sync_token: Option<&str>,
    limit: Option<u32>,
    include_data: bool,
    namespace: &str,
    data_element: &str,
    expand: Option<(&str, Option<&str>)>,
    sync_level: SyncLevel,
) -> (r: String)
    ensures
        r@ == sync_collection_spec(
            opt_str_view(sync_token),
            limit,
            include_data,
            namespace@,
            data_element@,
            expand_view(expand),
            sync_level,
        ),
{
    let mut body = "<D:sync-collection xmlns:D=\"DAV:\" xmlns:C=\"".to_owned();
    body.append(namespace);
    body.append("\">");
    let ghost s1 = body@;
    match sync_token {
        Some(token) => {
            body.append("<D:sync-token>");
            append_escaped(&mut body, token);
            body.append("</D:sync-token>");
        },
        None => {
            body.append("<D:sync-token/>");
        },
    }
    let ghost s2 = body@;
    body.append("<D:sync-level>");
    body.append(sync_level.as_str());
    body.append("</D:sync-level>");
    body.append("<D:prop><D:getetag/>");
    let ghost s3 = body@;
    if include_data || expand.is_some() {
        let d = data_element_xml(data_element, expand);
        body.append(d.as_str());
    }
    body.append("</D:prop>");
    let ghost s4 = body@;
    match limit {
        Some(n) => {
            body.append("<D:limit><D:nresults>");
            let d = u32_decimal(n);
            body.append(d.as_str());
            body.append("</D:nresults></D:limit>");
        },
        None => {},
    }
    body.append("</D:sync-collection>");
    body
}

/// The hrefs of a multiget, escaped and wrapped in `<D:href>`; empty ones
/// are skipped.
pub open spec fn href_list_spec(hrefs: Seq<Seq<char>>) -> Seq<char>
    decreases hrefs.len(),
{
    if hrefs.len() == 0 {
        Seq::empty()
    } else {
        href_list_spec(hrefs.drop_last()) + if hrefs.last().len() == 0 {
            Seq::empty()
        } else {
            "<D:href>"@ + escape_xml_spec(hrefs.last()) + "</D:href>"@
        }
    }
}

/// Whether some href is non-empty.
pub open spec fn has_nonempty(hrefs: Seq<Seq<char>>) -> bool {
    exists|i: int| 0 <= i < hrefs.len() && #[trigger] hrefs[i].len() > 0
}

/// A multiget REPORT body with root element `root_element`.
pub open spec fn multiget_spec(
    hrefs: Seq<Seq<char>>,
    include_data: bool,
    namespace: Seq<char>,
    root_element: Seq<char>,
    data_element: Seq<char>,
    expand: Option<(Seq<char>, Option<Seq<char>>)>,
) -> Seq<char> {
    "<C:"@ + root_element + " xmlns:D=\"DAV:\" xmlns:C=\""@ + namespace + "\"><D:prop><D:getetag/>"@
        + (if include_data || expand is Some {
        data_element_spec(data_element, expand)
    } else {
        Seq::empty()
    }) + "</D:prop>"@ + href_list_spec(hrefs) + "</C:"@ + root_element + ">"@
}

pub open spec fn strings_view(v: Seq<String>) -> Seq<Seq<char>> {
    Seq::new(v.len(), |i: int| v[i]@)
}

/// Build a multiget REPORT body (`calendar-multiget` / `addressbook-multiget`)
/// for `hrefs`; `None` when no href is non-empty.
pub fn build_multiget_body(
    hrefs: &[String],
    include_data: bool,
    namespace: &str,
    root_element: &str,
    data_element: &str,
    expand: Option<(&str, Option<&str>)>,
) -> (r: Option<String>)
    ensures
        !has_nonempty(strings_view(hrefs@)) ==> r is None,
        has_nonempty(strings_view(hrefs@)) ==> (r matches Some(b) && b@ == multiget_spec(
            strings_view(hrefs@),
            include_data,
            namespace@,
            root_element@,
            data_element@,
            expand_view(expand),
        )),
{
    let mut href_xml = String::new();
    let mut any = false;
    let mut i: usize = 0;
    while i < hrefs.len()
        invariant
            i <= hrefs@.len(),
            href_xml@ == href_list_spec(strings_view(hrefs@).take(i as int)),
            any <==> has_nonempty(strings_view(hrefs@).take(i as int)),
        decreases hrefs.len() - i,
    {
        let ghost vs = strings_view(hrefs@);
        assert(vs.take(i as int + 1).drop_last() =~= vs.take(i as int));
        let h = hrefs[i].as_str();
        assert(vs.take(i as int + 1).last() == h@);
        if !h.is_empty() {
            href_xml.append("<D:href>");
            append_escaped(&mut href_xml, h);
            href_xml.append("</D:href>");
            any = true;
            assert(vs.take(i as int + 1)[i as int].len() > 0);
        } else {
            assert forall|j: int| 0 <= j < i + 1 && #[trigger] vs.take(i as int + 1)[j].len() > 0 implies vs.take(
                i as int,
            )[j].len() > 0 by {}
        }
        assert forall|j: int| 0 <= j < i && #[trigger] vs.take(i as int)[j].len() > 0 implies vs.take(
            i as int + 1,
        )[j].len() > 0 by {}
        i += 1;
    }
    proof {
        assert(strings_view(hrefs@).take(hrefs@.len() as int) =~= strings_view(hrefs@));
    }
    if !any {
        return None;
    }
    let mut body = "<C:".to_owned();
    body.append(root_element);
    body.append(" xmlns:D=\"DAV:\" xmlns:C=\"");
    body.append(namespace);
    body.append("\"><D:prop><D:getetag/>");
    if include_data || expand.is_some() {
        let d = data_element_xml(data_element, expand);
        body.append(d.as_str());
    }
    body.append("</D:prop>");
    body.append(href_xml.as_str());
    body.append("</C:");
    body.append(root_element);
    body.append(">");
    Some(body)
}


/// Escaped text cannot alter the structure of generated XML: it holds no
/// `<`, `>`, `"` or `'`, and every `&` starts one of the five predefined
/// entities.
pub proof fn lemma_escaped_text_is_inert(s: Seq<char>)
    ensures
        forall|i: int|
            0 <= i < escape_xml_spec(s).len() ==> {
                let c = #[trigger] escape_xml_spec(s)[i];
                c != '<' && c != '>' && c != '"' && c != '\''
            },
        forall|i: int|
            0 <= i < escape_xml_spec(s).len() && #[trigger] escape_xml_spec(s)[i] == '&' ==> {
                let rest = escape_xml_spec(s).subrange(i, escape_xml_spec(s).len() as int);
                has_entity_prefix(rest)
            },
    decreases s.len(),
{
    if s.len() > 0 {
        let p = escape_xml_spec(s.drop_last());
        let q = escape_char(s.last());
        lemma_escaped_text_is_inert(s.drop_last());
        assert(escape_xml_spec(s) == p + q);
        assert forall|i: int| 0 <= i < (p + q).len() implies {
            let c = #[trigger] (p + q)[i];
            c != '<' && c != '>' && c != '"' && c != '\''
        } by {
            if i >= p.len() {
                assert((p + q)[i] == q[i - p.len()]);
            } else {
                assert((p + q)[i] == p[i]);
            }
        }
        assert forall|i: int| 0 <= i < (p + q).len() && #[trigger] (p + q)[i] == '&' implies has_entity_prefix(
            (p + q).subrange(i, (p + q).len() as int),
        ) by {
            if i >= p.len() {
                assert((p + q)[i] == q[i - p.len()]);
                lemma_escape_char_amp(s.last(), i - p.len());
                assert(i == p.len());
                assert((p + q).subrange(i, (p + q).len() as int) =~= q);
            } else {
                assert((p + q)[i] == p[i]);
                let rp = p.subrange(i, p.len() as int);
                assert(has_entity_prefix(rp));
                assert((p + q).subrange(i, (p + q).len() as int) =~= rp + q);
                lemma_entity_prefix_extends(rp, q);
            }
        }
    }
}

/// `t` starts with one of `&amp;`, `&lt;`, `&gt;`, `&quot;`, `&apos;`.
pub open spec fn has_entity_prefix(t: Seq<char>) -> bool {
    ||| (t.len() >= 5 && t.subrange(0, 5) == seq!['&', 'a', 'm', 'p', ';'])
    ||| (t.len() >= 4 && t.subrange(0, 4) == seq!['&', 'l', 't', ';'])
    ||| (t.len() >= 4 && t.subrange(0, 4) == seq!['&', 'g', 't', ';'])
    ||| (t.len() >= 6 && t.subrange(0, 6) == seq!['&', 'q', 'u', 'o', 't', ';'])
    ||| (t.len() >= 6 && t.subrange(0, 6) == seq!['&', 'a', 'p', 'o', 's', ';'])
}

proof fn lemma_entity_prefix_extends(a: Seq<char>, b: Seq<char>)
    requires
        has_entity_prefix(a),
    ensures
        has_entity_prefix(a + b),
{
    let t = a + b;
    if a.len() >= 5 {
        assert(t.subrange(0, 5) =~= a.subrange(0, 5));
    }
    if a.len() >= 4 {
        assert(t.subrange(0, 4) =~= a.subrange(0, 4));
    }
    if a.len() >= 6 {
        assert(t.subrange(0, 6) =~= a.subrange(0, 6));
    }
}


proof fn lemma_escape_char_amp(c: char, j: int)
    requires
        0 <= j < escape_char(c).len(),
        escape_char(c)[j] == '&',
    ensures
        j == 0,
        has_entity_prefix(escape_char(c)),
{
    let q = escape_char(c);
    if c == '&' {
        assert(q.subrange(0, 5) =~= q);
    } else if c == '<' {
        assert(q.subrange(0, 4) =~= q);
    } else if c == '>' {
        assert(q.subrange(0, 4) =~= q);
    } else if c == '"' {
        assert(q.subrange(0, 6) =~= q);
    } else if c == '\'' {
        assert(q.subrange(0, 6) =~= q);
    }
}

/// Text without `&`, `<`, `>`, `"` or `'` is escaped to itself.
pub proof fn lemma_escape_keeps_plain_text(s: Seq<char>)
    requires
        forall|i: int|
            0 <= i < s.len() ==> #[trigger] s[i] != '&' && s[i] != '<' && s[i] != '>' && s[i] != '"' && s[i]
                != '\'',
    ensures
        escape_xml_spec(s) == s,
    decreases s.len(),
{
    if s.len() > 0 {
        let f = s.drop_last();
        assert forall|i: int| 0 <= i < f.len() implies #[trigger] f[i] != '&' && f[i] != '<' && f[i] != '>'
            && f[i] != '"' && f[i] != '\'' by {
            assert(f[i] == s[i]);
        }
        lemma_escape_keeps_plain_text(f);
        assert(s[s.len() - 1] == s.last());
        assert(escape_xml_spec(s) =~= s);
    }
}

} // verus!

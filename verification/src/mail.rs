//! A parsed message as plain values: its parts (headers, content type, decoded
//! body), as `mailparse` reads them, and the header lookups the templates use.

use vstd::prelude::*;
use crate::text::{eq_ignore_case, eq_ignore_ascii_case, lower_code, str_eq, string_views};

verus! {

/// One header line: its name and its decoded, unfolded value.
#[derive(Debug)]
pub struct MailHeader {
    pub key: String,
    pub value: String,
}

/// One part of a message (the message itself is the first part).
#[derive(Debug)]
pub struct MailPart {
    /// The headers of this part, in order.
    pub headers: Vec<MailHeader>,
    /// The MIME type of the part (`ctype.mimetype`), such as `text/plain`.
    pub mimetype: String,
    /// The body decoded to text, or the text of the decoding error.
    pub body: Result<String, String>,
    /// The body with its transfer encoding undone, or the text of the decoding error.
    pub body_raw: Result<Vec<u8>, String>,
}

/// A parsed message: its parts in `mailparse`'s traversal order (the message
/// itself first), and the raw bytes it was read from.
#[derive(Debug)]
pub struct ParsedEmail {
    pub parts: Vec<MailPart>,
    pub raw: Vec<u8>,
}

pub struct HeaderView {
    pub key: Seq<char>,
    pub value: Seq<char>,
}

pub struct PartView {
    pub headers: Seq<HeaderView>,
    pub mimetype: Seq<char>,
    pub body: Result<Seq<char>, Seq<char>>,
    pub body_raw: Result<Seq<u8>, Seq<char>>,
}

pub struct ParsedEmailView {
    pub parts: Seq<PartView>,
    pub raw: Seq<u8>,
}

impl View for MailHeader {
    type V = HeaderView;

    open spec fn view(&self) -> HeaderView {
        HeaderView { key: self.key@, value: self.value@ }
    }
}

pub open spec fn header_views(v: Seq<MailHeader>) -> Seq<HeaderView> {
    v.map_values(|h: MailHeader| h@)
}

pub open spec fn result_view(r: Result<String, String>) -> Result<Seq<char>, Seq<char>> {
    match r {
        Ok(s) => Ok(s@),
        Err(e) => Err(e@),
    }
}

pub open spec fn bytes_result_view(r: Result<Vec<u8>, String>) -> Result<Seq<u8>, Seq<char>> {
    match r {
        Ok(v) => Ok(v@),
        Err(e) => Err(e@),
    }
}

impl View for MailPart {
    type V = PartView;

    open spec fn view(&self) -> PartView {
        PartView {
            headers: header_views(self.headers@),
            mimetype: self.mimetype@,
            body: result_view(self.body),
            body_raw: bytes_result_view(self.body_raw),
        }
    }
}

pub open spec fn part_views(v: Seq<MailPart>) -> Seq<PartView> {
    v.map_values(|p: MailPart| p@)
}

impl View for ParsedEmail {
    type V = ParsedEmailView;

    open spec fn view(&self) -> ParsedEmailView {
        ParsedEmailView { parts: part_views(self.parts@), raw: self.raw@ }
    }
}

/// The headers of the message itself (those of its first part).
pub open spec fn root_headers(p: ParsedEmailView) -> Seq<HeaderView> {
    if p.parts.len() > 0 {
        p.parts[0].headers
    } else {
        Seq::empty()
    }
}

/// What `mailparse` reads from the raw bytes of a message: its parts in the order
/// of `ParsedMail::parts` (a depth-first pre-order walk, the message first), or
/// the text of its error.
pub uninterp spec fn mail_parse(raw: Seq<u8>) -> Result<Seq<PartView>, Seq<char>>;

/// Parses a message with `mailparse::parse_mail` and reads each part that
/// `ParsedMail::parts` yields: headers (`get_key`, `get_value`), `ctype.mimetype`,
/// `get_body` and `get_body_raw`. The result is `mail_parse` of the bytes; the
/// walk always yields the message itself, so a parsed message has a part.
#[verifier::external_body]
pub(crate) fn parse_mail_parts(raw: &[u8]) -> (res: Result<Vec<MailPart>, String>)
    ensures
        match res {
            Ok(v) => mail_parse(raw@) == Ok::<Seq<PartView>, Seq<char>>(part_views(v@)),
            Err(e) => mail_parse(raw@) == Err::<Seq<PartView>, Seq<char>>(e@),
        },
        res matches Ok(v) ==> v@.len() >= 1,
{
    let parsed = mailparse::parse_mail(raw).map_err(|e| e.to_string())?;
    Ok(parsed.parts().map(|p| MailPart {
        headers: p.headers.iter().map(|h| MailHeader { key: h.get_key(), value: h.get_value() }).collect(),
        mimetype: p.ctype.mimetype.clone(),
        body: p.get_body().map_err(|e| e.to_string()),
        body_raw: p.get_body_raw().map_err(|e| e.to_string()),
    }).collect())
}

/// The first header whose name matches `key` up to ASCII case.
pub open spec fn first_header(hs: Seq<HeaderView>, key: Seq<char>) -> Option<HeaderView>
    decreases hs.len(),
{
    if hs.len() == 0 {
        None
    } else if eq_ignore_case(hs[0].key, key) {
        Some(hs[0])
    } else {
        first_header(hs.drop_first(), key)
    }
}

/// The value of the first header whose name matches `key` up to ASCII case.
pub open spec fn first_value(hs: Seq<HeaderView>, key: Seq<char>) -> Option<Seq<char>> {
    match first_header(hs, key) {
        Some(h) => Some(h.value),
        None => None,
    }
}

/// The values of all headers whose name matches `key` up to ASCII case, in order.
pub open spec fn all_values(hs: Seq<HeaderView>, key: Seq<char>) -> Seq<Seq<char>> {
    hs.filter(|h: HeaderView| eq_ignore_case(h.key, key)).map_values(|h: HeaderView| h.value)
}

/// Whether the header name `key` is one of `keys` (ASCII case ignored).
pub open spec fn names_one_of(key: Seq<char>, keys: Seq<Seq<char>>) -> bool {
    exists|i: int| 0 <= i < keys.len() && #[trigger] eq_ignore_case(key, keys[i])
}

/// `hs` without the headers whose name is one of `keys`.
pub open spec fn without_headers(hs: Seq<HeaderView>, keys: Seq<Seq<char>>) -> Seq<HeaderView> {
    hs.filter(|h: HeaderView| !names_one_of(h.key, keys))
}

/// Equality up to ASCII case is symmetric and transitive.
pub proof fn lemma_eq_ignore_case_equiv(a: Seq<char>, b: Seq<char>, c: Seq<char>)
    ensures
        eq_ignore_case(a, b) ==> eq_ignore_case(b, a),
        eq_ignore_case(a, b) && eq_ignore_case(b, c) ==> eq_ignore_case(a, c),
{
    if eq_ignore_case(a, b) {
        assert forall|i: int| 0 <= i < b.len() implies lower_code(#[trigger] b[i]) == lower_code(a[i]) by {
            assert(lower_code(a[i]) == lower_code(b[i]));
        }
        if eq_ignore_case(b, c) {
            assert forall|i: int| 0 <= i < a.len() implies lower_code(#[trigger] a[i]) == lower_code(c[i]) by {
                assert(lower_code(a[i]) == lower_code(b[i]));
                assert(lower_code(b[i]) == lower_code(c[i]));
            }
        }
    }
}

/// The first header named `key` is a header of `hs` whose name matches `key`.
pub proof fn lemma_first_header_matches(hs: Seq<HeaderView>, key: Seq<char>)
    ensures
        first_header(hs, key) matches Some(h) ==> eq_ignore_case(h.key, key) && hs.contains(h),
    decreases hs.len(),
{
    if hs.len() > 0 {
        lemma_first_header_matches(hs.drop_first(), key);
        if let Some(h) = first_header(hs.drop_first(), key) {
            if !eq_ignore_case(hs[0].key, key) {
                let j = choose|j: int| 0 <= j < hs.drop_first().len() && hs.drop_first()[j] == h;
                assert(hs[j + 1] == h);
            }
        }
    }
}

/// Names equal up to ASCII case find the same first header.
pub proof fn lemma_first_header_same_name(hs: Seq<HeaderView>, a: Seq<char>, b: Seq<char>)
    requires
        eq_ignore_case(a, b),
    ensures
        first_header(hs, a) == first_header(hs, b),
    decreases hs.len(),
{
    if hs.len() > 0 {
        lemma_eq_ignore_case_equiv(hs[0].key, a, b);
        lemma_eq_ignore_case_equiv(a, b, a);
        lemma_eq_ignore_case_equiv(hs[0].key, b, a);
        lemma_first_header_same_name(hs.drop_first(), a, b);
    }
}

/// Leaving out headers of other names does not change the first header named `key`.
pub proof fn lemma_first_header_without(hs: Seq<HeaderView>, keys: Seq<Seq<char>>, key: Seq<char>)
    requires
        !names_one_of(key, keys),
    ensures
        first_header(without_headers(hs, keys), key) == first_header(hs, key),
    decreases hs.len(),
{
    let f = |h: HeaderView| !names_one_of(h.key, keys);
    if hs.len() == 0 {
        reveal(Seq::filter);
        assert(without_headers(hs, keys) =~= Seq::<HeaderView>::empty());
    } else {
        let rest = hs.drop_first();
        assert(hs =~= seq![hs[0]] + rest);
        rest.lemma_filter_prepend(hs[0], f);
        lemma_first_header_without(rest, keys, key);
        let w = without_headers(hs, keys);
        if f(hs[0]) {
            assert(w == seq![hs[0]] + without_headers(rest, keys));
            assert(w[0] == hs[0]);
            assert(w.drop_first() =~= without_headers(rest, keys));
        } else {
            assert(w == Seq::<HeaderView>::empty() + without_headers(rest, keys));
            assert(w =~= without_headers(rest, keys));
            let i = choose|i: int| 0 <= i < keys.len() && #[trigger] eq_ignore_case(hs[0].key, keys[i]);
            if eq_ignore_case(hs[0].key, key) {
                // then `key` would be one of `keys`
                assert(eq_ignore_case(key, keys[i])) by {
                    assert forall|j: int| 0 <= j < key.len() implies lower_code(#[trigger] key[j]) == lower_code(keys[i][j]) by {
                        assert(lower_code(hs[0].key[j]) == lower_code(key[j]));
                        assert(lower_code(hs[0].key[j]) == lower_code(keys[i][j]));
                    }
                }
                assert(false);
            }
        }
    }
}

/// Leaving out headers of other names does not change the values of the headers
/// named `key`.
pub proof fn lemma_all_values_without(hs: Seq<HeaderView>, keys: Seq<Seq<char>>, key: Seq<char>)
    requires
        !names_one_of(key, keys),
    ensures
        all_values(without_headers(hs, keys), key) == all_values(hs, key),
{
    lemma_filter_within(hs, keys, key);
}

proof fn lemma_filter_within(hs: Seq<HeaderView>, keys: Seq<Seq<char>>, key: Seq<char>)
    requires
        !names_one_of(key, keys),
    ensures
        without_headers(hs, keys).filter(|h: HeaderView| eq_ignore_case(h.key, key))
            == hs.filter(|h: HeaderView| eq_ignore_case(h.key, key)),
    decreases hs.len(),
{
    let f = |h: HeaderView| !names_one_of(h.key, keys);
    let g = |h: HeaderView| eq_ignore_case(h.key, key);
    if hs.len() == 0 {
        reveal(Seq::filter);
        assert(without_headers(hs, keys) =~= hs);
    } else {
        let init = hs.drop_last();
        let x = hs.last();
        assert(hs =~= init.push(x));
        lemma_filter_within(init, keys, key);
        init.lemma_filter_push(x, f);
        init.lemma_filter_push(x, g);
        let wi = without_headers(init, keys);
        if f(x) {
            wi.lemma_filter_push(x, g);
        } else if g(x) {
            let i = choose|i: int| 0 <= i < keys.len() && #[trigger] eq_ignore_case(x.key, keys[i]);
            assert(eq_ignore_case(key, keys[i])) by {
                assert forall|j: int| 0 <= j < key.len() implies lower_code(#[trigger] key[j]) == lower_code(keys[i][j]) by {
                    assert(lower_code(x.key[j]) == lower_code(key[j]));
                    assert(lower_code(x.key[j]) == lower_code(keys[i][j]));
                }
            }
            assert(false);
        }
    }
}

/// The first header named `key` (ASCII case ignored), as `MailHeaderMap::get_first_header`.
pub fn get_first_header<'a>(headers: &'a Vec<MailHeader>, key: &str) -> (res: Option<&'a MailHeader>)
    ensures
        match res {
            Some(h) => first_header(header_views(headers@), key@) == Some(h@),
            None => first_header(header_views(headers@), key@) is None,
        },
{
    let ghost hs = header_views(headers@);
    let mut i: usize = 0;
    assert(hs.skip(0) =~= hs);
    while i < headers.len()
        invariant
            i <= headers@.len(),
            hs == header_views(headers@),
            first_header(hs, key@) == first_header(hs.skip(i as int), key@),
        decreases headers@.len() - i,
    {
        assert(hs.skip(i as int)[0] == headers@[i as int]@);
        if eq_ignore_ascii_case(headers[i].key.as_str(), key) {
            return Some(&headers[i]);
        }
        assert(hs.skip(i as int).drop_first() =~= hs.skip(i + 1));
        i += 1;
    }
    None
}

/// The value of the first header named `key`, as `MailHeaderMap::get_first_value`.
pub fn get_first_value(headers: &Vec<MailHeader>, key: &str) -> (res: Option<String>)
    ensures
        opt_string_view(res) == first_value(header_views(headers@), key@),
{
    match get_first_header(headers, key) {
        Some(h) => Some(h.value.clone()),
        None => None,
    }
}

pub open spec fn opt_string_view(o: Option<String>) -> Option<Seq<char>> {
    match o {
        Some(s) => Some(s@),
        None => None,
    }
}

/// The values of all headers named `key`, in order, as `MailHeaderMap::get_all_values`.
pub fn get_all_values(headers: &Vec<MailHeader>, key: &str) -> (res: Vec<String>)
    ensures
        string_views(res@) == all_values(header_views(headers@), key@),
{
    let ghost hs = header_views(headers@);
    let ghost pred = |h: HeaderView| eq_ignore_case(h.key, key@);
    let mut out: Vec<String> = Vec::new();
    let mut i: usize = 0;
    while i < headers.len()
        invariant
            i <= headers@.len(),
            hs == header_views(headers@),
            pred == (|h: HeaderView| eq_ignore_case(h.key, key@)),
            string_views(out@) == hs.take(i as int).filter(pred).map_values(|h: HeaderView| h.value),
        decreases headers@.len() - i,
    {
        proof {
            reveal(Seq::filter);
            assert(hs.take(i + 1).drop_last() =~= hs.take(i as int));
            assert(hs.take(i + 1).last() == headers@[i as int]@);
        }
        let ghost before = out@;
        if eq_ignore_ascii_case(headers[i].key.as_str(), key) {
            out.push(headers[i].value.clone());
            assert(string_views(out@) =~= string_views(before).push(headers@[i as int].value@));
        }
        i += 1;
    }
    assert(hs.take(headers@.len() as int) =~= hs);
    out
}

/// The kind of a `Content-Disposition`.
#[derive(Debug)]
pub enum DispositionKind {
    Inline,
    Attachment,
    FormData,
    Extension(String),
}

/// A parsed `Content-Disposition` header: its kind and its parameters (names
/// lower-cased, in order).
#[derive(Debug)]
pub struct Disposition {
    pub kind: DispositionKind,
    pub params: Vec<(String, String)>,
}

pub enum DispositionKindView {
    Inline,
    Attachment,
    FormData,
    Extension(Seq<char>),
}

pub struct DispositionView {
    pub kind: DispositionKindView,
    pub params: Seq<(Seq<char>, Seq<char>)>,
}

pub open spec fn kind_view(k: DispositionKind) -> DispositionKindView {
    match k {
        DispositionKind::Inline => DispositionKindView::Inline,
        DispositionKind::Attachment => DispositionKindView::Attachment,
        DispositionKind::FormData => DispositionKindView::FormData,
        DispositionKind::Extension(s) => DispositionKindView::Extension(s@),
    }
}

pub open spec fn param_views(v: Seq<(String, String)>) -> Seq<(Seq<char>, Seq<char>)> {
    v.map_values(|p: (String, String)| (p.0@, p.1@))
}

impl View for Disposition {
    type V = DispositionView;

    open spec fn view(&self) -> DispositionView {
        DispositionView { kind: kind_view(self.kind), params: param_views(self.params@) }
    }
}

/// What `mailparse::parse_content_disposition` reads from a header value.
pub uninterp spec fn content_disposition(value: Seq<char>) -> DispositionView;

/// Parses a `Content-Disposition` value with `mailparse::parse_content_disposition`;
/// the result is `content_disposition` of the value.
#[verifier::external_body]
pub(crate) fn parse_content_disposition(value: &str) -> (res: Disposition)
    ensures
        res@ == content_disposition(value@),
{
    let d = mailparse::parse_content_disposition(value);
    let kind = match d.disposition {
        mailparse::DispositionType::Inline => DispositionKind::Inline,
        mailparse::DispositionType::Attachment => DispositionKind::Attachment,
        mailparse::DispositionType::FormData => DispositionKind::FormData,
        mailparse::DispositionType::Extension(s) => DispositionKind::Extension(s),
    };
    Disposition { kind, params: d.params.into_iter().collect() }
}

/// The disposition of a part: its first `Content-Disposition` header parsed, or
/// inline with no parameters (as `ParsedMail::get_content_disposition`).
pub open spec fn part_disposition(p: PartView) -> DispositionView {
    match first_value(p.headers, "Content-Disposition"@) {
        Some(v) => content_disposition(v),
        None => DispositionView { kind: DispositionKindView::Inline, params: Seq::empty() },
    }
}

impl MailPart {
    /// The disposition of this part, as `ParsedMail::get_content_disposition`.
    pub fn content_disposition(&self) -> (res: Disposition)
        ensures
            res@ == part_disposition(self@),
    {
        match get_first_value(&self.headers, "Content-Disposition") {
            Some(v) => parse_content_disposition(v.as_str()),
            None => {
                let d = Disposition { kind: DispositionKind::Inline, params: Vec::new() };
                assert(d@.params =~= Seq::<(Seq<char>, Seq<char>)>::empty());
                d
            },
        }
    }
}

/// The value of the first parameter named exactly `name`.
pub open spec fn param_value(params: Seq<(Seq<char>, Seq<char>)>, name: Seq<char>) -> Option<Seq<char>>
    decreases params.len(),
{
    if params.len() == 0 {
        None
    } else if params[0].0 == name {
        Some(params[0].1)
    } else {
        param_value(params.drop_first(), name)
    }
}

/// The value of the first parameter named exactly `name`.
pub fn get_param(params: &Vec<(String, String)>, name: &str) -> (res: Option<String>)
    ensures
        opt_string_view(res) == param_value(param_views(params@), name@),
{
    let ghost ps = param_views(params@);
    let mut i: usize = 0;
    assert(ps.skip(0) =~= ps);
    while i < params.len()
        invariant
            i <= params@.len(),
            ps == param_views(params@),
            param_value(ps, name@) == param_value(ps.skip(i as int), name@),
        decreases params@.len() - i,
    {
        assert(ps.skip(i as int)[0] == (params@[i as int].0@, params@[i as int].1@));
        if str_eq(params[i].0.as_str(), name) {
            return Some(params[i].1.clone());
        }
        assert(ps.skip(i as int).drop_first() =~= ps.skip(i + 1));
        i += 1;
    }
    None
}

} // verus!

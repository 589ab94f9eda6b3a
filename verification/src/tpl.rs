//! Templates: the text of a message as shown to the user (header lines, a blank
//! line, then the body), and the builder that assembles one.

use vstd::prelude::*;
use crate::text::str_eq;

verus! {

/// A template: the text of a message as shown to the user.
#[derive(Debug)]
pub struct Tpl(pub String);

impl View for Tpl {
    type V = Seq<char>;

    open spec fn view(&self) -> Seq<char> {
        self.0@
    }
}

/// The line a header is written as: `key: value` and a line feed.
pub open spec fn header_line(key: Seq<char>, value: Seq<char>) -> Seq<char> {
    key + ": "@ + value + "\n"@
}

impl Default for Tpl {
    fn default() -> (res: Self)
        ensures
            res@ == Seq::<char>::empty(),
    {
        Tpl(String::new())
    }
}

impl Tpl {
    /// Appends text.
    pub fn push_str(&mut self, s: &str)
        ensures
            final(self)@ == old(self)@ + s@,
    {
        self.0.append(s);
    }

    /// Appends a header line `key: value`.
    pub fn push_header(&mut self, key: &str, value: &str)
        ensures
            final(self)@ == old(self)@ + header_line(key@, value@),
    {
        self.0.append(key);
        self.0.append(": ");
        self.0.append(value);
        self.0.append("\n");
    }

    /// The text of the template.
    pub fn as_str(&self) -> (res: &str)
        ensures
            res@ == self@,
    {
        self.0.as_str()
    }
}

/// Which headers a built template shows.
#[derive(Debug)]
pub enum ShowHeaders {
    /// Every header set on the builder, in the order they were first set.
    All,
    /// The named headers that are set, in this order.
    Only(Vec<String>),
}

/// Options of `TplBuilder::build`.
#[derive(Debug)]
pub struct TplBuilderOpts {
    /// The headers to show; none given means all of them.
    pub show_headers: Option<ShowHeaders>,
}

pub enum ShowHeadersView {
    All,
    Only(Seq<Seq<char>>),
}

pub open spec fn show_headers_view(o: Option<ShowHeaders>) -> Option<ShowHeadersView> {
    match o {
        Some(ShowHeaders::All) => Some(ShowHeadersView::All),
        Some(ShowHeaders::Only(v)) => Some(ShowHeadersView::Only(v@.map_values(|s: String| s@))),
        None => None,
    }
}

impl View for TplBuilderOpts {
    type V = Option<ShowHeadersView>;

    open spec fn view(&self) -> Option<ShowHeadersView> {
        show_headers_view(self.show_headers)
    }
}

impl Default for TplBuilderOpts {
    fn default() -> (res: Self)
        ensures
            res@ is None,
    {
        TplBuilderOpts { show_headers: None }
    }
}

impl TplBuilderOpts {
    /// Shows every header.
    pub fn show_all_headers(self) -> (res: Self)
        ensures
            res@ == Some(ShowHeadersView::All),
    {
        TplBuilderOpts { show_headers: Some(ShowHeaders::All) }
    }

    /// Shows only the given headers, in this order.
    pub fn show_headers(self, headers: Vec<String>) -> (res: Self)
        ensures
            res@ == Some(ShowHeadersView::Only(headers@.map_values(|s: String| s@))),
    {
        TplBuilderOpts { show_headers: Some(ShowHeaders::Only(headers)) }
    }
}

/// Headers as (name, value) pairs.
pub type HeaderPairs = Seq<(Seq<char>, Seq<char>)>;

/// `hs` with header `key` set to `value`: its value replaced where `key` is
/// already set (in place), appended otherwise.
pub open spec fn set_header(hs: HeaderPairs, key: Seq<char>, value: Seq<char>) -> HeaderPairs
    decreases hs.len(),
{
    if hs.len() == 0 {
        seq![(key, value)]
    } else if hs[0].0 == key {
        hs.update(0, (key, value))
    } else {
        seq![hs[0]] + set_header(hs.drop_first(), key, value)
    }
}

/// The value of header `key` in `hs`, if it is set.
pub open spec fn lookup_header(hs: HeaderPairs, key: Seq<char>) -> Option<Seq<char>>
    decreases hs.len(),
{
    if hs.len() == 0 {
        None
    } else if hs[0].0 == key {
        Some(hs[0].1)
    } else {
        lookup_header(hs.drop_first(), key)
    }
}

/// The lines of the headers named in `keys` that are set in `hs`, in the order of `keys`.
pub open spec fn render_keys(hs: HeaderPairs, keys: Seq<Seq<char>>) -> Seq<char>
    decreases keys.len(),
{
    if keys.len() == 0 {
        Seq::empty()
    } else {
        render_keys(hs, keys.drop_last()) + match lookup_header(hs, keys.last()) {
            Some(v) => header_line(keys.last(), v),
            None => Seq::<char>::empty(),
        }
    }
}

pub open spec fn header_keys(hs: HeaderPairs) -> Seq<Seq<char>> {
    hs.map_values(|p: (Seq<char>, Seq<char>)| p.0)
}

/// A template under construction: headers in the order they were first set, and
/// the plain-text body.
#[derive(Debug)]
pub struct TplBuilder {
    pub headers: Vec<(String, String)>,
    pub text_plain: String,
}

pub struct TplBuilderView {
    pub headers: HeaderPairs,
    pub text_plain: Seq<char>,
}

pub open spec fn pair_views(v: Seq<(String, String)>) -> HeaderPairs {
    v.map_values(|p: (String, String)| (p.0@, p.1@))
}

impl View for TplBuilder {
    type V = TplBuilderView;

    open spec fn view(&self) -> TplBuilderView {
        TplBuilderView { headers: pair_views(self.headers@), text_plain: self.text_plain@ }
    }
}

/// The headers a built template shows, by name and in order.
pub open spec fn shown_keys(b: TplBuilderView, opts: Option<ShowHeadersView>) -> Seq<Seq<char>> {
    match opts {
        Some(ShowHeadersView::Only(keys)) => keys,
        _ => header_keys(b.headers),
    }
}

/// The text of a built template: the shown header lines, a blank line after them
/// when there are any, then the plain-text body.
pub open spec fn build_text(b: TplBuilderView, opts: Option<ShowHeadersView>) -> Seq<char> {
    let head = render_keys(b.headers, shown_keys(b, opts));
    if head.len() > 0 {
        head + "\n"@ + b.text_plain
    } else {
        b.text_plain
    }
}

proof fn lemma_set_header_found(hs: HeaderPairs, key: Seq<char>, value: Seq<char>, i: int)
    requires
        0 <= i < hs.len(),
        hs[i].0 == key,
        forall|j: int| 0 <= j < i ==> hs[j].0 != key,
    ensures
        set_header(hs, key, value) == hs.update(i, (key, value)),
    decreases i,
{
    if i > 0 {
        lemma_set_header_found(hs.drop_first(), key, value, i - 1);
        assert(seq![hs[0]] + hs.drop_first().update(i - 1, (key, value)) =~= hs.update(i, (key, value)));
    }
}

proof fn lemma_set_header_absent(hs: HeaderPairs, key: Seq<char>, value: Seq<char>)
    requires
        forall|j: int| 0 <= j < hs.len() ==> hs[j].0 != key,
    ensures
        set_header(hs, key, value) == hs.push((key, value)),
    decreases hs.len(),
{
    if hs.len() > 0 {
        lemma_set_header_absent(hs.drop_first(), key, value);
        assert(seq![hs[0]] + hs.drop_first().push((key, value)) =~= hs.push((key, value)));
    }
}

proof fn lemma_lookup_found(hs: HeaderPairs, key: Seq<char>, i: int)
    requires
        0 <= i < hs.len(),
        hs[i].0 == key,
        forall|j: int| 0 <= j < i ==> hs[j].0 != key,
    ensures
        lookup_header(hs, key) == Some(hs[i].1),
    decreases i,
{
    if i > 0 {
        lemma_lookup_found(hs.drop_first(), key, i - 1);
    }
}

proof fn lemma_lookup_absent(hs: HeaderPairs, key: Seq<char>)
    requires
        forall|j: int| 0 <= j < hs.len() ==> hs[j].0 != key,
    ensures
        lookup_header(hs, key) is None,
    decreases hs.len(),
{
    if hs.len() > 0 {
        lemma_lookup_absent(hs.drop_first(), key);
    }
}

/// No two headers of `hs` have the same name.
pub open spec fn keys_distinct(hs: HeaderPairs) -> bool {
    forall|i: int, j: int| 0 <= i < j < hs.len() ==> hs[i].0 != hs[j].0
}

/// Setting a header and then reading it gives back the value set.
pub proof fn lemma_set_header_then_lookup(hs: HeaderPairs, key: Seq<char>, value: Seq<char>)
    ensures
        lookup_header(set_header(hs, key, value), key) == Some(value),
    decreases hs.len(),
{
    if hs.len() > 0 && hs[0].0 != key {
        lemma_set_header_then_lookup(hs.drop_first(), key, value);
        assert((seq![hs[0]] + set_header(hs.drop_first(), key, value)).drop_first()
            =~= set_header(hs.drop_first(), key, value));
    }
}

/// Setting a header leaves every other header as it was.
pub proof fn lemma_set_header_keeps_others(hs: HeaderPairs, key: Seq<char>, value: Seq<char>, other: Seq<char>)
    requires
        other != key,
    ensures
        lookup_header(set_header(hs, key, value), other) == lookup_header(hs, other),
    decreases hs.len(),
{
    if hs.len() == 0 {
        assert(lookup_header(seq![(key, value)].drop_first(), other) is None);
    } else if hs[0].0 == key {
        assert(hs.update(0, (key, value)).drop_first() =~= hs.drop_first());
    } else {
        lemma_set_header_keeps_others(hs.drop_first(), key, value, other);
        assert((seq![hs[0]] + set_header(hs.drop_first(), key, value)).drop_first()
            =~= set_header(hs.drop_first(), key, value));
    }
}

/// Setting a header keeps one header per name, and the names set are those set
/// before and the new one.
pub proof fn lemma_set_header_keeps_names_distinct(hs: HeaderPairs, key: Seq<char>, value: Seq<char>)
    requires
        keys_distinct(hs),
    ensures
        keys_distinct(set_header(hs, key, value)),
        forall|x: Seq<char>| #[trigger] header_keys(set_header(hs, key, value)).contains(x)
            <==> (x == key || header_keys(hs).contains(x)),
    decreases hs.len(),
{
    let r = set_header(hs, key, value);
    if hs.len() == 0 {
        assert(header_keys(r) =~= seq![key]);
        assert(header_keys(r)[0] == key);
    } else if hs[0].0 == key {
        assert(header_keys(r) =~= header_keys(hs));
        assert(header_keys(hs)[0] == key);
    } else {
        let t = hs.drop_first();
        lemma_set_header_keeps_names_distinct(t, key, value);
        let rt = set_header(t, key, value);
        assert(r == seq![hs[0]] + rt);
        assert(header_keys(r) =~= seq![hs[0].0] + header_keys(rt));
        assert(header_keys(hs) =~= seq![hs[0].0] + header_keys(t));
        assert forall|x: Seq<char>| #[trigger] header_keys(t).contains(x) implies x != hs[0].0 by {
            let j = choose|j: int| 0 <= j < header_keys(t).len() && header_keys(t)[j] == x;
            assert(hs[j + 1].0 == x);
        }
        assert forall|i: int, j: int| 0 <= i < j < r.len() implies r[i].0 != r[j].0 by {
            if i == 0 {
                assert(header_keys(rt)[j - 1] == r[j].0);
                assert(header_keys(rt).contains(r[j].0));
            } else {
                assert(r[i] == rt[i - 1] && r[j] == rt[j - 1]);
            }
        }
        assert forall|x: Seq<char>| #[trigger] header_keys(r).contains(x)
            <==> (x == key || header_keys(hs).contains(x)) by {
            if header_keys(r).contains(x) {
                let j = choose|j: int| 0 <= j < header_keys(r).len() && header_keys(r)[j] == x;
                if j > 0 {
                    assert(header_keys(rt)[j - 1] == x);
                    assert(header_keys(rt).contains(x));
                    if x != key {
                        assert(header_keys(t).contains(x));
                        let k = choose|k: int| 0 <= k < header_keys(t).len() && header_keys(t)[k] == x;
                        assert(header_keys(hs)[k + 1] == x);
                    }
                } else {
                    assert(header_keys(hs)[0] == x);
                }
            }
            if x == key || header_keys(hs).contains(x) {
                if x == key || header_keys(t).contains(x) {
                    assert(header_keys(rt).contains(x));
                    let k = choose|k: int| 0 <= k < header_keys(rt).len() && header_keys(rt)[k] == x;
                    assert(header_keys(r)[k + 1] == x);
                } else {
                    let k = choose|k: int| 0 <= k < header_keys(hs).len() && header_keys(hs)[k] == x;
                    if k == 0 {
                        assert(header_keys(r)[0] == x);
                    } else {
                        assert(header_keys(t)[k - 1] == x);
                    }
                }
            }
        }
    }
}

/// The lines of every header of `hs`, in order.
pub open spec fn render_all(hs: HeaderPairs) -> Seq<char>
    decreases hs.len(),
{
    if hs.len() == 0 {
        Seq::empty()
    } else {
        render_all(hs.drop_last()) + header_line(hs.last().0, hs.last().1)
    }
}

/// Showing all the headers of a builder (one per name) writes each of them once,
/// in the order they were first set, with its value.
pub proof fn lemma_show_all_writes_each_header_once(hs: HeaderPairs)
    requires
        keys_distinct(hs),
    ensures
        render_keys(hs, header_keys(hs)) == render_all(hs),
{
    let ks = header_keys(hs);
    assert forall|n: int| 0 <= n <= hs.len() implies render_keys(hs, #[trigger] ks.take(n)) == render_all(hs.take(n)) by {
        lemma_render_prefix(hs, n);
    }
    assert(ks.take(hs.len() as int) =~= ks);
    assert(hs.take(hs.len() as int) =~= hs);
}

proof fn lemma_render_prefix(hs: HeaderPairs, n: int)
    requires
        keys_distinct(hs),
        0 <= n <= hs.len(),
    ensures
        render_keys(hs, header_keys(hs).take(n)) == render_all(hs.take(n)),
    decreases n,
{
    let ks = header_keys(hs);
    if n > 0 {
        lemma_render_prefix(hs, n - 1);
        assert(ks.take(n).drop_last() =~= ks.take(n - 1));
        assert(hs.take(n).drop_last() =~= hs.take(n - 1));
        assert(ks.take(n).last() == hs[n - 1].0);
        lemma_lookup_found(hs, hs[n - 1].0, n - 1);
    } else {
        assert(ks.take(0) =~= Seq::<Seq<char>>::empty());
        assert(hs.take(0) =~= HeaderPairs::empty());
    }
}

/// The position of header `key`, if it is set.
fn find_header(hs: &Vec<(String, String)>, key: &str) -> (res: Option<usize>)
    ensures
        match res {
            Some(i) => i < hs@.len() && pair_views(hs@)[i as int].0 == key@
                && forall|j: int| 0 <= j < i ==> pair_views(hs@)[j].0 != key@,
            None => forall|j: int| 0 <= j < hs@.len() ==> pair_views(hs@)[j].0 != key@,
        },
{
    let mut i: usize = 0;
    while i < hs.len()
        invariant
            i <= hs@.len(),
            forall|j: int| 0 <= j < i ==> pair_views(hs@)[j].0 != key@,
        decreases hs@.len() - i,
    {
        if str_eq(hs[i].0.as_str(), key) {
            return Some(i);
        }
        i += 1;
    }
    None
}

impl Default for TplBuilder {
    fn default() -> (res: Self)
        ensures
            res@.headers == HeaderPairs::empty(),
            res@.text_plain == Seq::<char>::empty(),
    {
        let b = TplBuilder { headers: Vec::new(), text_plain: String::new() };
        assert(b@.headers =~= HeaderPairs::empty());
        b
    }
}

impl TplBuilder {
    /// Sets header `key` to `value` (replacing its value where it is already set).
    pub fn header(self, key: &str, value: &str) -> (res: Self)
        ensures
            res@.headers == set_header(self@.headers, key@, value@),
            res@.text_plain == self@.text_plain,
    {
        let mut b = self;
        let ghost before = pair_views(b.headers@);
        let pair = (key.to_owned(), value.to_owned());
        match find_header(&b.headers, key) {
            Some(i) => {
                b.headers.set(i, pair);
                proof {
                    lemma_set_header_found(before, key@, value@, i as int);
                    assert(pair_views(b.headers@) =~= before.update(i as int, (key@, value@)));
                }
            },
            None => {
                b.headers.push(pair);
                proof {
                    lemma_set_header_absent(before, key@, value@);
                    assert(pair_views(b.headers@) =~= before.push((key@, value@)));
                }
            },
        }
        b
    }

    /// Sets the `From` header.
    pub fn from(self, value: &str) -> (res: Self)
        ensures
            res@.headers == set_header(self@.headers, "From"@, value@),
            res@.text_plain == self@.text_plain,
    {
        self.header("From", value)
    }

    /// Sets the `To` header.
    pub fn to(self, value: &str) -> (res: Self)
        ensures
            res@.headers == set_header(self@.headers, "To"@, value@),
            res@.text_plain == self@.text_plain,
    {
        self.header("To", value)
    }

    /// Sets the `Cc` header.
    pub fn cc(self, value: &str) -> (res: Self)
        ensures
            res@.headers == set_header(self@.headers, "Cc"@, value@),
            res@.text_plain == self@.text_plain,
    {
        self.header("Cc", value)
    }

    /// Sets the `In-Reply-To` header.
    pub fn in_reply_to(self, value: &str) -> (res: Self)
        ensures
            res@.headers == set_header(self@.headers, "In-Reply-To"@, value@),
            res@.text_plain == self@.text_plain,
    {
        self.header("In-Reply-To", value)
    }

    /// Sets the `Subject` header.
    pub fn subject(self, value: &str) -> (res: Self)
        ensures
            res@.headers == set_header(self@.headers, "Subject"@, value@),
            res@.text_plain == self@.text_plain,
    {
        self.header("Subject", value)
    }

    /// Appends text to the plain-text body.
    pub fn text_plain_part(self, part: &str) -> (res: Self)
        ensures
            res@.headers == self@.headers,
            res@.text_plain == self@.text_plain + part@,
    {
        let mut b = self;
        b.text_plain.append(part);
        b
    }

    /// The names of the headers set, in the order they were first set.
    pub fn headers_order(&self) -> (res: Vec<String>)
        ensures
            res@.map_values(|s: String| s@) == header_keys(self@.headers),
    {
        let mut out: Vec<String> = Vec::new();
        let mut i: usize = 0;
        while i < self.headers.len()
            invariant
                i <= self.headers@.len(),
                out@.map_values(|s: String| s@) == header_keys(self@.headers).take(i as int),
            decreases self.headers@.len() - i,
        {
            let ghost prev = out@;
            let k = self.headers[i].0.clone();
            out.push(k);
            assert(out@.map_values(|s: String| s@) =~= prev.map_values(|s: String| s@).push(k@));
            assert(header_keys(self@.headers).take(i + 1) =~= header_keys(self@.headers).take(i as int).push(k@));
            i += 1;
        }
        assert(header_keys(self@.headers).take(self.headers@.len() as int) =~= header_keys(self@.headers));
        out
    }

    /// Writes the lines of the headers named in `keys` that are set.
    fn render(&self, keys: &Vec<String>) -> (res: String)
        ensures
            res@ == render_keys(self@.headers, keys@.map_values(|s: String| s@)),
    {
        let ghost ks = keys@.map_values(|s: String| s@);
        let mut out = String::new();
        let mut i: usize = 0;
        while i < keys.len()
            invariant
                i <= keys@.len(),
                ks == keys@.map_values(|s: String| s@),
                out@ == render_keys(self@.headers, ks.take(i as int)),
            decreases keys@.len() - i,
        {
            let key = keys[i].as_str();
            proof {
                assert(ks.take(i + 1).drop_last() =~= ks.take(i as int));
                assert(ks.take(i + 1).last() == key@);
            }
            match find_header(&self.headers, key) {
                Some(j) => {
                    proof { lemma_lookup_found(self@.headers, key@, j as int); }
                    out.append(key);
                    out.append(": ");
                    out.append(self.headers[j].1.as_str());
                    out.append("\n");
                },
                None => {
                    proof { lemma_lookup_absent(self@.headers, key@); }
                    assert(out@ + Seq::<char>::empty() =~= out@);
                },
            }
            i += 1;
        }
        assert(ks.take(keys@.len() as int) =~= ks);
        out
    }

    /// Builds the template: the shown header lines, a blank line after them when
    /// there are any, then the plain-text body.
    pub fn build(&self, opts: TplBuilderOpts) -> (res: Tpl)
        ensures
            res@ == build_text(self@, opts@),
    {
        let keys = match opts.show_headers {
            Some(ShowHeaders::Only(keys)) => keys,
            _ => self.headers_order(),
        };
        let mut text = self.render(&keys);
        if text.as_str().unicode_len() > 0 {
            text.append("\n");
        }
        text.append(self.text_plain.as_str());
        Tpl(text)
    }
}

} // verus!

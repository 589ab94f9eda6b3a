//! A message, parsed on first use, and the templates made from it: to read it,
//! to reply to it and to forward it.

use vstd::prelude::*;
use vstd::slice::slice_to_vec;
use vstd::string::StringSliceAdditionalSpecFns;
use crate::address::{Mailbox, MailboxView, mailboxes_parse, mailbox_views, mailbox_display,
    mailboxes_display, address_valid, parse_mailboxes, display_mailboxes};
use crate::config::{AccountConfig, AccountConfigView, ConfigError, reading_headers,
    signature_block, sender_mailbox};
use crate::mail::{MailHeader, MailPart, ParsedEmail, ParsedEmailView, PartView, HeaderView,
    header_views, mail_parse, parse_mail_parts, root_headers, first_header,
    without_headers, lemma_first_header_without, lemma_all_values_without,
    lemma_first_header_matches, lemma_first_header_same_name, lemma_eq_ignore_case_equiv,
    first_value, all_values, get_first_header, get_first_value, get_all_values, opt_string_view};
use crate::parts::{Attachment, plain_bodies, is_text_plain, sanitized, attachment_parts,
    plain_texts, lemma_plain_bodies_by_texts,
    sanitize_text_plain_part, concat_text_plain_bodies, text_parts_of, attachments_of};
use crate::text::{join, lines_of, has_prefix, string_views, str_eq, lines, append_chars,
    eq_ignore_case, lower_code,
    join_strings, char_views};
use crate::tpl::{Tpl, TplBuilder, TplBuilderView, TplBuilderOpts, ShowHeaders, ShowHeadersView,
    HeaderPairs, set_header, build_text, header_keys, header_line, lookup_header, keys_distinct,
    lemma_set_header_then_lookup, lemma_set_header_keeps_others, lemma_set_header_keeps_names_distinct};

verus! {

#[verifier::external_type_specification]
#[verifier::external_body]
pub struct ExIoError(std::io::Error);

#[verifier::external_type_specification]
#[verifier::external_body]
pub struct ExPathBuf(std::path::PathBuf);

/// The text of an error that `mailparse` reported.
#[derive(Debug)]
pub struct MailError {
    pub message: String,
}

/// The errors of reading a message and of making templates from it.
#[derive(Debug)]
pub enum EmailError {
    /// The message cannot be parsed, or one of its plain-text bodies cannot be decoded.
    ParseEmailError(MailError),
    /// A plain-text body cannot be decoded.
    ParseEmailBodyError(MailError),
    /// The message is empty.
    ParseEmailEmptyRawError,
    /// An address list cannot be parsed.
    ParseEmailAddressError(lettre::address::AddressError),
    /// A local draft cannot be deleted.
    DeleteLocalDraftError(std::io::Error, std::path::PathBuf),
    /// The account settings are not valid.
    ConfigError(ConfigError),
    /// The content type of a multipart part cannot be found.
    GetMultipartContentTypeError,
    /// The encrypted part of a multipart part cannot be found.
    GetEncryptedPartMultipartError,
    /// The encrypted part cannot be parsed.
    ParseEncryptedPartError(MailError),
    /// The body of the encrypted part cannot be read.
    GetEncryptedPartBodyError(MailError),
    /// The encrypted part cannot be written to a temporary file.
    WriteEncryptedPartBodyError(std::io::Error),
    /// The encrypted part cannot be decrypted.
    DecryptPartError(ConfigError),
}

/// What went wrong in making a template, as the contracts speak of it.
pub enum TplFailure {
    /// The message cannot be parsed (or, when reading it, a body cannot be decoded).
    Parse(Seq<char>),
    /// A plain-text body cannot be decoded.
    Body(Seq<char>),
    /// An address list cannot be parsed.
    Address,
    /// The account's address is not valid.
    Config,
}

/// `e` is the error that `f` describes.
pub open spec fn error_is(e: EmailError, f: TplFailure) -> bool {
    match f {
        TplFailure::Parse(m) => e matches EmailError::ParseEmailError(x) && x.message@ == m,
        TplFailure::Body(m) => e matches EmailError::ParseEmailBodyError(x) && x.message@ == m,
        TplFailure::Address => e is ParseEmailAddressError,
        TplFailure::Config => e is ConfigError,
    }
}

/// `res` is the template text or the failure that `spec` gives.
pub open spec fn tpl_result_is(res: Result<Tpl, EmailError>, spec: Result<Seq<char>, TplFailure>) -> bool {
    match spec {
        Ok(t) => res matches Ok(tpl) && tpl@ == t,
        Err(f) => res matches Err(e) && error_is(e, f),
    }
}

/// The raw bytes of a message: owned or borrowed.
#[derive(Debug)]
pub enum RawEmail<'a> {
    Vec(Vec<u8>),
    Bytes(&'a [u8]),
}

pub open spec fn raw_view(r: RawEmail<'_>) -> Seq<u8> {
    match r {
        RawEmail::Vec(v) => v@,
        RawEmail::Bytes(b) => b@,
    }
}

/// A message: its raw bytes and, once it has been parsed, the parsed message.
#[derive(Debug)]
pub struct Email<'a> {
    raw: RawEmail<'a>,
    parsed: Option<ParsedEmail>,
}

pub struct EmailView {
    pub raw: Seq<u8>,
    pub parsed: Option<ParsedEmailView>,
}

pub open spec fn parsed_view(p: Option<ParsedEmail>) -> Option<ParsedEmailView> {
    match p {
        Some(p) => Some(p@),
        None => None,
    }
}

impl<'a> View for Email<'a> {
    type V = EmailView;

    closed spec fn view(&self) -> EmailView {
        EmailView { raw: raw_view(self.raw), parsed: parsed_view(self.parsed) }
    }
}

/// The parsed message: the one kept from an earlier parse, else what `mailparse`
/// reads from the raw bytes (or the text of its error).
pub open spec fn parse_of(e: EmailView) -> Result<ParsedEmailView, Seq<char>> {
    match e.parsed {
        Some(p) => Ok(p),
        None => match mail_parse(e.raw) {
            Ok(parts) => Ok(ParsedEmailView { parts, raw: e.raw }),
            Err(m) => Err(m),
        },
    }
}

/// The message after a parse: the parsed message kept where parsing succeeds,
/// else unchanged.
pub open spec fn after_parse(e: EmailView) -> EmailView {
    match parse_of(e) {
        Ok(p) => EmailView { raw: e.raw, parsed: Some(p) },
        Err(_) => e,
    }
}

// ---------------------------------------------------------------- reading

/// The headers a read template holds: every header of the message
/// (`ShowHeaders::All`), or the first header of each name asked for (by the
/// options, else by the account), in that order.
pub open spec fn read_headers(mail: Seq<HeaderView>, c: AccountConfigView, opts: Option<ShowHeadersView>) -> HeaderPairs {
    match opts {
        Some(ShowHeadersView::All) => set_all(HeaderPairs::empty(), mail),
        Some(ShowHeadersView::Only(names)) => set_named(HeaderPairs::empty(), mail, names),
        None => set_named(HeaderPairs::empty(), mail, reading_headers(c)),
    }
}

/// `hs` with each header of `mail` set in turn.
pub open spec fn set_all(hs: HeaderPairs, mail: Seq<HeaderView>) -> HeaderPairs
    decreases mail.len(),
{
    if mail.len() == 0 {
        hs
    } else {
        set_header(set_all(hs, mail.drop_last()), mail.last().key, mail.last().value)
    }
}

/// `hs` with, for each name in `names`, the first header of `mail` of that name
/// (ASCII case ignored) set in turn, under the name the message gives it.
pub open spec fn set_named(hs: HeaderPairs, mail: Seq<HeaderView>, names: Seq<Seq<char>>) -> HeaderPairs
    decreases names.len(),
{
    if names.len() == 0 {
        hs
    } else {
        let prev = set_named(hs, mail, names.drop_last());
        match first_header(mail, names.last()) {
            Some(h) => set_header(prev, h.key, h.value),
            None => prev,
        }
    }
}

/// The read template of a parsed message: the chosen headers, then the bodies of
/// its `text/plain` parts; or the error of the first such body that cannot be decoded.
pub open spec fn read_tpl_text(p: ParsedEmailView, c: AccountConfigView, opts: Option<ShowHeadersView>) -> Result<Seq<char>, TplFailure> {
    let hs = read_headers(root_headers(p), c, opts);
    match plain_bodies(p.parts) {
        Err(m) => Err(TplFailure::Parse(m)),
        Ok(body) => Ok(build_text(
            TplBuilderView { headers: hs, text_plain: body },
            Some(ShowHeadersView::Only(header_keys(hs))),
        )),
    }
}

fn root_header_list(p: &ParsedEmail) -> (res: &Vec<MailHeader>)
    requires
        p@.parts.len() > 0,
    ensures
        header_views(res@) == root_headers(p@),
{
    &p.parts[0].headers
}

fn builder_set_all(b: TplBuilder, mail: &Vec<MailHeader>) -> (res: TplBuilder)
    ensures
        res@.headers == set_all(b@.headers, header_views(mail@)),
        res@.text_plain == b@.text_plain,
{
    let ghost start = b@.headers;
    let ghost text = b@.text_plain;
    let ghost ms = header_views(mail@);
    let mut b = b;
    let mut i: usize = 0;
    while i < mail.len()
        invariant
            i <= mail@.len(),
            ms == header_views(mail@),
            b@.headers == set_all(start, ms.take(i as int)),
            b@.text_plain == text,
        decreases mail@.len() - i,
    {
        proof {
            assert(ms.take(i + 1).drop_last() =~= ms.take(i as int));
            assert(ms.take(i + 1).last() == mail@[i as int]@);
        }
        b = b.header(mail[i].key.as_str(), mail[i].value.as_str());
        i += 1;
    }
    assert(ms.take(mail@.len() as int) =~= ms);
    b
}

fn builder_set_named(b: TplBuilder, mail: &Vec<MailHeader>, names: &Vec<String>) -> (res: TplBuilder)
    ensures
        res@.headers == set_named(b@.headers, header_views(mail@), string_views(names@)),
        res@.text_plain == b@.text_plain,
{
    let ghost start = b@.headers;
    let ghost text = b@.text_plain;
    let ghost ns = string_views(names@);
    let mut b = b;
    let mut i: usize = 0;
    while i < names.len()
        invariant
            i <= names@.len(),
            ns == string_views(names@),
            b@.headers == set_named(start, header_views(mail@), ns.take(i as int)),
            b@.text_plain == text,
        decreases names@.len() - i,
    {
        proof {
            assert(ns.take(i + 1).drop_last() =~= ns.take(i as int));
            assert(ns.take(i + 1).last() == names@[i as int]@);
        }
        match get_first_header(mail, names[i].as_str()) {
            Some(h) => {
                b = b.header(h.key.as_str(), h.value.as_str());
            },
            None => {},
        }
        i += 1;
    }
    assert(ns.take(names@.len() as int) =~= ns);
    b
}

/// Makes the read template of a parsed message.
pub fn read_tpl_of(parsed: &ParsedEmail, config: &AccountConfig, opts: TplBuilderOpts) -> (res: Result<Tpl, EmailError>)
    ensures
        tpl_result_is(res, read_tpl_text(parsed@, config@, opts@)),
{
    let empty: Vec<MailHeader> = Vec::new();
    let mail = if parsed.parts.len() > 0 { root_header_list(parsed) } else { &empty };
    assert(header_views(mail@) == root_headers(parsed@)) by {
        if parsed@.parts.len() == 0 {
            assert(header_views(mail@) =~= Seq::<HeaderView>::empty());
        }
    }
    let tpl = TplBuilder::default();
    let tpl = match opts.show_headers {
        Some(ShowHeaders::All) => builder_set_all(tpl, mail),
        Some(ShowHeaders::Only(names)) => builder_set_named(tpl, mail, &names),
        None => {
            let names = config.email_reading_headers();
            builder_set_named(tpl, mail, &names)
        },
    };
    let ghost hs = tpl@.headers;
    let order = tpl.headers_order();
    let opts = TplBuilderOpts { show_headers: Some(ShowHeaders::Only(order)) };
    match concat_text_plain_bodies(parsed) {
        Ok(body) => {
            let tpl = tpl.text_plain_part(body.as_str());
            assert(tpl@.text_plain =~= body@);
            Ok(tpl.build(opts))
        },
        Err(m) => Err(EmailError::ParseEmailError(MailError { message: m })),
    }
}

// ---------------------------------------------------------------- replying

/// The mailboxes of the address lists `values`, read in order, without those of
/// address `sender`; `None` where a list cannot be parsed.
pub open spec fn recipients(values: Seq<Seq<char>>, sender: Seq<char>) -> Option<Seq<MailboxView>>
    decreases values.len(),
{
    if values.len() == 0 {
        Some(Seq::empty())
    } else {
        match recipients(values.drop_last(), sender) {
            None => None,
            Some(acc) => match mailboxes_parse(values.last()) {
                None => None,
                Some(ms) => Some(acc + ms.filter(|m: MailboxView| m.email != sender)),
            },
        }
    }
}

/// The address lists a reply goes to: `Reply-To` (or `From` when there is none),
/// then `To`.
pub open spec fn reply_values(hs: Seq<HeaderView>) -> Seq<Seq<char>> {
    let reply_to = all_values(hs, "Reply-To"@);
    (if reply_to.len() == 0 {
        all_values(hs, "From"@)
    } else {
        reply_to
    }) + all_values(hs, "To"@)
}

/// A quoted line: `>`, a space unless the line is already quoted, the line, a line feed.
pub open spec fn quote_line(l: Seq<char>) -> Seq<char> {
    ">"@ + (if has_prefix(l, ">"@) { Seq::<char>::empty() } else { " "@ }) + l + "\n"@
}

/// The quoted lines, up to (not including) the first signature delimiter line `-- `.
pub open spec fn quote_lines(ls: Seq<Seq<char>>) -> Seq<char>
    decreases ls.len(),
{
    if ls.len() == 0 {
        Seq::empty()
    } else if ls[0] == "-- "@ {
        Seq::empty()
    } else {
        quote_line(ls[0]) + quote_lines(ls.drop_first())
    }
}

/// The quoted body of a reply: for each `text/plain` part, a blank line and its
/// lines quoted; or the error of the first such body that cannot be decoded.
pub open spec fn reply_body(parts: Seq<PartView>) -> Result<Seq<char>, Seq<char>>
    decreases parts.len(),
{
    if parts.len() == 0 {
        Ok(Seq::empty())
    } else {
        match reply_body(parts.drop_last()) {
            Err(m) => Err(m),
            Ok(acc) => if is_text_plain(parts.last()) {
                match parts.last().body {
                    Ok(b) => Ok(acc + "\n\n"@ + quote_lines(lines_of(sanitized(b)))),
                    Err(m) => Err(m),
                }
            } else {
                Ok(acc)
            },
        }
    }
}

/// The mailboxes a reply goes to (`To`): the recipients of `Reply-To` (or `From`)
/// and `To` but the account, all of them or (to the sender only) the first;
/// `None` where an address list cannot be parsed.
pub open spec fn reply_to_list(hs: Seq<HeaderView>, account: Seq<char>, all: bool) -> Option<Seq<MailboxView>> {
    match recipients(reply_values(hs), account) {
        Some(ms) => Some(reply_to_mailboxes(ms, all)),
        None => None,
    }
}

/// The mailboxes a reply copies (`Cc`): when replying to all, the `Cc` recipients
/// but the account (`None` where a list cannot be parsed); else none.
pub open spec fn reply_cc_list(hs: Seq<HeaderView>, account: Seq<char>, all: bool) -> Option<Seq<MailboxView>> {
    if all {
        recipients(all_values(hs, "Cc"@), account)
    } else {
        Some(Seq::empty())
    }
}

/// The headers of a reply, in order: `From` the account, `To` the mailboxes `to`,
/// `In-Reply-To` the message's `Message-Id`, `Cc` the mailboxes `cc` (when
/// replying to all), `Subject` `Re: ` and the message's subject.
pub open spec fn reply_head(
    hs: Seq<HeaderView>,
    c: AccountConfigView,
    all: bool,
    to: Seq<MailboxView>,
    cc: Seq<MailboxView>,
) -> HeaderPairs {
    let h1 = set_header(
        set_header(HeaderPairs::empty(), "From"@, mailbox_display(sender_mailbox(c))),
        "To"@,
        mailboxes_display(to),
    );
    let h2 = match first_value(hs, "Message-Id"@) {
        Some(id) => set_header(h1, "In-Reply-To"@, id),
        None => h1,
    };
    let h3 = if all { set_header(h2, "Cc"@, mailboxes_display(cc)) } else { h2 };
    match first_value(hs, "Subject"@) {
        Some(s) => set_header(h3, "Subject"@, "Re: "@ + s),
        None => h3,
    }
}

/// The body of a reply: the quoted plain text, then the account's signature.
pub open spec fn reply_text(quoted: Seq<char>, c: AccountConfigView) -> Seq<char> {
    quoted + match signature_block(c) {
        Some(sig) => "\n"@ + sig,
        None => Seq::<char>::empty(),
    }
}

/// The reply template of a parsed message, to its sender only (`all` false) or to
/// all its recipients: the headers of `reply_head`, then its quoted plain text and
/// the account's signature. An invalid account address, an address list that
/// cannot be parsed (`To` lists first) and a body that cannot be decoded are errors,
/// in that order.
pub open spec fn reply_tpl_text(p: ParsedEmailView, c: AccountConfigView, all: bool) -> Result<Seq<char>, TplFailure> {
    let hs = root_headers(p);
    if !address_valid(c.email) {
        Err(TplFailure::Config)
    } else {
        match reply_to_list(hs, c.email, all) {
            None => Err(TplFailure::Address),
            Some(to) => match reply_cc_list(hs, c.email, all) {
                None => Err(TplFailure::Address),
                Some(cc) => match reply_body(p.parts) {
                    Err(m) => Err(TplFailure::Body(m)),
                    Ok(b) => Ok(build_text(
                        TplBuilderView { headers: reply_head(hs, c, all, to, cc), text_plain: reply_text(b, c) },
                        None,
                    )),
                },
            },
        }
    }
}

/// The mailboxes of the address lists `values`, read in order, without those of
/// address `sender`.
pub fn collect_recipients(values: &Vec<String>, sender: &str) -> (res: Result<Vec<Mailbox>, lettre::address::AddressError>)
    ensures
        match recipients(string_views(values@), sender@) {
            Some(ms) => res matches Ok(v) && mailbox_views(v@) == ms,
            None => res is Err,
        },
{
    let ghost vs = string_views(values@);
    let mut out: Vec<Mailbox> = Vec::new();
    let mut i: usize = 0;
    while i < values.len()
        invariant
            i <= values@.len(),
            vs == string_views(values@),
            recipients(vs.take(i as int), sender@) == Some(mailbox_views(out@)),
        decreases values@.len() - i,
    {
        proof {
            assert(vs.take(i + 1).drop_last() =~= vs.take(i as int));
            assert(vs.take(i + 1).last() == values@[i as int]@);
        }
        match parse_mailboxes(values[i].as_str()) {
            Ok(ms) => {
                let ghost acc = mailbox_views(out@);
                let ghost parsed = mailbox_views(ms@);
                let ghost sel = |m: MailboxView| m.email != sender@;
                let mut j: usize = 0;
                while j < ms.len()
                    invariant
                        j <= ms@.len(),
                        parsed == mailbox_views(ms@),
                        sel == (|m: MailboxView| m.email != sender@),
                        mailbox_views(out@) == acc + parsed.take(j as int).filter(sel),
                    decreases ms@.len() - j,
                {
                    proof {
                        reveal(Seq::filter);
                        assert(parsed.take(j + 1).drop_last() =~= parsed.take(j as int));
                        assert(parsed.take(j + 1).last() == ms@[j as int]@);
                    }
                    let ghost prev = out@;
                    if !str_eq(ms[j].email.as_str(), sender) {
                        let m = ms[j].clone();
                        out.push(m);
                        assert(mailbox_views(out@) =~= mailbox_views(prev).push(m@));
                    }
                    j += 1;
                }
                assert(parsed.take(ms@.len() as int) =~= parsed);
            },
            Err(e) => {
                proof { lemma_recipients_none_prefix(vs, i as int + 1, sender@); }
                return Err(e);
            },
        }
        i += 1;
    }
    assert(vs.take(values@.len() as int) =~= vs);
    Ok(out)
}

/// Once the lists of a prefix cannot be read, the whole cannot.
pub proof fn lemma_recipients_none_prefix(vs: Seq<Seq<char>>, k: int, sender: Seq<char>)
    requires
        0 <= k <= vs.len(),
        recipients(vs.take(k), sender) is None,
    ensures
        recipients(vs, sender) is None,
    decreases vs.len() - k,
{
    if k < vs.len() {
        assert(vs.take(k + 1).drop_last() =~= vs.take(k));
        lemma_recipients_none_prefix(vs, k + 1, sender);
    } else {
        assert(vs.take(k) =~= vs);
    }
}

/// Whether a line is the signature delimiter line `-- `.
fn is_signature_delim(l: &Vec<char>) -> (res: bool)
    ensures
        res == (l@ == "-- "@),
{
    proof { reveal_strlit("-- "); }
    if l.len() == 3 && l[0] == '-' && l[1] == '-' && l[2] == ' ' {
        assert(l@ =~= "-- "@);
        true
    } else {
        false
    }
}

/// Appends the quoted lines of `body` to `out`, up to the signature delimiter.
fn quote_body(out: &mut String, body: &str)
    ensures
        final(out)@ == old(out)@ + quote_lines(lines_of(body@)),
{
    let ls = lines(body);
    let ghost lv = char_views(ls@);
    let mut i: usize = 0;
    assert(lv.skip(0) =~= lv);
    while i < ls.len()
        invariant
            i <= ls@.len(),
            lv == char_views(ls@),
            lv == lines_of(body@),
            old(out)@ + quote_lines(lv) == out@ + quote_lines(lv.skip(i as int)),
        decreases ls@.len() - i,
    {
        let l = &ls[i];
        proof {
            reveal_strlit(">");
            reveal_strlit(" ");
        }
        assert(lv.skip(i as int)[0] == l@);
        if is_signature_delim(l) {
            assert(out@ + quote_lines(lv.skip(i as int)) =~= out@);
            return;
        }
        let ghost before = out@;
        out.append(">");
        if !(l.len() > 0 && l[0] == '>') {
            out.append(" ");
            if l.len() > 0 {
                assert(l@.subrange(0, 1)[0] != ">"@[0]);
            }
            assert(!has_prefix(l@, ">"@));
        } else {
            assert(has_prefix(l@, ">"@)) by {
                assert(l@.subrange(0, 1) =~= ">"@);
            }
        }
        append_chars(out, l);
        out.append("\n");
        assert(out@ =~= before + quote_line(l@));
        assert(lv.skip(i as int).drop_first() =~= lv.skip(i + 1));
        i += 1;
    }
    assert(lv.skip(ls@.len() as int) =~= Seq::<Seq<char>>::empty());
    assert(out@ + quote_lines(lv.skip(ls@.len() as int)) =~= out@);
}

/// The quoted body of a reply to a parsed message.
fn reply_body_of(parsed: &ParsedEmail) -> (res: Result<String, String>)
    ensures
        match reply_body(parsed@.parts) {
            Ok(b) => res matches Ok(s) && s@ == b,
            Err(m) => res matches Err(e) && e@ == m,
        },
{
    let ghost ps = parsed@.parts;
    let mut out = String::new();
    let mut i: usize = 0;
    while i < parsed.parts.len()
        invariant
            i <= parsed.parts@.len(),
            ps == parsed@.parts,
            reply_body(ps.take(i as int)) == Ok::<Seq<char>, Seq<char>>(out@),
        decreases parsed.parts@.len() - i,
    {
        let part = &parsed.parts[i];
        proof {
            assert(ps.take(i + 1).drop_last() =~= ps.take(i as int));
            assert(ps.take(i + 1).last() == part@);
        }
        if str_eq(part.mimetype.as_str(), "text/plain") {
            match &part.body {
                Ok(b) => {
                    let body = sanitize_text_plain_part(b.as_str());
                    out.append("\n\n");
                    quote_body(&mut out, body.as_str());
                },
                Err(m) => {
                    proof { lemma_reply_body_err_prefix(ps, i as int + 1); }
                    return Err(m.clone());
                },
            }
        }
        i += 1;
    }
    assert(ps.take(parsed.parts@.len() as int) =~= ps);
    Ok(out)
}

/// Once a prefix of the parts fails, all the parts fail with the same error.
pub proof fn lemma_reply_body_err_prefix(ps: Seq<PartView>, k: int)
    requires
        0 <= k <= ps.len(),
        reply_body(ps.take(k)) is Err,
    ensures
        reply_body(ps) == reply_body(ps.take(k)),
    decreases ps.len() - k,
{
    if k < ps.len() {
        assert(ps.take(k + 1).drop_last() =~= ps.take(k));
        lemma_reply_body_err_prefix(ps, k + 1);
    } else {
        assert(ps.take(k) =~= ps);
    }
}

/// Makes the reply template of a parsed message.
pub fn reply_tpl_of(parsed: &ParsedEmail, config: &AccountConfig, all: bool) -> (res: Result<Tpl, EmailError>)
    ensures
        tpl_result_is(res, reply_tpl_text(parsed@, config@, all)),
{
    let empty: Vec<MailHeader> = Vec::new();
    let hs = if parsed.parts.len() > 0 { root_header_list(parsed) } else { &empty };
    assert(header_views(hs@) == root_headers(parsed@)) by {
        if parsed@.parts.len() == 0 {
            assert(header_views(hs@) =~= Seq::<HeaderView>::empty());
        }
    }
    let sender = match config.addr() {
        Ok(m) => m,
        Err(e) => return Err(EmailError::ConfigError(e)),
    };
    let ghost hv = header_views(hs@);
    let ghost sv = sender_mailbox(config@);
    let mut tpl = TplBuilder::default();
    let sender_text = sender.display();
    tpl = tpl.from(sender_text.as_str());
    assert(tpl@.headers == set_header(HeaderPairs::empty(), "From"@, mailbox_display(sv)));

    let reply_to = get_all_values(hs, "Reply-To");
    let mut values = if reply_to.len() == 0 { get_all_values(hs, "From") } else { reply_to };
    let mut to = get_all_values(hs, "To");
    let ghost first = string_views(values@);
    values.append(&mut to);
    assert(string_views(values@) =~= reply_values(header_views(hs@)));
    let all_mboxes = match collect_recipients(&values, sender.email.as_str()) {
        Ok(v) => v,
        Err(e) => return Err(EmailError::ParseEmailAddressError(e)),
    };
    let to_mboxes = if all {
        all_mboxes
    } else if all_mboxes.len() > 0 {
        let single = vec![all_mboxes[0].clone()];
        assert(mailbox_views(single@) =~= seq![mailbox_views(all_mboxes@)[0]]);
        single
    } else {
        let none: Vec<Mailbox> = Vec::new();
        assert(mailbox_views(none@) =~= Seq::<MailboxView>::empty());
        none
    };
    let ghost ms = recipients(reply_values(hv), sv.email)->Some_0;
    assert(mailbox_views(to_mboxes@) == (if all { ms } else if ms.len() > 0 { seq![ms[0]] } else { Seq::<MailboxView>::empty() }));
    let to_text = display_mailboxes(&to_mboxes);
    tpl = tpl.to(to_text.as_str());
    let ghost h1 = tpl@.headers;

    match get_first_value(hs, "Message-Id") {
        Some(id) => {
            tpl = tpl.in_reply_to(id.as_str());
        },
        None => {},
    }
    let ghost h2 = tpl@.headers;
    assert(h2 == match first_value(hv, "Message-Id"@) {
        Some(id) => set_header(h1, "In-Reply-To"@, id),
        None => h1,
    });

    if all {
        let cc_values = get_all_values(hs, "Cc");
        let cc = match collect_recipients(&cc_values, sender.email.as_str()) {
            Ok(v) => v,
            Err(e) => return Err(EmailError::ParseEmailAddressError(e)),
        };
        let cc_text = display_mailboxes(&cc);
        tpl = tpl.cc(cc_text.as_str());
    }
    let ghost h3 = tpl@.headers;

    match get_first_value(hs, "Subject") {
        Some(subject) => {
            let mut s = "Re: ".to_owned();
            s.append(subject.as_str());
            tpl = tpl.subject(s.as_str());
        },
        None => {},
    }

    let mut text = match reply_body_of(parsed) {
        Ok(b) => b,
        Err(m) => return Err(EmailError::ParseEmailBodyError(MailError { message: m })),
    };
    match config.signature() {
        Some(sig) => {
            text.append("\n");
            text.append(sig.as_str());
        },
        None => {},
    }
    let ghost h4 = tpl@.headers;
    assert(h4 == match first_value(hv, "Subject"@) {
        Some(s) => set_header(h3, "Subject"@, "Re: "@ + s),
        None => h3,
    });
    tpl = tpl.text_plain_part(text.as_str());
    assert(tpl@.text_plain =~= text@);
    assert(text@ == reply_body(parsed@.parts)->Ok_0 + match signature_block(config@) {
        Some(sig) => "\n"@ + sig,
        None => Seq::<char>::empty(),
    });
    let res = tpl.build(TplBuilderOpts::default());
    assert(res@ == build_text(TplBuilderView { headers: h4, text_plain: text@ }, None));
    Ok(res)
}

// ---------------------------------------------------------------- forwarding

/// The forward template of a parsed message: `From` the account, an empty `To`,
/// `Subject` `Fwd: ` and its subject, the account's signature, then a
/// "Forwarded Message" block with its subject, date, senders and recipients,
/// and the bodies of its `text/plain` parts.
pub open spec fn forward_tpl_text(p: ParsedEmailView, c: AccountConfigView) -> Result<Seq<char>, TplFailure> {
    let hs = root_headers(p);
    if !address_valid(c.email) {
        Err(TplFailure::Config)
    } else {
        match plain_bodies(p.parts) {
            Err(m) => Err(TplFailure::Body(m)),
            Ok(b) => Ok(forward_head(hs, c) + b),
        }
    }
}

/// The head of a forward template (everything before the forwarded bodies).
pub open spec fn forward_head(hs: Seq<HeaderView>, c: AccountConfigView) -> Seq<char> {
    let subject = match first_value(hs, "Subject"@) {
        Some(s) => s,
        None => Seq::<char>::empty(),
    };
    header_line("From"@, mailbox_display(sender_mailbox(c)))
        + header_line("To"@, Seq::<char>::empty())
        + header_line("Subject"@, "Fwd: "@ + subject)
        + match signature_block(c) {
            Some(sig) => "\n"@ + sig + "\n"@,
            None => Seq::<char>::empty(),
        }
        + "\n-------- Forwarded Message --------\n"@
        + header_line("Subject"@, subject)
        + match first_value(hs, "date"@) {
            Some(d) => header_line("Date: "@, d),
            None => Seq::<char>::empty(),
        }
        + header_line("From: "@, join(all_values(hs, "from"@), ", "@))
        + header_line("To: "@, join(all_values(hs, "to"@), ", "@))
        + "\n"@
}

/// Makes the forward template of a parsed message.
pub fn forward_tpl_of(parsed: &ParsedEmail, config: &AccountConfig) -> (res: Result<Tpl, EmailError>)
    ensures
        tpl_result_is(res, forward_tpl_text(parsed@, config@)),
{
    let empty: Vec<MailHeader> = Vec::new();
    let hs = if parsed.parts.len() > 0 { root_header_list(parsed) } else { &empty };
    assert(header_views(hs@) == root_headers(parsed@)) by {
        if parsed@.parts.len() == 0 {
            assert(header_views(hs@) =~= Seq::<HeaderView>::empty());
        }
    }
    let ghost hv = header_views(hs@);
    let mut tpl = Tpl::default();
    let sender = match config.addr() {
        Ok(m) => m,
        Err(e) => return Err(EmailError::ConfigError(e)),
    };
    let sender_text = sender.display();
    tpl.push_header("From", sender_text.as_str());
    tpl.push_header("To", "");
    proof { reveal_strlit(""); }
    let subject = match get_first_value(hs, "Subject") {
        Some(s) => s,
        None => String::new(),
    };
    let ghost sub = subject@;
    let mut fwd = "Fwd: ".to_owned();
    fwd.append(subject.as_str());
    tpl.push_header("Subject", fwd.as_str());
    let ghost t1 = tpl@;
    assert(sub == match first_value(hv, "Subject"@) { Some(s) => s, None => Seq::<char>::empty() });
    assert(t1 =~= header_line("From"@, mailbox_display(sender_mailbox(config@)))
        + header_line("To"@, Seq::<char>::empty())
        + header_line("Subject"@, "Fwd: "@ + sub));
    match config.signature() {
        Some(sig) => {
            tpl.push_str("\n");
            tpl.push_str(sig.as_str());
            tpl.push_str("\n");
        },
        None => {},
    }
    let ghost t2 = tpl@;
    assert(t2 =~= t1 + match signature_block(config@) {
        Some(sig) => "\n"@ + sig + "\n"@,
        None => Seq::<char>::empty(),
    });
    tpl.push_str("\n-------- Forwarded Message --------\n");
    tpl.push_header("Subject", subject.as_str());
    let ghost t3 = tpl@;
    assert(t3 =~= t2 + "\n-------- Forwarded Message --------\n"@ + header_line("Subject"@, sub));
    match get_first_value(hs, "date") {
        Some(date) => tpl.push_header("Date: ", date.as_str()),
        None => {},
    }
    let ghost t4 = tpl@;
    assert(t4 =~= t3 + match first_value(hv, "date"@) {
        Some(d) => header_line("Date: "@, d),
        None => Seq::<char>::empty(),
    });
    let from = join_strings(&get_all_values(hs, "from"), ", ");
    tpl.push_header("From: ", from.as_str());
    let to = join_strings(&get_all_values(hs, "to"), ", ");
    tpl.push_header("To: ", to.as_str());
    tpl.push_str("\n");
    assert(tpl@ =~= forward_head(hv, config@));
    match concat_text_plain_bodies(parsed) {
        Ok(b) => {
            tpl.push_str(b.as_str());
            Ok(tpl)
        },
        Err(m) => Err(EmailError::ParseEmailBodyError(MailError { message: m })),
    }
}


// ---------------------------------------------------------------- laws

/// A message is parsed once: after a parse, the kept message is what every
/// later parse gives, and keeping it again changes nothing.
pub proof fn lemma_parse_is_kept(e: EmailView)
    requires
        parse_of(e) is Ok,
    ensures
        parse_of(EmailView { raw: e.raw, parsed: Some(parse_of(e)->Ok_0) }) == parse_of(e),
{
}

/// When the options name the headers to show, the account's reading headers do
/// not matter.
pub proof fn lemma_read_options_override_config(
    p: ParsedEmailView,
    c1: AccountConfigView,
    c2: AccountConfigView,
    opts: ShowHeadersView,
)
    ensures
        read_tpl_text(p, c1, Some(opts)) == read_tpl_text(p, c2, Some(opts)),
{
}

/// When no header is to be shown (the account names none and no option is given),
/// the read template is the plain-text bodies alone.
pub proof fn lemma_read_without_headers_is_body(p: ParsedEmailView, c: AccountConfigView)
    requires
        reading_headers(c).len() == 0,
    ensures
        read_tpl_text(p, c, None) == match plain_bodies(p.parts) {
            Ok(b) => Ok::<Seq<char>, TplFailure>(b),
            Err(m) => Err::<Seq<char>, TplFailure>(TplFailure::Parse(m)),
        },
{
    let hs = read_headers(root_headers(p), c, None);
    assert(hs =~= HeaderPairs::empty());
    assert(header_keys(hs) =~= Seq::<Seq<char>>::empty());
}

/// `hs` shows the headers asked for by `names`: for each name that the message has,
/// its first header with its value, and no header but those.
pub open spec fn shows_named_headers(hs: HeaderPairs, mail: Seq<HeaderView>, names: Seq<Seq<char>>) -> bool {
    &&& forall|i: int| 0 <= i < names.len() ==> match #[trigger] first_header(mail, names[i]) {
        Some(h) => lookup_header(hs, h.key) == Some(h.value),
        None => true,
    }
    &&& forall|k: Seq<char>| #[trigger] header_keys(hs).contains(k) ==> exists|i: int|
        0 <= i < names.len() && (#[trigger] first_header(mail, names[i]) matches Some(h) && h.key == k)
}

proof fn lemma_set_named_shows(mail: Seq<HeaderView>, names: Seq<Seq<char>>)
    ensures
        keys_distinct(set_named(HeaderPairs::empty(), mail, names)),
        shows_named_headers(set_named(HeaderPairs::empty(), mail, names), mail, names),
    decreases names.len(),
{
    let r = set_named(HeaderPairs::empty(), mail, names);
    if names.len() == 0 {
        assert(header_keys(r) =~= Seq::<Seq<char>>::empty());
    } else {
        let init = names.drop_last();
        let last = names.last();
        let prev = set_named(HeaderPairs::empty(), mail, init);
        lemma_set_named_shows(mail, init);
        assert forall|i: int| 0 <= i < init.len() implies names[i] == init[i] by {}
        match first_header(mail, last) {
            None => {
                assert(r == prev);
                assert forall|i: int| 0 <= i < names.len() implies match #[trigger] first_header(mail, names[i]) {
                    Some(h) => lookup_header(r, h.key) == Some(h.value),
                    None => true,
                } by {
                    if i < init.len() {
                        assert(first_header(mail, init[i]) == first_header(mail, names[i]));
                    }
                }
                assert forall|k: Seq<char>| #[trigger] header_keys(r).contains(k) implies exists|i: int|
                    0 <= i < names.len() && (#[trigger] first_header(mail, names[i]) matches Some(h) && h.key == k) by {
                    let i = choose|i: int| 0 <= i < init.len() && (#[trigger] first_header(mail, init[i]) matches Some(h) && h.key == k);
                    assert(first_header(mail, names[i]) == first_header(mail, init[i]));
                }
            },
            Some(h2) => {
                assert(r == set_header(prev, h2.key, h2.value));
                lemma_set_header_keeps_names_distinct(prev, h2.key, h2.value);
                lemma_set_header_then_lookup(prev, h2.key, h2.value);
                lemma_first_header_matches(mail, last);
                assert forall|i: int| 0 <= i < names.len() implies match #[trigger] first_header(mail, names[i]) {
                    Some(h) => lookup_header(r, h.key) == Some(h.value),
                    None => true,
                } by {
                    if i < init.len() {
                        assert(first_header(mail, init[i]) == first_header(mail, names[i]));
                        if let Some(h) = first_header(mail, names[i]) {
                            if h.key == h2.key {
                                lemma_first_header_matches(mail, names[i]);
                                lemma_eq_ignore_case_equiv(h.key, names[i], last);
                                lemma_eq_ignore_case_equiv(names[i], h.key, last);
                                lemma_first_header_same_name(mail, names[i], last);
                            } else {
                                lemma_set_header_keeps_others(prev, h2.key, h2.value, h.key);
                            }
                        }
                    } else {
                        assert(names[i] == last);
                    }
                }
                assert forall|k: Seq<char>| #[trigger] header_keys(r).contains(k) implies exists|i: int|
                    0 <= i < names.len() && (#[trigger] first_header(mail, names[i]) matches Some(h) && h.key == k) by {
                    if k == h2.key {
                        let i = names.len() - 1;
                        assert(first_header(mail, names[i]) == Some(h2));
                    } else {
                        assert(header_keys(prev).contains(k));
                        let i = choose|i: int| 0 <= i < init.len() && (#[trigger] first_header(mail, init[i]) matches Some(h) && h.key == k);
                        assert(first_header(mail, names[i]) == first_header(mail, init[i]));
                    }
                }
            },
        }
    }
}

/// A read template shows each header asked for (by the options, else by the
/// account) that the message has, with the value of its first such header, and no
/// other header: a name the message lacks is skipped, the others are still shown.
pub proof fn lemma_read_shows_each_named_header(mail: Seq<HeaderView>, c: AccountConfigView, opts: Option<ShowHeadersView>)
    ensures
        match opts {
            Some(ShowHeadersView::All) => true,
            Some(ShowHeadersView::Only(names)) => shows_named_headers(read_headers(mail, c, opts), mail, names),
            None => shows_named_headers(read_headers(mail, c, opts), mail, reading_headers(c)),
        },
{
    match opts {
        Some(ShowHeadersView::All) => {},
        Some(ShowHeadersView::Only(names)) => lemma_set_named_shows(mail, names),
        None => lemma_set_named_shows(mail, reading_headers(c)),
    }
}

/// A reply never goes to the account's own address.
pub proof fn lemma_recipients_exclude_sender(values: Seq<Seq<char>>, sender: Seq<char>)
    ensures
        recipients(values, sender) matches Some(ms) ==> forall|i: int| 0 <= i < ms.len() ==> #[trigger] ms[i].email != sender,
    decreases values.len(),
{
    if values.len() > 0 {
        lemma_recipients_exclude_sender(values.drop_last(), sender);
        if let Some(acc) = recipients(values.drop_last(), sender) {
            if let Some(ms) = mailboxes_parse(values.last()) {
                let f = |m: MailboxView| m.email != sender;
                let kept = ms.filter(f);
                assert forall|i: int| 0 <= i < kept.len() implies #[trigger] kept[i].email != sender by {
                    ms.lemma_filter_pred(f, i);
                }
                let all = acc + kept;
                assert forall|i: int| 0 <= i < all.len() implies #[trigger] all[i].email != sender by {
                    if i >= acc.len() {
                        assert(all[i] == kept[i - acc.len()]);
                    }
                }
            }
        }
    }
}

/// The mailboxes a reply goes to: all the recipients, or (to the sender only) the
/// first of them.
pub open spec fn reply_to_mailboxes(ms: Seq<MailboxView>, all: bool) -> Seq<MailboxView> {
    if all {
        ms
    } else if ms.len() > 0 {
        seq![ms[0]]
    } else {
        Seq::empty()
    }
}

/// A reply to the sender only goes to at most one mailbox, the first recipient;
/// a reply to all goes to every recipient.
pub proof fn lemma_reply_to_sender_only(ms: Seq<MailboxView>, all: bool)
    ensures
        !all ==> reply_to_mailboxes(ms, all).len() <= 1,
        !all && ms.len() > 0 ==> reply_to_mailboxes(ms, all)[0] == ms[0],
        all ==> reply_to_mailboxes(ms, all) == ms,
{
}

/// A reply made from a message never goes to, nor copies, the account's own
/// address: every mailbox of its `To` header and of its `Cc` header is another
/// address. The `To` header holds the `To` mailboxes, and the reply has a `Cc`
/// header (holding the `Cc` mailboxes) exactly when it goes to all recipients.
pub proof fn lemma_reply_leaves_out_account(p: ParsedEmailView, c: AccountConfigView, all: bool)
    requires
        reply_tpl_text(p, c, all) is Ok,
    ensures
        reply_to_list(root_headers(p), c.email, all) matches Some(to)
            && reply_cc_list(root_headers(p), c.email, all) matches Some(cc)
            && {
            let head = reply_head(root_headers(p), c, all, to, cc);
            &&& forall|i: int| 0 <= i < to.len() ==> #[trigger] to[i].email != c.email
            &&& forall|i: int| 0 <= i < cc.len() ==> #[trigger] cc[i].email != c.email
            &&& lookup_header(head, "To"@) == Some(mailboxes_display(to))
            &&& all ==> lookup_header(head, "Cc"@) == Some(mailboxes_display(cc))
            &&& header_keys(head).contains("Cc"@) <==> all
        },
{
    reveal_strlit("From");
    reveal_strlit("To");
    reveal_strlit("Cc");
    reveal_strlit("In-Reply-To");
    reveal_strlit("Subject");
    let hs = root_headers(p);
    let ms = recipients(reply_values(hs), c.email)->Some_0;
    lemma_recipients_exclude_sender(reply_values(hs), c.email);
    let to = reply_to_mailboxes(ms, all);
    assert forall|i: int| 0 <= i < to.len() implies #[trigger] to[i].email != c.email by {
        if !all {
            assert(to[i] == ms[0]);
        }
    }
    let cc = reply_cc_list(hs, c.email, all)->Some_0;
    if all {
        lemma_recipients_exclude_sender(all_values(hs, "Cc"@), c.email);
    }
    let from_d = mailbox_display(sender_mailbox(c));
    let to_d = mailboxes_display(to);
    let cc_d = mailboxes_display(cc);
    let h0 = set_header(HeaderPairs::empty(), "From"@, from_d);
    let h1 = set_header(h0, "To"@, to_d);
    let h2 = match first_value(hs, "Message-Id"@) {
        Some(id) => set_header(h1, "In-Reply-To"@, id),
        None => h1,
    };
    let h3 = if all { set_header(h2, "Cc"@, cc_d) } else { h2 };
    let h4 = match first_value(hs, "Subject"@) {
        Some(sub) => set_header(h3, "Subject"@, "Re: "@ + sub),
        None => h3,
    };
    assert(h4 == reply_head(hs, c, all, to, cc));
    // names stay distinct, and the names set are known at each step
    assert(keys_distinct(HeaderPairs::empty()));
    assert(!header_keys(HeaderPairs::empty()).contains("Cc"@));
    lemma_set_header_keeps_names_distinct(HeaderPairs::empty(), "From"@, from_d);
    assert("Cc"@ != "From"@ && "Cc"@ != "To"@ && "Cc"@ != "In-Reply-To"@ && "Cc"@ != "Subject"@) by {
        assert("Cc"@[0] != "From"@[0] && "Cc"@[0] != "To"@[0]);
    }
    assert(!header_keys(h0).contains("Cc"@));
    lemma_set_header_keeps_names_distinct(h0, "To"@, to_d);
    lemma_set_header_then_lookup(h0, "To"@, to_d);
    assert(!header_keys(h1).contains("Cc"@));
    match first_value(hs, "Message-Id"@) {
        Some(id) => {
            lemma_set_header_keeps_names_distinct(h1, "In-Reply-To"@, id);
            lemma_set_header_keeps_others(h1, "In-Reply-To"@, id, "To"@);
        },
        None => {},
    }
    assert(keys_distinct(h2));
    assert(!header_keys(h2).contains("Cc"@));
    assert(lookup_header(h2, "To"@) == Some(to_d));
    if all {
        lemma_set_header_keeps_names_distinct(h2, "Cc"@, cc_d);
        lemma_set_header_keeps_others(h2, "Cc"@, cc_d, "To"@);
        lemma_set_header_then_lookup(h2, "Cc"@, cc_d);
    }
    assert(keys_distinct(h3));
    assert(header_keys(h3).contains("Cc"@) <==> all);
    assert(lookup_header(h3, "To"@) == Some(to_d));
    match first_value(hs, "Subject"@) {
        Some(sub) => {
            lemma_set_header_keeps_names_distinct(h3, "Subject"@, "Re: "@ + sub);
            lemma_set_header_keeps_others(h3, "Subject"@, "Re: "@ + sub, "To"@);
            lemma_set_header_keeps_others(h3, "Subject"@, "Re: "@ + sub, "Cc"@);
        },
        None => {},
    }
}

/// The quoted bodies `bs` one after the other, each after a blank line, or the
/// first error among them.
pub open spec fn quote_results(bs: Seq<Result<Seq<char>, Seq<char>>>) -> Result<Seq<char>, Seq<char>>
    decreases bs.len(),
{
    if bs.len() == 0 {
        Ok(Seq::empty())
    } else {
        match quote_results(bs.drop_last()) {
            Err(m) => Err(m),
            Ok(acc) => match bs.last() {
                Ok(b) => Ok(acc + "\n\n"@ + quote_lines(lines_of(sanitized(b)))),
                Err(m) => Err(m),
            },
        }
    }
}

/// The quoted body of a reply rests on the `text/plain` parts alone.
proof fn lemma_reply_body_by_texts(parts: Seq<PartView>)
    ensures
        reply_body(parts) == quote_results(plain_texts(parts)),
    decreases parts.len(),
{
    let f = |p: PartView| is_text_plain(p);
    if parts.len() == 0 {
        reveal(Seq::filter);
        assert(plain_texts(parts) =~= Seq::<Result<Seq<char>, Seq<char>>>::empty());
    } else {
        let init = parts.drop_last();
        let x = parts.last();
        assert(parts =~= init.push(x));
        lemma_reply_body_by_texts(init);
        init.lemma_filter_push(x, f);
        if f(x) {
            assert(plain_texts(parts) =~= plain_texts(init).push(x.body));
            assert(plain_texts(parts).drop_last() =~= plain_texts(init));
        } else {
            assert(plain_texts(parts) =~= plain_texts(init));
        }
    }
}

/// The read template of a message rests only on its headers and on the decoded
/// bodies of its `text/plain` parts: messages that agree on those (whatever their
/// other parts, HTML or attachments) are read the same.
pub proof fn lemma_read_rests_on_headers_and_plain_text(
    p1: ParsedEmailView,
    p2: ParsedEmailView,
    c: AccountConfigView,
    opts: Option<ShowHeadersView>,
)
    requires
        root_headers(p1) == root_headers(p2),
        plain_texts(p1.parts) == plain_texts(p2.parts),
    ensures
        read_tpl_text(p1, c, opts) == read_tpl_text(p2, c, opts),
{
    lemma_plain_bodies_by_texts(p1.parts);
    lemma_plain_bodies_by_texts(p2.parts);
}

/// Two messages that differ only in their `Bcc` headers (and in parts other than
/// `text/plain`) get the same reply: nothing of the `Bcc` recipients reaches it.
pub proof fn lemma_reply_ignores_bcc(p1: ParsedEmailView, p2: ParsedEmailView, c: AccountConfigView, all: bool)
    requires
        without_headers(root_headers(p1), seq!["Bcc"@]) == without_headers(root_headers(p2), seq!["Bcc"@]),
        plain_texts(p1.parts) == plain_texts(p2.parts),
    ensures
        reply_tpl_text(p1, c, all) == reply_tpl_text(p2, c, all),
{
    reveal_strlit("Bcc");
    reveal_strlit("Reply-To");
    reveal_strlit("From");
    reveal_strlit("To");
    reveal_strlit("Cc");
    reveal_strlit("Message-Id");
    reveal_strlit("Subject");
    let ks = seq!["Bcc"@];
    let (h1, h2) = (root_headers(p1), root_headers(p2));
    let read = seq!["Reply-To"@, "From"@, "To"@, "Cc"@, "Message-Id"@, "Subject"@];
    assert forall|k: int| 0 <= k < read.len() implies
        first_value(h1, #[trigger] read[k]) == first_value(h2, read[k])
        && all_values(h1, read[k]) == all_values(h2, read[k]) by {
        assert(!crate::mail::names_one_of(read[k], ks)) by {
            assert(read[k].len() != ks[0].len());
        }
        lemma_first_header_without(h1, ks, read[k]);
        lemma_first_header_without(h2, ks, read[k]);
        lemma_all_values_without(h1, ks, read[k]);
        lemma_all_values_without(h2, ks, read[k]);
    }
    assert(read[0] == "Reply-To"@ && read[1] == "From"@ && read[2] == "To"@);
    assert(read[3] == "Cc"@ && read[4] == "Message-Id"@ && read[5] == "Subject"@);
    assert(reply_values(h1) == reply_values(h2));
    lemma_reply_body_by_texts(p1.parts);
    lemma_reply_body_by_texts(p2.parts);
}

/// Two messages that differ only in their `Cc`, `Bcc`, `Reply-To` or `Message-Id`
/// headers (and in parts other than `text/plain`) are forwarded the same.
pub proof fn lemma_forward_ignores_other_headers(p1: ParsedEmailView, p2: ParsedEmailView, c: AccountConfigView)
    requires
        without_headers(root_headers(p1), seq!["Cc"@, "Bcc"@, "Reply-To"@, "Message-Id"@])
            == without_headers(root_headers(p2), seq!["Cc"@, "Bcc"@, "Reply-To"@, "Message-Id"@]),
        plain_texts(p1.parts) == plain_texts(p2.parts),
    ensures
        forward_tpl_text(p1, c) == forward_tpl_text(p2, c),
{
    reveal_strlit("Cc");
    reveal_strlit("Bcc");
    reveal_strlit("Reply-To");
    reveal_strlit("Message-Id");
    reveal_strlit("Subject");
    reveal_strlit("date");
    reveal_strlit("from");
    reveal_strlit("to");
    let ks = seq!["Cc"@, "Bcc"@, "Reply-To"@, "Message-Id"@];
    let (h1, h2) = (root_headers(p1), root_headers(p2));
    let read = seq!["Subject"@, "date"@, "from"@, "to"@];
    assert forall|k: int| 0 <= k < read.len() implies
        first_value(h1, #[trigger] read[k]) == first_value(h2, read[k])
        && all_values(h1, read[k]) == all_values(h2, read[k]) by {
        assert(!crate::mail::names_one_of(read[k], ks)) by {
            assert forall|i: int| 0 <= i < ks.len() implies !#[trigger] eq_ignore_case(read[k], ks[i]) by {
                if read[k].len() == ks[i].len() {
                    // only `to` and `Cc` have the same length; they differ at once
                    assert(lower_code(read[k][0]) != lower_code(ks[i][0]));
                }
            }
        }
        lemma_first_header_without(h1, ks, read[k]);
        lemma_first_header_without(h2, ks, read[k]);
        lemma_all_values_without(h1, ks, read[k]);
        lemma_all_values_without(h2, ks, read[k]);
    }
    assert(read[0] == "Subject"@ && read[1] == "date"@ && read[2] == "from"@ && read[3] == "to"@);
    assert(forward_head(h1, c) == forward_head(h2, c));
    lemma_plain_bodies_by_texts(p1.parts);
    lemma_plain_bodies_by_texts(p2.parts);
}

proof fn lemma_forward_head_begins_with_sender(hs: Seq<HeaderView>, c: AccountConfigView)
    ensures
        header_line("From"@, mailbox_display(sender_mailbox(c))).len() <= forward_head(hs, c).len(),
        forward_head(hs, c).subrange(0, header_line("From"@, mailbox_display(sender_mailbox(c))).len() as int)
            == header_line("From"@, mailbox_display(sender_mailbox(c))),
{
    let line = header_line("From"@, mailbox_display(sender_mailbox(c)));
    let h = forward_head(hs, c);
    assert(h.subrange(0, line.len() as int) =~= line);
}

/// Both the reply and the forward template name the sender the same way: the
/// account's mailbox as `lettre` writes it, display name included. A forward
/// template begins with that `From` line; a reply's `From` header holds it.
#[verifier::spinoff_prover]
pub proof fn lemma_templates_name_the_sender_alike(
    p: ParsedEmailView,
    c: AccountConfigView,
    all: bool,
    to: Seq<MailboxView>,
    cc: Seq<MailboxView>,
)
    ensures
        forward_tpl_text(p, c) matches Ok(t) ==> {
            let line = header_line("From"@, mailbox_display(sender_mailbox(c)));
            &&& line.len() <= t.len()
            &&& t.subrange(0, line.len() as int) == line
        },
        lookup_header(reply_head(root_headers(p), c, all, to, cc), "From"@)
            == Some(mailbox_display(sender_mailbox(c))),
{
    reveal_strlit("From");
    reveal_strlit("To");
    reveal_strlit("Cc");
    reveal_strlit("In-Reply-To");
    reveal_strlit("Subject");
    let hs = root_headers(p);
    let from_d = mailbox_display(sender_mailbox(c));
    let line = header_line("From"@, from_d);
    if let Ok(t) = forward_tpl_text(p, c) {
        lemma_forward_head_begins_with_sender(hs, c);
        let h = forward_head(hs, c);
        assert(t == h + plain_bodies(p.parts)->Ok_0);
        assert(t.subrange(0, line.len() as int) =~= h.subrange(0, line.len() as int));
    }
    let h0 = set_header(HeaderPairs::empty(), "From"@, from_d);
    let h1 = set_header(h0, "To"@, mailboxes_display(to));
    lemma_set_header_then_lookup(HeaderPairs::empty(), "From"@, from_d);
    lemma_set_header_keeps_others(h0, "To"@, mailboxes_display(to), "From"@);
    let h2 = match first_value(hs, "Message-Id"@) {
        Some(id) => set_header(h1, "In-Reply-To"@, id),
        None => h1,
    };
    if let Some(id) = first_value(hs, "Message-Id"@) {
        lemma_set_header_keeps_others(h1, "In-Reply-To"@, id, "From"@);
    }
    let h3 = if all { set_header(h2, "Cc"@, mailboxes_display(cc)) } else { h2 };
    if all {
        lemma_set_header_keeps_others(h2, "Cc"@, mailboxes_display(cc), "From"@);
    }
    if let Some(sub) = first_value(hs, "Subject"@) {
        lemma_set_header_keeps_others(h3, "Subject"@, "Re: "@ + sub, "From"@);
    }
}

/// Every quoted line begins with `>` and ends with a line feed.
pub proof fn lemma_quote_line_shape(l: Seq<char>)
    ensures
        quote_line(l).len() > 0,
        quote_line(l)[0] == '>',
        quote_line(l).last() == '\n',
{
    reveal_strlit(">");
    reveal_strlit(" ");
    reveal_strlit("\n");
}

/// Quoting stops only at a line that is exactly `-- `: lines none of which is the
/// delimiter (lines of dashes, a forwarded block, ...) are all quoted, in order.
pub proof fn lemma_quote_lines_quotes_every_line(ls: Seq<Seq<char>>)
    requires
        forall|i: int| 0 <= i < ls.len() ==> ls[i] != "-- "@,
    ensures
        quote_lines(ls) == ls.map_values(|l: Seq<char>| quote_line(l)).flatten(),
    decreases ls.len(),
{
    let q = ls.map_values(|l: Seq<char>| quote_line(l));
    if ls.len() > 0 {
        assert(ls[0] != "-- "@);
        lemma_quote_lines_quotes_every_line(ls.drop_first());
        assert(q.drop_first() =~= ls.drop_first().map_values(|l: Seq<char>| quote_line(l)));
        assert(q.first() == quote_line(ls[0]));
    } else {
        assert(q =~= Seq::<Seq<char>>::empty());
    }
}

/// Quoting stops at the first signature delimiter line: what follows it is left out.
pub proof fn lemma_quote_stops_at_signature(before: Seq<Seq<char>>, after: Seq<Seq<char>>)
    requires
        forall|i: int| 0 <= i < before.len() ==> before[i] != "-- "@,
    ensures
        quote_lines(before + seq!["-- "@] + after) == quote_lines(before),
    decreases before.len(),
{
    let all = before + seq!["-- "@] + after;
    if before.len() == 0 {
        assert(all[0] == "-- "@);
    } else {
        lemma_quote_stops_at_signature(before.drop_first(), after);
        assert(all.drop_first() =~= before.drop_first() + seq!["-- "@] + after);
        assert(all[0] == before[0]);
    }
}

// ---------------------------------------------------------------- the message

impl<'a> Email<'a> {
    /// The raw bytes of the message.
    fn raw_bytes(&self) -> (res: &[u8])
        ensures
            res@ == self@.raw,
    {
        match &self.raw {
            RawEmail::Vec(v) => v.as_slice(),
            RawEmail::Bytes(b) => b,
        }
    }

    /// The parsed message: parsed from the raw bytes on the first call, and kept.
    pub fn parsed(&mut self) -> (res: Result<&ParsedEmail, EmailError>)
        ensures
            match parse_of(old(self)@) {
                Ok(p) => {
                    &&& res matches Ok(r) && r@ == p
                    &&& final(self)@ == EmailView { raw: old(self)@.raw, parsed: Some(p) }
                },
                Err(m) => {
                    &&& res matches Err(e) && error_is(e, TplFailure::Parse(m))
                    &&& final(self)@ == old(self)@
                },
            },
    {
        if self.parsed.is_none() {
            let parts = match parse_mail_parts(self.raw_bytes()) {
                Ok(parts) => parts,
                Err(m) => return Err(EmailError::ParseEmailError(MailError { message: m })),
            };
            let raw = slice_to_vec(self.raw_bytes());
            self.parsed = Some(ParsedEmail { parts, raw });
        }
        match &self.parsed {
            Some(p) => Ok(p),
            None => Err(EmailError::ParseEmailEmptyRawError),
        }
    }

    /// The attachments of the message.
    pub fn attachments(&mut self) -> (res: Result<Vec<Attachment>, EmailError>)
        ensures
            final(self)@ == after_parse(old(self)@),
            match parse_of(old(self)@) {
                Ok(p) => res matches Ok(v) && {
                    &&& v@.len() == attachment_parts(p.parts).len()
                    &&& forall|i: int| 0 <= i < v@.len() ==> {
                        let part = #[trigger] attachment_parts(p.parts)[i];
                        &&& opt_string_view(v@[i].filename) == crate::mail::param_value(
                            crate::mail::part_disposition(part).params,
                            "filename"@,
                        )
                        &&& Ok::<Seq<u8>, Seq<char>>(v@[i].body@) == part.body_raw
                    }
                },
                Err(m) => res matches Err(e) && error_is(e, TplFailure::Parse(m)),
            },
    {
        let parsed = match self.parsed() {
            Ok(p) => p,
            Err(e) => return Err(e),
        };
        Ok(attachments_of(parsed))
    }

    /// The text parts (MIME type beginning with `text`) of a parsed message.
    pub fn text_parts<'b>(&self, parsed: &'b ParsedEmail) -> (res: Result<Vec<&'b MailPart>, EmailError>)
        ensures
            res matches Ok(v) && v@.map_values(|p: &MailPart| p@) == crate::parts::text_parts(parsed@.parts),
    {
        Ok(text_parts_of(parsed))
    }

    /// The raw bytes of the message.
    pub fn as_raw(&self) -> (res: Result<&[u8], EmailError>)
        ensures
            res matches Ok(b) && b@ == self@.raw,
    {
        Ok(self.raw_bytes())
    }

    /// The read template of the message.
    pub fn to_read_tpl(&mut self, config: &AccountConfig, opts: TplBuilderOpts) -> (res: Result<Tpl, EmailError>)
        ensures
            final(self)@ == after_parse(old(self)@),
            match parse_of(old(self)@) {
                Ok(p) => tpl_result_is(res, read_tpl_text(p, config@, opts@)),
                Err(m) => res matches Err(e) && error_is(e, TplFailure::Parse(m)),
            },
    {
        let parsed = match self.parsed() {
            Ok(p) => p,
            Err(e) => return Err(e),
        };
        read_tpl_of(parsed, config, opts)
    }

    /// The reply template of the message, to its sender or (`all`) to all its recipients.
    pub fn to_reply_tpl(&mut self, config: &AccountConfig, all: bool) -> (res: Result<Tpl, EmailError>)
        ensures
            final(self)@ == after_parse(old(self)@),
            match parse_of(old(self)@) {
                Ok(p) => tpl_result_is(res, reply_tpl_text(p, config@, all)),
                Err(m) => res matches Err(e) && error_is(e, TplFailure::Parse(m)),
            },
    {
        let parsed = match self.parsed() {
            Ok(p) => p,
            Err(e) => return Err(e),
        };
        reply_tpl_of(parsed, config, all)
    }

    /// The forward template of the message.
    pub fn to_forward_tpl(&mut self, config: &AccountConfig) -> (res: Result<Tpl, EmailError>)
        ensures
            final(self)@ == after_parse(old(self)@),
            match parse_of(old(self)@) {
                Ok(p) => tpl_result_is(res, forward_tpl_text(p, config@)),
                Err(m) => res matches Err(e) && error_is(e, TplFailure::Parse(m)),
            },
    {
        let parsed = match self.parsed() {
            Ok(p) => p,
            Err(e) => return Err(e),
        };
        forward_tpl_of(parsed, config)
    }
}

impl<'a> From<Vec<u8>> for Email<'a> {
    fn from(vec: Vec<u8>) -> (res: Self)
        ensures
            res@ == (EmailView { raw: vec@, parsed: None }),
    {
        Email { raw: RawEmail::Vec(vec), parsed: None }
    }
}

impl<'a> vstd::std_specs::convert::FromSpecImpl<Vec<u8>> for Email<'a> {
    open spec fn obeys_from_spec() -> bool {
        true
    }

    closed spec fn from_spec(vec: Vec<u8>) -> Self {
        Email { raw: RawEmail::Vec(vec), parsed: None }
    }
}

impl<'a> From<&'a [u8]> for Email<'a> {
    fn from(bytes: &'a [u8]) -> (res: Self)
        ensures
            res@ == (EmailView { raw: bytes@, parsed: None }),
    {
        Email { raw: RawEmail::Bytes(bytes), parsed: None }
    }
}

impl<'a> vstd::std_specs::convert::FromSpecImpl<&'a [u8]> for Email<'a> {
    open spec fn obeys_from_spec() -> bool {
        true
    }

    closed spec fn from_spec(bytes: &'a [u8]) -> Self {
        Email { raw: RawEmail::Bytes(bytes), parsed: None }
    }
}

impl<'a> From<&'a str> for Email<'a> {
    fn from(s: &'a str) -> (res: Self)
        ensures
            res@ == (EmailView { raw: s.spec_bytes(), parsed: None }),
    {
        Email { raw: RawEmail::Bytes(s.as_bytes()), parsed: None }
    }
}

impl<'a> vstd::std_specs::convert::FromSpecImpl<&'a str> for Email<'a> {
    /// The message borrows the bytes of the text, which a specification cannot
    /// name; `from` states its result itself.
    open spec fn obeys_from_spec() -> bool {
        false
    }

    closed spec fn from_spec(s: &'a str) -> Self {
        arbitrary()
    }
}

impl<'a> From<ParsedEmail> for Email<'a> {
    fn from(parsed: ParsedEmail) -> (res: Self)
        ensures
            res@ == (EmailView { raw: parsed@.raw, parsed: Some(parsed@) }),
    {
        let raw = slice_to_vec(parsed.raw.as_slice());
        Email { raw: RawEmail::Vec(raw), parsed: Some(parsed) }
    }
}

impl<'a> vstd::std_specs::convert::FromSpecImpl<ParsedEmail> for Email<'a> {
    /// The message holds a copy of the parsed message's bytes; `from` states its
    /// result itself.
    open spec fn obeys_from_spec() -> bool {
        false
    }

    closed spec fn from_spec(parsed: ParsedEmail) -> Self {
        arbitrary()
    }
}

} // verus!

//! Walking the parts of a parsed message: the plain-text bodies, the text parts
//! and the attachments.

use vstd::prelude::*;
use crate::mail::{MailPart, ParsedEmail, PartView, DispositionKind, part_disposition, param_value, get_param, opt_string_view};
use crate::text::{remove_cr, without_cr, str_eq, starts_with, has_prefix};

verus! {

/// The text of a plain-text part as the templates use it: carriage returns removed.
pub open spec fn sanitized(part: Seq<char>) -> Seq<char> {
    without_cr(part)
}

/// Removes the carriage returns of a plain-text part.
pub fn sanitize_text_plain_part(part: &str) -> (res: String)
    ensures
        res@ == sanitized(part@),
{
    remove_cr(part)
}

/// Whether a part is a `text/plain` part.
pub open spec fn is_text_plain(p: PartView) -> bool {
    p.mimetype == "text/plain"@
}

/// The bodies of the `text/plain` parts, one after the other, or the error of the
/// first such part whose body cannot be decoded.
pub open spec fn plain_bodies(parts: Seq<PartView>) -> Result<Seq<char>, Seq<char>>
    decreases parts.len(),
{
    if parts.len() == 0 {
        Ok(Seq::empty())
    } else {
        match plain_bodies(parts.drop_last()) {
            Err(m) => Err(m),
            Ok(acc) => if is_text_plain(parts.last()) {
                match parts.last().body {
                    Ok(b) => Ok(acc + b),
                    Err(m) => Err(m),
                }
            } else {
                Ok(acc)
            },
        }
    }
}

/// The decoded bodies (or decoding errors) of the `text/plain` parts, in order.
pub open spec fn plain_texts(parts: Seq<PartView>) -> Seq<Result<Seq<char>, Seq<char>>> {
    parts.filter(|p: PartView| is_text_plain(p)).map_values(|p: PartView| p.body)
}

/// The bodies `bs` one after the other, or the first error among them.
pub open spec fn concat_results(bs: Seq<Result<Seq<char>, Seq<char>>>) -> Result<Seq<char>, Seq<char>>
    decreases bs.len(),
{
    if bs.len() == 0 {
        Ok(Seq::empty())
    } else {
        match concat_results(bs.drop_last()) {
            Err(m) => Err(m),
            Ok(acc) => match bs.last() {
                Ok(b) => Ok(acc + b),
                Err(m) => Err(m),
            },
        }
    }
}

/// The plain-text bodies of a message rest on its `text/plain` parts alone.
pub proof fn lemma_plain_bodies_by_texts(parts: Seq<PartView>)
    ensures
        plain_bodies(parts) == concat_results(plain_texts(parts)),
    decreases parts.len(),
{
    let f = |p: PartView| is_text_plain(p);
    if parts.len() == 0 {
        reveal(Seq::filter);
        assert(plain_texts(parts) =~= Seq::<Result<Seq<char>, Seq<char>>>::empty());
    } else {
        let init = parts.drop_last();
        let x = parts.last();
        assert(parts =~= init.push(x));
        lemma_plain_bodies_by_texts(init);
        init.lemma_filter_push(x, f);
        if f(x) {
            assert(plain_texts(parts) =~= plain_texts(init).push(x.body));
            assert(plain_texts(parts).drop_last() =~= plain_texts(init));
        } else {
            assert(plain_texts(parts) =~= plain_texts(init));
        }
    }
}

/// Whether a part is a text part (its MIME type begins with `text`).
pub open spec fn is_text(p: PartView) -> bool {
    has_prefix(p.mimetype, "text"@)
}

/// The text parts among `ps`, in order.
pub open spec fn text_parts(ps: Seq<PartView>) -> Seq<PartView> {
    ps.filter(|p: PartView| is_text(p))
}

/// The text parts are exactly the parts whose MIME type begins with `text`
/// (`text/plain`, `text/html`, ...): each such part is among them, and each of
/// them is such a part of the message.
pub proof fn lemma_text_parts_are_those_typed_text(ps: Seq<PartView>)
    ensures
        forall|i: int| 0 <= i < ps.len() && has_prefix(ps[i].mimetype, "text"@)
            ==> #[trigger] text_parts(ps).contains(ps[i]),
        forall|j: int| 0 <= j < text_parts(ps).len()
            ==> has_prefix((#[trigger] text_parts(ps)[j]).mimetype, "text"@) && ps.contains(text_parts(ps)[j]),
{
    let f = |p: PartView| is_text(p);
    assert forall|i: int| 0 <= i < ps.len() && has_prefix(ps[i].mimetype, "text"@)
        implies #[trigger] text_parts(ps).contains(ps[i]) by {
        ps.lemma_filter_contains(f, i);
    }
    assert forall|j: int| 0 <= j < text_parts(ps).len()
        implies has_prefix((#[trigger] text_parts(ps)[j]).mimetype, "text"@) && ps.contains(text_parts(ps)[j]) by {
        ps.lemma_filter_pred(f, j);
        assert(text_parts(ps).contains(text_parts(ps)[j]));
        ps.lemma_filter_contains_rev(f, text_parts(ps)[j]);
    }
}

/// Whether a part is an attachment whose body could be decoded.
pub open spec fn is_readable_attachment(p: PartView) -> bool {
    &&& part_disposition(p).kind is Attachment
    &&& p.body_raw is Ok
}

/// The parts that are attachments whose body could be decoded, in order.
pub open spec fn attachment_parts(ps: Seq<PartView>) -> Seq<PartView> {
    ps.filter(|p: PartView| is_readable_attachment(p))
}

/// An attachment: its file name, its MIME type and its content.
#[derive(Debug)]
pub struct Attachment {
    pub filename: Option<String>,
    pub mime: String,
    pub body: Vec<u8>,
}

/// The MIME type that `tree_magic::from_u8` finds for some bytes. With its default
/// features `tree_magic` loads the freedesktop MIME database of the machine it runs
/// on (`/usr/share/mime`, read in `fdo_magic/sys.rs`), so the answer rests on the
/// machine and nothing is stated of it.
#[verifier::external_body]
pub(crate) fn mime_type_of(bytes: &[u8]) -> String {
    tree_magic::from_u8(bytes)
}

/// Concatenates the bodies of the `text/plain` parts, in order.
pub fn concat_text_plain_bodies(parsed: &ParsedEmail) -> (res: Result<String, String>)
    ensures
        match plain_bodies(parsed@.parts) {
            Ok(b) => res matches Ok(s) && s@ == b,
            Err(m) => res matches Err(e) && e@ == m,
        },
{
    let ghost ps = parsed@.parts;
    let mut out = String::new();
    let mut i: usize = 0;
    while i < parsed.parts.len()
        invariant
            i <= parsed.parts@.len(),
            ps == parsed@.parts,
            plain_bodies(ps.take(i as int)) == Ok::<Seq<char>, Seq<char>>(out@),
        decreases parsed.parts@.len() - i,
    {
        let part = &parsed.parts[i];
        proof {
            assert(ps.take(i + 1).drop_last() =~= ps.take(i as int));
            assert(ps.take(i + 1).last() == part@);
        }
        if str_eq(part.mimetype.as_str(), "text/plain") {
            match &part.body {
                Ok(b) => out.append(b.as_str()),
                Err(m) => {
                    proof { lemma_plain_bodies_err_prefix(ps, i as int + 1); }
                    return Err(m.clone());
                },
            }
        }
        i += 1;
    }
    assert(ps.take(parsed.parts@.len() as int) =~= ps);
    Ok(out)
}

/// Once a prefix of the parts fails, all the parts fail with the same error.
pub proof fn lemma_plain_bodies_err_prefix(ps: Seq<PartView>, k: int)
    requires
        0 <= k <= ps.len(),
        plain_bodies(ps.take(k)) is Err,
    ensures
        plain_bodies(ps) == plain_bodies(ps.take(k)),
    decreases ps.len() - k,
{
    if k < ps.len() {
        assert(ps.take(k + 1).drop_last() =~= ps.take(k));
        lemma_plain_bodies_err_prefix(ps, k + 1);
    } else {
        assert(ps.take(k) =~= ps);
    }
}

/// The text parts of a parsed message, in order.
pub fn text_parts_of<'b>(parsed: &'b ParsedEmail) -> (res: Vec<&'b MailPart>)
    ensures
        res@.map_values(|p: &MailPart| p@) == text_parts(parsed@.parts),
{
    let ghost ps = parsed@.parts;
    let mut out: Vec<&'b MailPart> = Vec::new();
    let mut i: usize = 0;
    while i < parsed.parts.len()
        invariant
            i <= parsed.parts@.len(),
            ps == parsed@.parts,
            out@.map_values(|p: &MailPart| p@) == ps.take(i as int).filter(|p: PartView| is_text(p)),
        decreases parsed.parts@.len() - i,
    {
        let part = &parsed.parts[i];
        proof {
            reveal(Seq::filter);
            assert(ps.take(i + 1).drop_last() =~= ps.take(i as int));
            assert(ps.take(i + 1).last() == part@);
        }
        let ghost prev = out@;
        if starts_with(part.mimetype.as_str(), "text") {
            out.push(part);
            assert(out@.map_values(|p: &MailPart| p@) =~= prev.map_values(|p: &MailPart| p@).push(part@));
        }
        i += 1;
    }
    assert(ps.take(parsed.parts@.len() as int) =~= ps);
    out
}

/// The attachments of a parsed message: each part whose disposition is
/// `attachment` and whose body can be decoded, with the `filename` parameter of
/// its disposition, its decoded body, and the MIME type `tree_magic` finds for it.
pub fn attachments_of(parsed: &ParsedEmail) -> (res: Vec<Attachment>)
    ensures
        res@.len() == attachment_parts(parsed@.parts).len(),
        forall|i: int| 0 <= i < res@.len() ==> {
            let p = #[trigger] attachment_parts(parsed@.parts)[i];
            &&& opt_string_view(res@[i].filename) == param_value(part_disposition(p).params, "filename"@)
            &&& Ok::<Seq<u8>, Seq<char>>(res@[i].body@) == p.body_raw
        },
{
    let ghost ps = parsed@.parts;
    let mut out: Vec<Attachment> = Vec::new();
    let mut i: usize = 0;
    while i < parsed.parts.len()
        invariant
            i <= parsed.parts@.len(),
            ps == parsed@.parts,
            out@.len() == attachment_parts(ps.take(i as int)).len(),
            forall|j: int| 0 <= j < out@.len() ==> {
                let p = #[trigger] attachment_parts(ps.take(i as int))[j];
                &&& opt_string_view(out@[j].filename) == param_value(part_disposition(p).params, "filename"@)
                &&& Ok::<Seq<u8>, Seq<char>>(out@[j].body@) == p.body_raw
            },
        decreases parsed.parts@.len() - i,
    {
        let part = &parsed.parts[i];
        let ghost before = attachment_parts(ps.take(i as int));
        proof {
            reveal(Seq::filter);
            assert(ps.take(i + 1).drop_last() =~= ps.take(i as int));
            assert(ps.take(i + 1).last() == part@);
        }
        let d = part.content_disposition();
        if matches!(d.kind, DispositionKind::Attachment) {
            match &part.body_raw {
                Ok(body) => {
                    let filename = get_param(&d.params, "filename");
                    let mime = mime_type_of(body.as_slice());
                    let content = body.clone();
                    assert(content@ == body@);
                    out.push(Attachment { filename, mime, body: content });
                    assert(attachment_parts(ps.take(i + 1)) == before.push(part@));
                },
                Err(_) => {},
            }
        }
        i += 1;
    }
    assert(ps.take(parsed.parts@.len() as int) =~= ps);
    out
}

/// Whether a part is an attachment whose body cannot be decoded (and is skipped).
pub open spec fn is_skipped_attachment(p: PartView) -> bool {
    &&& part_disposition(p).kind is Attachment
    &&& p.body_raw is Err
}

/// The attachments that are skipped because their body cannot be decoded, in order.
pub open spec fn skipped_parts(ps: Seq<PartView>) -> Seq<PartView> {
    ps.filter(|p: PartView| is_skipped_attachment(p))
}

/// An attachment left out of `attachments`: its file name, if its disposition gives
/// one, and the text of the error that decoding its body gave.
#[derive(Debug)]
pub struct SkippedAttachment {
    pub filename: Option<String>,
    pub error: String,
}

/// The attachments of a parsed message whose body cannot be decoded, with their
/// file name and decoding error, in order (what a caller warns about).
pub fn skipped_attachments_of(parsed: &ParsedEmail) -> (res: Vec<SkippedAttachment>)
    ensures
        res@.len() == skipped_parts(parsed@.parts).len(),
        forall|i: int| 0 <= i < res@.len() ==> {
            let p = #[trigger] skipped_parts(parsed@.parts)[i];
            &&& opt_string_view(res@[i].filename) == param_value(part_disposition(p).params, "filename"@)
            &&& Err::<Seq<u8>, Seq<char>>(res@[i].error@) == p.body_raw
        },
{
    let ghost ps = parsed@.parts;
    let mut out: Vec<SkippedAttachment> = Vec::new();
    let mut i: usize = 0;
    while i < parsed.parts.len()
        invariant
            i <= parsed.parts@.len(),
            ps == parsed@.parts,
            out@.len() == skipped_parts(ps.take(i as int)).len(),
            forall|j: int| 0 <= j < out@.len() ==> {
                let p = #[trigger] skipped_parts(ps.take(i as int))[j];
                &&& opt_string_view(out@[j].filename) == param_value(part_disposition(p).params, "filename"@)
                &&& Err::<Seq<u8>, Seq<char>>(out@[j].error@) == p.body_raw
            },
        decreases parsed.parts@.len() - i,
    {
        let part = &parsed.parts[i];
        let ghost before = skipped_parts(ps.take(i as int));
        proof {
            reveal(Seq::filter);
            assert(ps.take(i + 1).drop_last() =~= ps.take(i as int));
            assert(ps.take(i + 1).last() == part@);
        }
        let d = part.content_disposition();
        if matches!(d.kind, DispositionKind::Attachment) {
            match &part.body_raw {
                Err(e) => {
                    let filename = get_param(&d.params, "filename");
                    let error = e.clone();
                    out.push(SkippedAttachment { filename, error });
                    assert(skipped_parts(ps.take(i + 1)) == before.push(part@));
                },
                Ok(_) => {},
            }
        }
        i += 1;
    }
    assert(ps.take(parsed.parts@.len() as int) =~= ps);
    out
}

/// Every part whose disposition is `attachment` is either returned (its body
/// decodes) or reported as skipped (it does not), whatever its MIME type; and only
/// such parts are returned or reported.
pub proof fn lemma_each_attachment_returned_or_skipped(ps: Seq<PartView>)
    ensures
        forall|i: int| 0 <= i < ps.len() && part_disposition(ps[i]).kind is Attachment && ps[i].body_raw is Ok
            ==> #[trigger] attachment_parts(ps).contains(ps[i]),
        forall|i: int| 0 <= i < ps.len() && part_disposition(ps[i]).kind is Attachment && ps[i].body_raw is Err
            ==> #[trigger] skipped_parts(ps).contains(ps[i]),
        forall|j: int| 0 <= j < attachment_parts(ps).len() ==> {
            let p = #[trigger] attachment_parts(ps)[j];
            &&& part_disposition(p).kind is Attachment
            &&& p.body_raw is Ok
            &&& ps.contains(p)
        },
        forall|j: int| 0 <= j < skipped_parts(ps).len() ==> {
            let p = #[trigger] skipped_parts(ps)[j];
            &&& part_disposition(p).kind is Attachment
            &&& p.body_raw is Err
            &&& ps.contains(p)
        },
{
    let f = |p: PartView| is_readable_attachment(p);
    let g = |p: PartView| is_skipped_attachment(p);
    assert forall|i: int| 0 <= i < ps.len() && part_disposition(ps[i]).kind is Attachment && ps[i].body_raw is Ok
        implies #[trigger] attachment_parts(ps).contains(ps[i]) by {
        ps.lemma_filter_contains(f, i);
    }
    assert forall|i: int| 0 <= i < ps.len() && part_disposition(ps[i]).kind is Attachment && ps[i].body_raw is Err
        implies #[trigger] skipped_parts(ps).contains(ps[i]) by {
        ps.lemma_filter_contains(g, i);
    }
    assert forall|j: int| 0 <= j < attachment_parts(ps).len() implies {
        let p = #[trigger] attachment_parts(ps)[j];
        &&& part_disposition(p).kind is Attachment
        &&& p.body_raw is Ok
        &&& ps.contains(p)
    } by {
        ps.lemma_filter_pred(f, j);
        assert(attachment_parts(ps).contains(attachment_parts(ps)[j]));
        ps.lemma_filter_contains_rev(f, attachment_parts(ps)[j]);
    }
    assert forall|j: int| 0 <= j < skipped_parts(ps).len() implies {
        let p = #[trigger] skipped_parts(ps)[j];
        &&& part_disposition(p).kind is Attachment
        &&& p.body_raw is Err
        &&& ps.contains(p)
    } by {
        ps.lemma_filter_pred(g, j);
        assert(skipped_parts(ps).contains(skipped_parts(ps)[j]));
        ps.lemma_filter_contains_rev(g, skipped_parts(ps)[j]);
    }
}

} // verus!

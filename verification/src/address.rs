//! Mailboxes (a display name and an address), read and written with `lettre`.

use vstd::prelude::*;
use crate::text::join;
use std::fmt::Write;

verus! {

#[verifier::external_type_specification]
#[verifier::external_body]
pub struct ExAddressError(lettre::address::AddressError);

/// A mailbox: an optional display name and an email address.
#[derive(Debug)]
pub struct Mailbox {
    pub name: Option<String>,
    pub email: String,
}

/// The plain value of a mailbox: its display name and its address.
pub struct MailboxView {
    pub name: Option<Seq<char>>,
    pub email: Seq<char>,
}

pub open spec fn opt_view(o: Option<String>) -> Option<Seq<char>> {
    match o {
        Some(s) => Some(s@),
        None => None,
    }
}

impl View for Mailbox {
    type V = MailboxView;

    open spec fn view(&self) -> MailboxView {
        MailboxView { name: opt_view(self.name), email: self.email@ }
    }
}

pub open spec fn mailbox_views(v: Seq<Mailbox>) -> Seq<MailboxView> {
    v.map_values(|m: Mailbox| m@)
}

/// What `lettre` parses an address list (`Mailboxes::from_str`) into, or `None`
/// where it refuses the text.
pub uninterp spec fn mailboxes_parse(text: Seq<char>) -> Option<Seq<MailboxView>>;

/// Whether `lettre` accepts the text as an email address (`Address::from_str`).
pub uninterp spec fn address_valid(text: Seq<char>) -> bool;

/// How `lettre` writes a mailbox (`Display for Mailbox`), or `None` where its
/// writer fails.
pub uninterp spec fn mailbox_text(name: Option<Seq<char>>, email: Seq<char>) -> Option<Seq<char>>;

/// Parses an address list with `lettre`'s `Mailboxes::from_str`: the result is
/// `mailboxes_parse` of the text.
#[verifier::external_body]
pub(crate) fn parse_mailboxes(text: &str) -> (res: Result<Vec<Mailbox>, lettre::address::AddressError>)
    ensures
        match res {
            Ok(v) => mailboxes_parse(text@) == Some(mailbox_views(v@)),
            Err(_) => mailboxes_parse(text@) is None,
        },
{
    let mboxes: lettre::message::Mailboxes = text.parse()?;
    Ok(mboxes.into_iter().map(|m| Mailbox { name: m.name, email: m.email.to_string() }).collect())
}

/// Checks an address with `lettre`'s `Address::from_str`. An accepted address is
/// kept as written (the source stores the text it was given).
#[verifier::external_body]
pub(crate) fn parse_address(text: &str) -> (res: Result<String, lettre::address::AddressError>)
    ensures
        res is Ok <==> address_valid(text@),
        res matches Ok(s) ==> s@ == text@,
{
    let address: lettre::Address = text.parse()?;
    Ok(address.to_string())
}

/// Writes a mailbox with `lettre`'s `Display for Mailbox` (after `Address::from_str`
/// on its address): the result is `mailbox_text` of its name and address. There is
/// none where the address is refused; a mailbox without a name is written as its
/// address, which `Address` keeps as the text it was parsed from.
#[verifier::external_body]
pub(crate) fn write_mailbox(m: &Mailbox) -> (res: Option<String>)
    ensures
        opt_view(res) == mailbox_text(m@.name, m@.email),
        !address_valid(m@.email) ==> res is None,
        address_valid(m@.email) && m@.name is None ==> opt_view(res) == Some(m@.email),
{
    let address: lettre::Address = m.email.parse().ok()?;
    let mut out = String::new();
    write!(out, "{}", lettre::message::Mailbox::new(m.name.clone(), address)).ok()?;
    Some(out)
}

/// The text a mailbox is written as: `lettre`'s rendering, or the bare address
/// where `lettre` cannot write it.
pub open spec fn mailbox_display(m: MailboxView) -> Seq<char> {
    match mailbox_text(m.name, m.email) {
        Some(t) => t,
        None => m.email,
    }
}

/// The text a list of mailboxes is written as: each mailbox, separated by `", "`
/// (as `Display for Mailboxes` does).
pub open spec fn mailboxes_display(ms: Seq<MailboxView>) -> Seq<char> {
    join(ms.map_values(|m: MailboxView| mailbox_display(m)), seq![',', ' '])
}

impl Clone for Mailbox {
    fn clone(&self) -> (res: Self)
        ensures
            res@ == self@,
    {
        let name = match &self.name {
            Some(n) => Some(n.clone()),
            None => None,
        };
        Mailbox { name, email: self.email.clone() }
    }
}

impl Mailbox {
    /// The text this mailbox is written as.
    pub fn display(&self) -> (res: String)
        ensures
            res@ == mailbox_display(self@),
            self@.name is None ==> res@ == self@.email,
    {
        match write_mailbox(self) {
            Some(t) => t,
            None => self.email.clone(),
        }
    }
}

/// The text a list of mailboxes is written as.
pub fn display_mailboxes(ms: &Vec<Mailbox>) -> (res: String)
    ensures
        res@ == mailboxes_display(mailbox_views(ms@)),
{
    let ghost texts = mailbox_views(ms@).map_values(|m: MailboxView| mailbox_display(m));
    let mut out = String::new();
    let mut i: usize = 0;
    while i < ms.len()
        invariant
            i <= ms@.len(),
            texts == mailbox_views(ms@).map_values(|m: MailboxView| mailbox_display(m)),
            out@ == join(texts.take(i as int), seq![',', ' ']),
        decreases ms@.len() - i,
    {
        let t = ms[i].display();
        if i > 0 {
            out.append(", ");
            proof { reveal_strlit(", "); }
        }
        out.append(t.as_str());
        proof {
            assert(texts.take(i + 1).drop_last() =~= texts.take(i as int));
            assert(texts[i as int] == t@);
        }
        i += 1;
    }
    assert(texts.take(ms@.len() as int) =~= texts);
    out
}

} // verus!

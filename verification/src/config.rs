//! The account settings the templates read: the sender's address and display
//! name, the signature, and the headers shown when reading a message.

use vstd::prelude::*;
use crate::address::{Mailbox, MailboxView, address_valid, opt_view, parse_address};

verus! {

/// The delimiter written before a signature when the account sets none.
pub const DEFAULT_SIGNATURE_DELIM: &'static str = "-- \n";

/// The errors of the account settings.
#[derive(Debug)]
pub enum ConfigError {
    /// The account's email address is not a valid address.
    ParseAccountAddrError(lettre::address::AddressError),
}

/// The settings of one account.
#[derive(Debug)]
pub struct AccountConfig {
    /// The name of the account.
    pub name: String,
    /// The email address of the account.
    pub email: String,
    /// The name shown with the address, if any.
    pub display_name: Option<String>,
    /// The delimiter written before the signature (default: `"-- \n"`).
    pub signature_delim: Option<String>,
    /// The signature text, if any.
    pub signature: Option<String>,
    /// The headers shown when reading a message, if any.
    pub email_reading_headers: Option<Vec<String>>,
}

pub struct AccountConfigView {
    pub name: Seq<char>,
    pub email: Seq<char>,
    pub display_name: Option<Seq<char>>,
    pub signature_delim: Option<Seq<char>>,
    pub signature: Option<Seq<char>>,
    pub email_reading_headers: Option<Seq<Seq<char>>>,
}

pub open spec fn opt_strings_view(o: Option<Vec<String>>) -> Option<Seq<Seq<char>>> {
    match o {
        Some(v) => Some(v@.map_values(|s: String| s@)),
        None => None,
    }
}

impl View for AccountConfig {
    type V = AccountConfigView;

    open spec fn view(&self) -> AccountConfigView {
        AccountConfigView {
            name: self.name@,
            email: self.email@,
            display_name: opt_view(self.display_name),
            signature_delim: opt_view(self.signature_delim),
            signature: opt_view(self.signature),
            email_reading_headers: opt_strings_view(self.email_reading_headers),
        }
    }
}

/// The headers shown when reading a message: those configured, or none.
pub open spec fn reading_headers(c: AccountConfigView) -> Seq<Seq<char>> {
    match c.email_reading_headers {
        Some(hs) => hs,
        None => Seq::empty(),
    }
}

/// The signature block: the delimiter followed by the signature, if one is set.
pub open spec fn signature_block(c: AccountConfigView) -> Option<Seq<char>> {
    match c.signature {
        Some(sig) => Some(
            match c.signature_delim {
                Some(d) => d,
                None => DEFAULT_SIGNATURE_DELIM@,
            } + sig,
        ),
        None => None,
    }
}

/// The sender's mailbox: the display name with the account's address.
pub open spec fn sender_mailbox(c: AccountConfigView) -> MailboxView {
    MailboxView { name: c.display_name, email: c.email }
}

impl Default for AccountConfig {
    fn default() -> (res: Self)
        ensures
            res@.name.len() == 0,
            res@.email.len() == 0,
            res@.display_name is None,
            res@.signature_delim is None,
            res@.signature is None,
            res@.email_reading_headers is None,
    {
        AccountConfig {
            name: String::new(),
            email: String::new(),
            display_name: None,
            signature_delim: None,
            signature: None,
            email_reading_headers: None,
        }
    }
}

impl AccountConfig {
    /// The headers shown when reading a message.
    pub fn email_reading_headers(&self) -> (res: Vec<String>)
        ensures
            res@.map_values(|s: String| s@) == reading_headers(self@),
    {
        match &self.email_reading_headers {
            Some(hs) => {
                let mut out: Vec<String> = Vec::new();
                let mut i: usize = 0;
                while i < hs.len()
                    invariant
                        i <= hs@.len(),
                        out@.map_values(|s: String| s@) == hs@.take(i as int).map_values(|s: String| s@),
                    decreases hs@.len() - i,
                {
                    let ghost prev = out@;
                    let item = hs[i].clone();
                    out.push(item);
                    assert(out@.map_values(|s: String| s@) =~= prev.map_values(|s: String| s@).push(item@));
                    assert(hs@.take(i + 1).map_values(|s: String| s@) =~= hs@.take(i as int).map_values(|s: String| s@).push(hs@[i as int]@));
                    i += 1;
                }
                assert(hs@.take(hs@.len() as int) =~= hs@);
                out
            },
            None => {
                let out: Vec<String> = Vec::new();
                assert(out@.map_values(|s: String| s@) =~= Seq::<Seq<char>>::empty());
                out
            },
        }
    }

    /// The sender's mailbox, or an error where the account's address is not valid.
    pub fn addr(&self) -> (res: Result<Mailbox, ConfigError>)
        ensures
            res is Ok <==> address_valid(self@.email),
            res matches Ok(m) ==> m@ == sender_mailbox(self@),
    {
        match parse_address(self.email.as_str()) {
            Ok(email) => {
                let name = match &self.display_name {
                    Some(n) => Some(n.clone()),
                    None => None,
                };
                Ok(Mailbox { name, email })
            },
            Err(e) => Err(ConfigError::ParseAccountAddrError(e)),
        }
    }

    /// The signature block: the delimiter followed by the signature, if one is set.
    pub fn signature(&self) -> (res: Option<String>)
        ensures
            opt_view(res) == signature_block(self@),
    {
        match &self.signature {
            Some(sig) => {
                let mut block = match &self.signature_delim {
                    Some(d) => d.clone(),
                    None => DEFAULT_SIGNATURE_DELIM.to_owned(),
                };
                block.append(sig.as_str());
                Some(block)
            },
            None => None,
        }
    }
}

} // verus!

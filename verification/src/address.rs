//! Mailboxes and the text of a mailbox list in a header.

use email::{Address, Mailbox as WireMailbox, ToFoldedHeader};
use vstd::prelude::*;

verus! {

/// A mailbox as a mathematical value.
pub struct MailboxView {
    pub name: Option<Seq<char>>,
    pub address: Seq<char>,
}

/// A mailbox: an address, and the name to show with it if there is one.
#[derive(Debug)]
pub struct Mailbox {
    pub name: Option<String>,
    pub address: String,
}

impl View for Mailbox {
    type V = MailboxView;

    open spec fn view(&self) -> MailboxView {
        MailboxView {
            name: match self.name {
                Some(name) => Some(name@),
                None => None,
            },
            address: self.address@,
        }
    }
}

impl Clone for Mailbox {
    fn clone(&self) -> (copy: Mailbox)
        ensures
            copy@ == self@,
    {
        let name = match &self.name {
            Some(name) => Some(name.clone()),
            None => None,
        };
        Mailbox { name, address: self.address.clone() }
    }
}

impl Mailbox {
    /// A mailbox without a name.
    pub fn new(address: &str) -> (mailbox: Mailbox)
        ensures
            mailbox@ == (MailboxView { name: None, address: address@ }),
    {
        Mailbox { name: None, address: String::from_str(address) }
    }

    /// A mailbox with the name to show.
    pub fn new_with_name(name: &str, address: &str) -> (mailbox: Mailbox)
        ensures
            mailbox@ == (MailboxView { name: Some(name@), address: address@ }),
    {
        Mailbox { name: Some(String::from_str(name)), address: String::from_str(address) }
    }
}

/// The views of a list of mailboxes, in the same order.
pub open spec fn mailboxes_view(list: Seq<Mailbox>) -> Seq<MailboxView> {
    Seq::new(list.len(), |i: int| list[i]@)
}

/// The value that the `email` crate gives to a header for the mailboxes of
/// `list`, where the value starts in column `start` of its line.
pub uninterp spec fn mailbox_list_text(start: int, list: Seq<MailboxView>) -> Seq<char>;

/// The longest header name, with its colon and space, that a mailbox list is
/// written behind.
pub const MAX_START: usize = 78;

/// Formats a list of mailboxes as the value of a header, by
/// `email::ToFoldedHeader::to_folded_header` for a vector of addresses. The
/// text is a function of the column and the mailboxes alone and is named
/// `mailbox_list_text`. An empty list is left out: the outside function
/// cuts two characters off the end of what it wrote.
#[verifier::external_body]
pub(crate) fn format_mailbox_list(start: usize, list: &Vec<Mailbox>) -> (text: String)
    requires
        list@.len() > 0,
        start <= MAX_START,
    ensures
        text@ == mailbox_list_text(start as int, mailboxes_view(list@)),
{
    let wire: Vec<Address> = list.iter().map(
        |m| Address::Mailbox(WireMailbox { name: m.name.clone(), address: m.address.clone() }),
    ).collect();
    ToFoldedHeader::to_folded_header(start, wire).unwrap()
}

} // verus!

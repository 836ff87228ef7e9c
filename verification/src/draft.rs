//! The draft of a message: addresses, headers, bodies and attachment paths.
//! Nothing here can fail; what is wrong with a draft shows when it is rendered.

use crate::address::{mailboxes_view, Mailbox, MailboxView};
use crate::date::Timestamp;
use crate::part::{headers_view, Header, HeaderView};
use vstd::prelude::*;

verus! {

/// A draft as a mathematical value.
pub struct EmailView {
    pub plain_body: Option<Seq<char>>,
    pub html_body: Option<Seq<char>>,
    pub attachments: Seq<Seq<char>>,
    pub headers: Seq<HeaderView>,
    pub to: Seq<MailboxView>,
    pub from: Seq<MailboxView>,
    pub cc: Seq<MailboxView>,
    pub sender: Seq<MailboxView>,
    pub reply_to: Seq<MailboxView>,
    pub subject: Option<Seq<char>>,
    pub date: Option<Timestamp>,
    /// The address that the message is sent from: that of the `From` mailbox
    /// or the sender that was given last.
    pub envelope_sender: Option<Seq<char>>,
    /// The addresses that the message is sent to: those of the `To` and `Cc`
    /// mailboxes in the order in which they were given.
    pub envelope_recipients: Seq<Seq<char>>,
}

/// The draft of a message.
#[derive(Debug)]
pub struct Email {
    pub(crate) plain_body: Option<String>,
    pub(crate) html_body: Option<String>,
    pub(crate) attachments: Vec<String>,
    pub(crate) headers: Vec<Header>,
    pub(crate) to: Vec<Mailbox>,
    pub(crate) from: Vec<Mailbox>,
    pub(crate) cc: Vec<Mailbox>,
    pub(crate) sender: Vec<Mailbox>,
    pub(crate) reply_to: Vec<Mailbox>,
    pub(crate) subject: Option<String>,
    pub(crate) date: Option<Timestamp>,
    pub(crate) envelope_sender: Option<String>,
    pub(crate) envelope_recipients: Vec<String>,
}

/// The characters of a text that may be missing.
pub open spec fn text_view(text: Option<String>) -> Option<Seq<char>> {
    match text {
        Some(text) => Some(text@),
        None => None,
    }
}

/// The character sequences of a list of texts, in the same order.
pub open spec fn strings_view(texts: Seq<String>) -> Seq<Seq<char>> {
    Seq::new(texts.len(), |i: int| texts[i]@)
}

impl View for Email {
    type V = EmailView;

    closed spec fn view(&self) -> EmailView {
        EmailView {
            plain_body: text_view(self.plain_body),
            html_body: text_view(self.html_body),
            attachments: strings_view(self.attachments@),
            headers: headers_view(self.headers@),
            to: mailboxes_view(self.to@),
            from: mailboxes_view(self.from@),
            cc: mailboxes_view(self.cc@),
            sender: mailboxes_view(self.sender@),
            reply_to: mailboxes_view(self.reply_to@),
            subject: text_view(self.subject),
            date: self.date,
            envelope_sender: text_view(self.envelope_sender),
            envelope_recipients: strings_view(self.envelope_recipients@),
        }
    }
}

impl EmailView {
    /// The draft that holds nothing.
    pub open spec fn empty() -> EmailView {
        EmailView {
            plain_body: None,
            html_body: None,
            attachments: Seq::empty(),
            headers: Seq::empty(),
            to: Seq::empty(),
            from: Seq::empty(),
            cc: Seq::empty(),
            sender: Seq::empty(),
            reply_to: Seq::empty(),
            subject: None,
            date: None,
            envelope_sender: None,
            envelope_recipients: Seq::empty(),
        }
    }

    /// At least one of the two bodies is set.
    pub open spec fn has_body(self) -> bool {
        self.plain_body is Some || self.html_body is Some
    }
}

/// What the view of a draft is made of, for the other modules of the crate.
pub(crate) proof fn lemma_view(email: &Email)
    ensures
        email@.plain_body == text_view(email.plain_body),
        email@.html_body == text_view(email.html_body),
        email@.attachments == strings_view(email.attachments@),
        email@.headers == headers_view(email.headers@),
        email@.to == mailboxes_view(email.to@),
        email@.from == mailboxes_view(email.from@),
        email@.cc == mailboxes_view(email.cc@),
        email@.sender == mailboxes_view(email.sender@),
        email@.reply_to == mailboxes_view(email.reply_to@),
        email@.subject == text_view(email.subject),
        email@.date == email.date,
        email@.envelope_sender == text_view(email.envelope_sender),
        email@.envelope_recipients == strings_view(email.envelope_recipients@),
{
}

/// Adds `text` at the end of `list`.
fn push_text(list: &mut Vec<String>, text: String)
    ensures
        strings_view(final(list)@) == strings_view(old(list)@).push(text@),
{
    list.push(text);
    assert(strings_view(list@) =~= strings_view(old(list)@).push(text@));
}

/// Adds `mailbox` at the end of `list`.
fn push_mailbox(list: &mut Vec<Mailbox>, mailbox: Mailbox)
    ensures
        mailboxes_view(final(list)@) == mailboxes_view(old(list)@).push(mailbox@),
{
    list.push(mailbox);
    assert(mailboxes_view(list@) =~= mailboxes_view(old(list)@).push(mailbox@));
}

impl Email {
    /// A draft that holds nothing yet.
    pub fn new() -> (email: Email)
        ensures
            email@ == EmailView::empty(),
    {
        let email = Email {
            plain_body: None,
            html_body: None,
            attachments: Vec::new(),
            headers: Vec::new(),
            to: Vec::new(),
            from: Vec::new(),
            cc: Vec::new(),
            sender: Vec::new(),
            reply_to: Vec::new(),
            subject: None,
            date: None,
            envelope_sender: None,
            envelope_recipients: Vec::new(),
        };
        assert(email@.envelope_recipients =~= Seq::empty());
        assert(email@.attachments =~= Seq::empty());
        assert(email@.headers =~= Seq::empty());
        assert(email@.to =~= Seq::empty());
        assert(email@.from =~= Seq::empty());
        assert(email@.cc =~= Seq::empty());
        assert(email@.sender =~= Seq::empty());
        assert(email@.reply_to =~= Seq::empty());
        email
    }

    /// Adds a `To` address.
    pub fn add_to(&mut self, address: Mailbox)
        ensures
            final(self)@ == (EmailView {
                to: old(self)@.to.push(address@),
                envelope_recipients: old(self)@.envelope_recipients.push(address@.address),
                ..old(self)@
            }),
    {
        push_text(&mut self.envelope_recipients, address.address.clone());
        push_mailbox(&mut self.to, address);
    }

    /// Adds a `To` address.
    pub fn to(self, address: Mailbox) -> (email: Email)
        ensures
            email@ == (EmailView {
                to: self@.to.push(address@),
                envelope_recipients: self@.envelope_recipients.push(address@.address),
                ..self@
            }),
    {
        let mut email = self;
        email.add_to(address);
        email
    }

    /// Adds a `From` address.
    pub fn add_from(&mut self, address: Mailbox)
        ensures
            final(self)@ == (EmailView {
                from: old(self)@.from.push(address@),
                envelope_sender: Some(address@.address),
                ..old(self)@
            }),
    {
        self.envelope_sender = Some(address.address.clone());
        push_mailbox(&mut self.from, address);
    }

    /// Adds a `From` address.
    pub fn from(self, address: Mailbox) -> (email: Email)
        ensures
            email@ == (EmailView {
                from: self@.from.push(address@),
                envelope_sender: Some(address@.address),
                ..self@
            }),
    {
        let mut email = self;
        email.add_from(address);
        email
    }

    /// Adds a `Cc` address.
    pub fn add_cc(&mut self, address: Mailbox)
        ensures
            final(self)@ == (EmailView {
                cc: old(self)@.cc.push(address@),
                envelope_recipients: old(self)@.envelope_recipients.push(address@.address),
                ..old(self)@
            }),
    {
        push_text(&mut self.envelope_recipients, address.address.clone());
        push_mailbox(&mut self.cc, address);
    }

    /// Adds a `Cc` address.
    pub fn cc(self, address: Mailbox) -> (email: Email)
        ensures
            email@ == (EmailView {
                cc: self@.cc.push(address@),
                envelope_recipients: self@.envelope_recipients.push(address@.address),
                ..self@
            }),
    {
        let mut email = self;
        email.add_cc(address);
        email
    }

    /// Adds a `Sender` address. One sender is usual; more are kept as given.
    pub fn set_sender(&mut self, address: Mailbox)
        ensures
            final(self)@ == (EmailView {
                sender: old(self)@.sender.push(address@),
                envelope_sender: Some(address@.address),
                ..old(self)@
            }),
    {
        self.envelope_sender = Some(address.address.clone());
        push_mailbox(&mut self.sender, address);
    }

    /// Adds a `Sender` address.
    pub fn sender(self, address: Mailbox) -> (email: Email)
        ensures
            email@ == (EmailView {
                sender: self@.sender.push(address@),
                envelope_sender: Some(address@.address),
                ..self@
            }),
    {
        let mut email = self;
        email.set_sender(address);
        email
    }

    /// Adds a `Reply-To` address.
    pub fn add_reply_to(&mut self, address: Mailbox)
        ensures
            final(self)@ == (EmailView {
                reply_to: old(self)@.reply_to.push(address@),
                ..old(self)@
            }),
    {
        push_mailbox(&mut self.reply_to, address);
    }

    /// Adds a `Reply-To` address.
    pub fn reply_to(self, address: Mailbox) -> (email: Email)
        ensures
            email@ == (EmailView { reply_to: self@.reply_to.push(address@), ..self@ }),
    {
        let mut email = self;
        email.add_reply_to(address);
        email
    }

    /// Adds a header. Headers of one name are all kept, in the order given.
    pub fn add_header(&mut self, header: Header)
        ensures
            final(self)@ == (EmailView {
                headers: old(self)@.headers.push(header@),
                ..old(self)@
            }),
    {
        self.headers.push(header);
        assert(headers_view(self.headers@) =~= headers_view(old(self).headers@).push(header@));
    }

    /// Adds a header.
    pub fn header(self, header: Header) -> (email: Email)
        ensures
            email@ == (EmailView { headers: self@.headers.push(header@), ..self@ }),
    {
        let mut email = self;
        email.add_header(header);
        email
    }

    /// Sets the date, in place of one set before.
    pub fn set_date(&mut self, date: &Timestamp)
        ensures
            final(self)@ == (EmailView { date: Some(*date), ..old(self)@ }),
    {
        self.date = Some(*date);
    }

    /// Sets the date.
    pub fn date(self, date: &Timestamp) -> (email: Email)
        ensures
            email@ == (EmailView { date: Some(*date), ..self@ }),
    {
        let mut email = self;
        email.set_date(date);
        email
    }

    /// Sets the subject, in place of one set before.
    pub fn set_subject(&mut self, subject: &str)
        ensures
            final(self)@ == (EmailView { subject: Some(subject@), ..old(self)@ }),
    {
        self.subject = Some(String::from_str(subject));
    }

    /// Sets the subject.
    pub fn subject(self, subject: &str) -> (email: Email)
        ensures
            email@ == (EmailView { subject: Some(subject@), ..self@ }),
    {
        let mut email = self;
        email.set_subject(subject);
        email
    }

    /// Sets the plain-text body, in place of one set before.
    pub fn set_plain_body(&mut self, body: &str)
        ensures
            final(self)@ == (EmailView { plain_body: Some(body@), ..old(self)@ }),
    {
        self.plain_body = Some(String::from_str(body));
    }

    /// Sets the plain-text body.
    pub fn plain_body(self, body: &str) -> (email: Email)
        ensures
            email@ == (EmailView { plain_body: Some(body@), ..self@ }),
    {
        let mut email = self;
        email.set_plain_body(body);
        email
    }

    /// Sets the HTML body, in place of one set before.
    pub fn set_html_body(&mut self, body: &str)
        ensures
            final(self)@ == (EmailView { html_body: Some(body@), ..old(self)@ }),
    {
        self.html_body = Some(String::from_str(body));
    }

    /// Sets the HTML body.
    pub fn html_body(self, body: &str) -> (email: Email)
        ensures
            email@ == (EmailView { html_body: Some(body@), ..self@ }),
    {
        let mut email = self;
        email.set_html_body(body);
        email
    }

    /// Adds the path of a file to attach. The file is not looked at before
    /// the draft is rendered.
    pub fn add_attachment(&mut self, attachment: &str)
        ensures
            final(self)@ == (EmailView {
                attachments: old(self)@.attachments.push(attachment@),
                ..old(self)@
            }),
    {
        self.attachments.push(String::from_str(attachment));
        assert(strings_view(self.attachments@) =~= strings_view(old(self).attachments@).push(
            attachment@,
        ));
    }

    /// Adds the path of a file to attach.
    pub fn attach(self, attachment: &str) -> (email: Email)
        ensures
            email@ == (EmailView { attachments: self@.attachments.push(attachment@), ..self@ }),
    {
        let mut email = self;
        email.add_attachment(attachment);
        email
    }

    /// The address that the message is sent from, if the draft names one:
    /// that of the `From` mailbox or the sender that was given last.
    pub fn envelope_sender(&self) -> (address: Option<String>)
        ensures
            text_view(address) == self@.envelope_sender,
    {
        match &self.envelope_sender {
            Some(address) => Some(address.clone()),
            None => None,
        }
    }

    /// The addresses that the message is sent to: those of the `To` and `Cc`
    /// mailboxes in the order in which they were given.
    pub fn envelope_recipients(&self) -> (list: &Vec<String>)
        ensures
            strings_view(list@) == self@.envelope_recipients,
    {
        &self.envelope_recipients
    }

    /// The paths of the files to attach, in the order in which they were added.
    pub fn attachments(&self) -> (paths: &Vec<String>)
        ensures
            strings_view(paths@) == self@.attachments,
    {
        &self.attachments
    }
}

} // verus!

//! From a draft to the rendered message: the flattened header list and the
//! body text.

use crate::address::{
    format_mailbox_list, mailbox_list_text, mailboxes_view, Mailbox, MailboxView, MAX_START,
};
use crate::assemble::{files_view, header, push_header};
use crate::base64::encodable;
use crate::boundary::random_seed;
use crate::date::{format_rfc822z, rfc822z_text, Timestamp};
use crate::draft::{lemma_view, Email, EmailView};
use crate::error::{BuilderError, Error, ErrorView, IoFailure};
use crate::part::{
    body_text, header_block, headers_view, line_end, Header, HeaderView, MimePart,
};
use email::{Header as WireHeader, MimeMessage};
use vstd::prelude::*;

verus! {

/// A rendered message as a mathematical value.
pub struct RenderedView {
    pub headers: Seq<HeaderView>,
    pub body: Seq<char>,
}

/// A message that is ready for the transport: all its headers in order, and
/// the text of its body.
#[derive(Debug)]
pub struct RenderedMessage {
    pub headers: Vec<Header>,
    pub body: String,
}

impl View for RenderedMessage {
    type V = RenderedView;

    open spec fn view(&self) -> RenderedView {
        RenderedView { headers: headers_view(self.headers@), body: self.body@ }
    }
}

/// The whole text of a message without children: its header block, an empty
/// line, its body and a line end.
pub open spec fn message_text(headers: Seq<HeaderView>, body: Seq<char>) -> Seq<char> {
    header_block(headers) + line_end() + body + line_end()
}

/// Writes headers and body as one text, by `email::MimeMessage::as_string` on
/// a blank message that was given the body and, with `HeaderMap::insert`,
/// each header in order. The outside function writes the header block, which
/// is named `header_block`, then an empty line, the body and a line end.
#[verifier::external_body]
fn serialize_message(headers: &Vec<Header>, body: &String) -> (text: String)
    ensures
        text@ == header_block(headers_view(headers@)) + line_end() + body@ + line_end(),
{
    let mut message = MimeMessage::new_blank_message();
    message.body = body.clone();
    for header in headers.iter() {
        message.headers.insert(WireHeader::new(header.name.clone(), header.value.clone()));
    }
    message.as_string()
}

impl RenderedMessage {
    /// The whole message as it goes to the server: the header block, an empty
    /// line, the body.
    pub fn to_text(&self) -> (text: String)
        ensures
            text@ == message_text(self@.headers, self@.body),
    {
        serialize_message(&self.headers, &self.body)
    }
}

/// No header for a value that is not set, one header for a value that is.
pub open spec fn optional_header(name: Seq<char>, value: Option<Seq<char>>) -> Seq<HeaderView> {
    match value {
        Some(value) => seq![header(name, value)],
        None => Seq::empty(),
    }
}

/// No header for an empty list, one header with all its mailboxes otherwise.
pub open spec fn address_header(name: Seq<char>, list: Seq<MailboxView>) -> Seq<HeaderView> {
    if list.len() == 0 {
        Seq::empty()
    } else {
        seq![header(name, mailbox_list_text(name.len() as int + 2, list))]
    }
}

/// The `Date` header, if a date is set.
pub open spec fn date_header(date: Option<Timestamp>) -> Seq<HeaderView> {
    match date {
        Some(date) => seq![header("Date"@, rfc822z_text(date))],
        None => Seq::empty(),
    }
}

/// The two headers that every message starts with.
pub open spec fn fixed_headers() -> Seq<HeaderView> {
    seq![header("X-Mailer"@, "JoistMailer"@), header("MIME-Version"@, "1.0"@)]
}

impl EmailView {
    /// What keeps the headers of the draft from being written, if anything:
    /// nobody to send from, nobody to send to, or a date that cannot be
    /// written down.
    pub open spec fn envelope_error(self) -> Option<BuilderError> {
        if self.from.len() == 0 && self.sender.len() == 0 {
            Some(BuilderError::MissingFrom)
        } else if self.to.len() == 0 && self.cc.len() == 0 {
            Some(BuilderError::MissingTo)
        } else if self.date matches Some(date) && !date.formattable() {
            Some(BuilderError::InvalidDate)
        } else {
            None
        }
    }

    /// The headers that the draft itself gives: the two fixed ones, those
    /// that were added, subject and date where set, and one header for each
    /// address list that is not empty.
    pub open spec fn message_headers(self) -> Seq<HeaderView> {
        fixed_headers() + self.headers + optional_header("Subject"@, self.subject) + date_header(
            self.date,
        ) + address_header("To"@, self.to) + address_header("From"@, self.from) + address_header(
            "Cc"@,
            self.cc,
        ) + address_header("Sender"@, self.sender) + address_header("Reply-To"@, self.reply_to)
    }

    /// The message for a tree with top `top`: the headers of the draft, then
    /// those of the top part; the body is the text of the tree below the top.
    pub open spec fn rendered(self, top: crate::part::PartView) -> RenderedView {
        RenderedView { headers: self.message_headers() + top.headers, body: body_text(top) }
    }

    /// What flattening gives for a tree with top `top`.
    pub open spec fn flattened(self, top: crate::part::PartView) -> Result<
        RenderedView,
        ErrorView,
    > {
        match self.envelope_error() {
            Some(reason) => Err(ErrorView::BuilderError(reason)),
            None => Ok(self.rendered(top)),
        }
    }

    /// What rendering gives where `files` are the bytes of the attachments
    /// and the seeds are what the boundaries are made from.
    pub open spec fn rendering(
        self,
        files: Seq<Seq<u8>>,
        alternative_seed: Seq<char>,
        mixed_seed: Seq<char>,
    ) -> Result<RenderedView, ErrorView> {
        if !self.has_body() {
            Err(ErrorView::BodyRequired)
        } else {
            self.flattened(self.tree(files, alternative_seed, mixed_seed))
        }
    }
}

/// A result of rendering as a mathematical value.
pub open spec fn rendering_view(result: Result<RenderedMessage, Error>) -> Result<
    RenderedView,
    ErrorView,
> {
    match result {
        Ok(message) => Ok(message@),
        Err(error) => Err(error@),
    }
}

/// `outcome` is what `read_file` can give for the file at `path`.
pub open spec fn reads<F: Fn(&str) -> Result<Vec<u8>, IoFailure>>(
    read_file: F,
    path: Seq<char>,
    outcome: Result<Vec<u8>, IoFailure>,
) -> bool {
    exists|p: &str| p@ == path && call_ensures(read_file, (p,), outcome)
}

/// `read_file` takes every path, and what it reads can be encoded.
pub open spec fn reader_ok<F: Fn(&str) -> Result<Vec<u8>, IoFailure>>(read_file: F) -> bool {
    &&& forall|p: &str| call_requires(read_file, (p,))
    &&& forall|p: &str, bytes: Vec<u8>| #[trigger]
        call_ensures(read_file, (p,), Ok(bytes)) ==> encodable(bytes@.len())
}

impl EmailView {
    /// `files` are what `read_file` gave for the first attachments, one by
    /// one and in order.
    pub open spec fn read_first<F: Fn(&str) -> Result<Vec<u8>, IoFailure>>(
        self,
        read_file: F,
        files: Seq<Vec<u8>>,
    ) -> bool {
        &&& files.len() <= self.attachments.len()
        &&& forall|i: int|
            0 <= i < files.len() ==> reads(read_file, self.attachments[i], Ok(#[trigger] files[i]))
    }

    /// `files` are what `read_file` gave for the attachments, one by one.
    pub open spec fn read_all<F: Fn(&str) -> Result<Vec<u8>, IoFailure>>(
        self,
        read_file: F,
        files: Seq<Vec<u8>>,
    ) -> bool {
        self.read_first(read_file, files) && files.len() == self.attachments.len()
    }

    /// `failure` is what `read_file` gave for the first attachment that
    /// could not be read: every attachment before it was read, and this one
    /// gave the failure.
    pub open spec fn read_failed<F: Fn(&str) -> Result<Vec<u8>, IoFailure>>(
        self,
        read_file: F,
        failure: IoFailure,
    ) -> bool {
        exists|files: Seq<Vec<u8>>| #[trigger]
            self.read_first(read_file, files) && files.len() < self.attachments.len() && reads(
                read_file,
                self.attachments[files.len() as int],
                Err(failure),
            )
    }

    /// What building the tree with `read_file` can give: without a body the
    /// error that says so; else the failure of a read, or the tree of the
    /// draft for what was read and some pair of seeds.
    pub open spec fn built<F: Fn(&str) -> Result<Vec<u8>, IoFailure>>(
        self,
        read_file: F,
        result: Result<MimePart, Error>,
    ) -> bool {
        if !self.has_body() {
            result matches Err(error) && error@ == ErrorView::BodyRequired
        } else {
            match result {
                Ok(part) => exists|files: Seq<Vec<u8>>, seed: Seq<char>, other: Seq<char>|
                    self.read_all(read_file, files) && part@ == #[trigger] self.tree(
                        files_view(files),
                        seed,
                        other,
                    ),
                Err(Error::Io(failure)) => self.read_failed(read_file, failure),
                Err(_) => false,
            }
        }
    }

    /// What rendering with `read_file` can give: what building the tree gives
    /// where that fails, else what flattening gives for the tree.
    pub open spec fn rendered_by<F: Fn(&str) -> Result<Vec<u8>, IoFailure>>(
        self,
        read_file: F,
        result: Result<RenderedMessage, Error>,
    ) -> bool {
        if !self.has_body() {
            result matches Err(error) && error@ == ErrorView::BodyRequired
        } else {
            match result {
                Err(Error::Io(failure)) => self.read_failed(read_file, failure),
                _ => exists|files: Seq<Vec<u8>>, seed: Seq<char>, other: Seq<char>|
                    self.read_all(read_file, files) && rendering_view(result)
                        == #[trigger] self.rendering(files_view(files), seed, other),
            }
        }
    }
}

/// Adds a copy of each of `more` at the end of `headers`.
fn append_headers(headers: &mut Vec<Header>, more: &Vec<Header>)
    ensures
        headers_view(final(headers)@) == headers_view(old(headers)@) + headers_view(more@),
{
    let ghost before = headers_view(headers@);
    let mut i: usize = 0;
    assert(before + headers_view(more@).take(0) =~= before);
    while i < more.len()
        invariant
            i <= more.len(),
            headers_view(headers@) == before + headers_view(more@).take(i as int),
        decreases more.len() - i,
    {
        let copy = more[i].clone();
        push_header(headers, copy);
        assert((before + headers_view(more@).take(i as int)).push(more@[i as int]@) =~= before
            + headers_view(more@).take(i + 1));
        i += 1;
    }
    assert(headers_view(more@).take(i as int) =~= headers_view(more@));
}

/// Adds the header for a list of mailboxes, unless the list is empty.
fn push_address_header(headers: &mut Vec<Header>, name: &str, start: usize, list: &Vec<Mailbox>)
    requires
        start == name@.len() + 2,
        start <= MAX_START,
    ensures
        headers_view(final(headers)@) == headers_view(old(headers)@) + address_header(
            name@,
            mailboxes_view(list@),
        ),
{
    if list.len() > 0 {
        let value = format_mailbox_list(start, list);
        push_header(headers, Header::new(name, value.as_str()));
        assert(headers_view(headers@) =~= headers_view(old(headers)@) + address_header(
            name@,
            mailboxes_view(list@),
        ));
    } else {
        assert(headers_view(headers@) =~= headers_view(old(headers)@) + address_header(
            name@,
            mailboxes_view(list@),
        ));
    }
}

impl Email {
    /// Tells what keeps the headers from being written, if anything does.
    pub fn check_envelope(&self) -> (problem: Option<BuilderError>)
        ensures
            problem == self@.envelope_error(),
    {
        proof {
            lemma_view(self);
        }
        if self.from.len() == 0 && self.sender.len() == 0 {
            return Some(BuilderError::MissingFrom);
        }
        if self.to.len() == 0 && self.cc.len() == 0 {
            return Some(BuilderError::MissingTo);
        }
        match &self.date {
            Some(date) => {
                if !date.is_formattable() {
                    return Some(BuilderError::InvalidDate);
                }
            },
            None => {},
        }
        None
    }

    /// Flattens the draft and a finished tree into the message: the headers
    /// of the draft, then the headers of the top part; the body is the text
    /// of the tree without the headers of its top.
    ///
    /// Fails exactly where the headers cannot be written, with the reason.
    pub fn flatten(&self, top: &MimePart) -> (result: Result<RenderedMessage, Error>)
        ensures
            rendering_view(result) == self@.flattened(top@),
            top@.children.len() == 0 ==> (result matches Ok(message) ==> message@.body
                == top@.body + line_end()),
    {
        proof {
            lemma_view(self);
        }
        match self.check_envelope() {
            Some(reason) => {
                return Err(Error::BuilderError(reason));
            },
            None => {},
        }
        let mut headers: Vec<Header> = Vec::new();
        push_header(&mut headers, Header::new("X-Mailer", "JoistMailer"));
        push_header(&mut headers, Header::new("MIME-Version", "1.0"));
        assert(headers_view(headers@) =~= fixed_headers());
        append_headers(&mut headers, &self.headers);
        let ghost so_far = headers_view(headers@);
        match &self.subject {
            Some(subject) => {
                push_header(&mut headers, Header::new("Subject", subject.as_str()));
            },
            None => {},
        }
        assert(headers_view(headers@) =~= so_far + optional_header("Subject"@, self@.subject));
        let ghost so_far = headers_view(headers@);
        match &self.date {
            Some(date) => {
                let value = format_rfc822z(date);
                push_header(&mut headers, Header::new("Date", value.as_str()));
            },
            None => {},
        }
        assert(headers_view(headers@) =~= so_far + date_header(self@.date));
        proof {
            reveal_strlit("To");
            reveal_strlit("From");
            reveal_strlit("Cc");
            reveal_strlit("Sender");
            reveal_strlit("Reply-To");
        }
        push_address_header(&mut headers, "To", 4, &self.to);
        push_address_header(&mut headers, "From", 6, &self.from);
        push_address_header(&mut headers, "Cc", 4, &self.cc);
        push_address_header(&mut headers, "Sender", 8, &self.sender);
        push_address_header(&mut headers, "Reply-To", 10, &self.reply_to);
        assert(headers_view(headers@) == self@.message_headers());
        append_headers(&mut headers, &top.headers);
        let body = top.body_text();
        Ok(RenderedMessage { headers, body })
    }

    /// Renders the draft from the bytes of its attachments and two seeds for
    /// the boundaries: builds the tree, then flattens it.
    pub fn render_with(
        &self,
        files: &Vec<Vec<u8>>,
        alternative_seed: &str,
        mixed_seed: &str,
    ) -> (result: Result<RenderedMessage, Error>)
        requires
            files@.len() == self@.attachments.len(),
            forall|i: int| 0 <= i < files@.len() ==> encodable((#[trigger] files@[i])@.len()),
        ensures
            rendering_view(result) == self@.rendering(
                files_view(files@),
                alternative_seed@,
                mixed_seed@,
            ),
            self@.top_kind() is None ==> (result matches Ok(message) ==> message@.body
                == self@.only_body() + line_end()),
    {
        match self.assemble(files, alternative_seed, mixed_seed) {
            Ok(top) => self.flatten(&top),
            Err(error) => Err(error),
        }
    }

    /// Reads the attachments in order with `read_file` and stops at the
    /// first that cannot be read.
    fn read_attachments<F: Fn(&str) -> Result<Vec<u8>, IoFailure>>(&self, read_file: F) -> (result:
        Result<Vec<Vec<u8>>, IoFailure>)
        requires
            reader_ok(read_file),
        ensures
            match result {
                Ok(files) => self@.read_all(read_file, files@) && forall|i: int|
                    0 <= i < files@.len() ==> encodable((#[trigger] files@[i])@.len()),
                Err(failure) => self@.read_failed(read_file, failure),
            },
    {
        proof {
            lemma_view(self);
        }
        let mut files: Vec<Vec<u8>> = Vec::new();
        let mut i: usize = 0;
        while i < self.attachments.len()
            invariant
                reader_ok(read_file),
                i <= self.attachments.len(),
                files@.len() == i,
                self@.attachments.len() == self.attachments@.len(),
                forall|k: int|
                    0 <= k < self.attachments@.len() ==> self@.attachments[k]
                        == (#[trigger] self.attachments@[k])@,
                forall|k: int|
                    0 <= k < i ==> reads(read_file, self@.attachments[k], Ok(#[trigger] files@[k])),
                forall|k: int| 0 <= k < i ==> encodable((#[trigger] files@[k])@.len()),
            decreases self.attachments.len() - i,
        {
            let path = self.attachments[i].as_str();
            match read_file(path) {
                Ok(bytes) => {
                    assert(reads(read_file, self@.attachments[i as int], Ok(bytes)));
                    files.push(bytes);
                },
                Err(failure) => {
                    assert(reads(read_file, self@.attachments[i as int], Err(failure)));
                    assert(self@.read_first(read_file, files@));
                    return Err(failure);
                },
            }
            i += 1;
        }
        Ok(files)
    }

    /// Builds the MIME tree of the draft. The files to attach are read with
    /// `read_file`, in order, and only if the draft has a body; the first
    /// read that fails ends the work.
    pub fn build_mime_message<F: Fn(&str) -> Result<Vec<u8>, IoFailure>>(
        &self,
        read_file: F,
    ) -> (result: Result<MimePart, Error>)
        requires
            reader_ok(read_file),
        ensures
            self@.built(read_file, result),
            result matches Ok(part) ==> {
                &&& part@.kind == self@.top_kind()
                &&& part@.well_formed()
                &&& part@.boundaries_distinct()
                &&& part@.boundaries_clear()
            },
    {
        proof {
            lemma_view(self);
        }
        if self.plain_body.is_none() && self.html_body.is_none() {
            return Err(Error::BodyRequired);
        }
        let files = match self.read_attachments(read_file) {
            Ok(files) => files,
            Err(failure) => {
                return Err(Error::Io(failure));
            },
        };
        let seed = random_seed();
        let other = random_seed();
        let result = self.assemble(&files, seed.as_str(), other.as_str());
        assert(result matches Ok(part) && part@ == self@.tree(files_view(files@), seed@, other@));
        result
    }

    /// Renders the draft. The files to attach are read with `read_file`.
    ///
    /// Without a body nothing is read and the error says so. A read that
    /// fails gives its failure. Else the result is what flattening gives for
    /// the tree of the draft: a message, or the reason why the headers cannot
    /// be written.
    pub fn render<F: Fn(&str) -> Result<Vec<u8>, IoFailure>>(&self, read_file: F) -> (result:
        Result<RenderedMessage, Error>)
        requires
            reader_ok(read_file),
        ensures
            self@.rendered_by(read_file, result),
            self@.top_kind() is None ==> (result matches Ok(message) ==> message@.body
                == self@.only_body() + line_end()),
    {
        proof {
            lemma_view(self);
        }
        if self.plain_body.is_none() && self.html_body.is_none() {
            return Err(Error::BodyRequired);
        }
        let files = match self.read_attachments(read_file) {
            Ok(files) => files,
            Err(failure) => {
                return Err(Error::Io(failure));
            },
        };
        let seed = random_seed();
        let other = random_seed();
        let result = self.render_with(&files, seed.as_str(), other.as_str());
        assert(rendering_view(result) == self@.rendering(files_view(files@), seed@, other@));
        result
    }
}

} // verus!

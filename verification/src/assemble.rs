//! From a draft and the bytes of its attachments to the MIME tree.

use crate::base64::{encodable, mime_base64, to_base64};
use crate::boundary::{chars_of, fresh_token, make_boundary, texts_view};
use crate::draft::{lemma_view, Email, EmailView};
use crate::error::{Error, ErrorView};
use crate::laws::{lemma_boundaries, lemma_well_formed};
use crate::part::{headers_view, parts_view, Header, HeaderView, MimePart, MultipartKind, PartView};
use vstd::prelude::*;

verus! {

/// The text that stands before the first child of every composite part.
pub open spec fn preamble() -> Seq<char> {
    "This is a multipart message in MIME format."@
}

pub open spec fn html_type() -> Seq<char> {
    "text/html; charset=\"ascii\""@
}

pub open spec fn plain_type() -> Seq<char> {
    "text/plain; charset=\"ascii\""@
}

pub open spec fn header(name: Seq<char>, value: Seq<char>) -> HeaderView {
    HeaderView { name, value }
}

/// The two headers of a text body of the given content type.
pub open spec fn text_headers(content_type: Seq<char>) -> Seq<HeaderView> {
    seq![header("Content-Type"@, content_type), header("Content-Transfer-Encoding"@, "7bit"@)]
}

/// The leaf that holds a text body as it is.
pub open spec fn text_leaf(content_type: Seq<char>, text: Seq<char>) -> PartView {
    PartView::leaf(text_headers(content_type), text)
}

pub open spec fn html_leaf(text: Seq<char>) -> PartView {
    text_leaf(html_type(), text)
}

pub open spec fn plain_leaf(text: Seq<char>) -> PartView {
    text_leaf(plain_type(), text)
}

/// Where the last component of `path` starts: behind its last `/`.
pub open spec fn name_start(path: Seq<char>) -> int
    decreases path.len(),
{
    if path.len() == 0 || path.last() == '/' {
        path.len() as int
    } else {
        name_start(path.drop_last())
    }
}

/// The last component of `path`, taken as it is.
pub open spec fn file_name(path: Seq<char>) -> Seq<char> {
    path.subrange(name_start(path), path.len() as int)
}

/// The three headers of the attachment that was read from `path`.
pub open spec fn attachment_headers(path: Seq<char>) -> Seq<HeaderView> {
    seq![
        header("Content-Disposition"@, "attachment; filename=\""@ + file_name(path) + "\""@),
        header("Content-Type"@, "application/octet-stream"@),
        header("Content-Transfer-Encoding"@, "base64"@),
    ]
}

/// The leaf that holds the file read from `path` in base64.
pub open spec fn attachment_leaf(path: Seq<char>, bytes: Seq<u8>) -> PartView {
    PartView::leaf(attachment_headers(path), mime_base64(bytes))
}

/// The byte sequences of the files, in the same order.
pub open spec fn files_view(files: Seq<Vec<u8>>) -> Seq<Seq<u8>> {
    Seq::new(files.len(), |i: int| files[i]@)
}

impl EmailView {
    /// The bodies that are set, the HTML body first.
    pub open spec fn body_texts(self) -> Seq<Seq<char>> {
        (match self.html_body {
            Some(text) => seq![text],
            None => Seq::empty(),
        }) + (match self.plain_body {
            Some(text) => seq![text],
            None => Seq::empty(),
        })
    }

    /// The boundary of the part that holds the two bodies.
    pub open spec fn alternative_boundary(self, seed: Seq<char>) -> Seq<char> {
        fresh_token(seed, self.body_texts())
    }

    /// The part that stands for the body: the one body that is set, or both
    /// as alternatives, the HTML body first and the plain body last.
    pub open spec fn body_part(self, seed: Seq<char>) -> PartView {
        match (self.html_body, self.plain_body) {
            (Some(html), Some(plain)) => PartView::multipart(
                MultipartKind::Alternative,
                self.alternative_boundary(seed),
                preamble(),
                seq![html_leaf(html), plain_leaf(plain)],
            ),
            (Some(html), None) => html_leaf(html),
            (None, Some(plain)) => plain_leaf(plain),
            (None, None) => PartView::leaf(Seq::empty(), Seq::empty()),
        }
    }

    /// The texts that the boundary of the outer part must not occur in: the
    /// bodies, and the boundary of the part that holds them where there is one.
    pub open spec fn mixed_texts(self, alternative_seed: Seq<char>) -> Seq<Seq<char>> {
        if self.html_body is Some && self.plain_body is Some {
            self.body_texts().push(self.alternative_boundary(alternative_seed))
        } else {
            self.body_texts()
        }
    }

    /// The boundary of the part that holds body and attachments.
    pub open spec fn mixed_boundary(
        self,
        alternative_seed: Seq<char>,
        mixed_seed: Seq<char>,
    ) -> Seq<char> {
        fresh_token(mixed_seed, self.mixed_texts(alternative_seed))
    }

    /// One leaf for each attachment, in the order in which they were added.
    pub open spec fn attachment_parts(self, files: Seq<Seq<u8>>) -> Seq<PartView> {
        Seq::new(self.attachments.len(), |i: int| attachment_leaf(self.attachments[i], files[i]))
    }

    /// The MIME tree of a draft that has a body, where `files` are the bytes
    /// of its attachments and the two seeds are what the boundaries are made
    /// from.
    pub open spec fn tree(
        self,
        files: Seq<Seq<u8>>,
        alternative_seed: Seq<char>,
        mixed_seed: Seq<char>,
    ) -> PartView {
        if self.attachments.len() == 0 {
            self.body_part(alternative_seed)
        } else {
            PartView::multipart(
                MultipartKind::Mixed,
                self.mixed_boundary(alternative_seed, mixed_seed),
                preamble(),
                seq![self.body_part(alternative_seed)] + self.attachment_parts(files),
            )
        }
    }

    /// The body that is set, where only one is.
    pub open spec fn only_body(self) -> Seq<char> {
        match (self.html_body, self.plain_body) {
            (Some(html), None) => html,
            (None, Some(plain)) => plain,
            _ => Seq::empty(),
        }
    }

    /// The kind of the top of the tree.
    pub open spec fn top_kind(self) -> Option<MultipartKind> {
        if self.attachments.len() > 0 {
            Some(MultipartKind::Mixed)
        } else if self.html_body is Some && self.plain_body is Some {
            Some(MultipartKind::Alternative)
        } else {
            None
        }
    }
}

/// Adds `header` at the end of `headers`.
pub(crate) fn push_header(headers: &mut Vec<Header>, header: Header)
    ensures
        headers_view(final(headers)@) == headers_view(old(headers)@).push(header@),
{
    headers.push(header);
    assert(headers_view(headers@) =~= headers_view(old(headers)@).push(header@));
}

/// Adds `part` at the end of `parts`.
fn push_part(parts: &mut Vec<MimePart>, part: MimePart)
    ensures
        parts_view(final(parts)@) == parts_view(old(parts)@).push(part@),
{
    parts.push(part);
    assert(parts_view(parts@) =~= parts_view(old(parts)@).push(part@));
}

/// The text that stands before the first child of a composite part.
fn make_preamble() -> (text: String)
    ensures
        text@ == preamble(),
{
    String::from_str("This is a multipart message in MIME format.")
}

/// The leaf for a text body.
fn make_text_leaf(content_type: &str, text: &str) -> (part: MimePart)
    ensures
        part@ == text_leaf(content_type@, text@),
{
    let mut headers: Vec<Header> = Vec::new();
    push_header(&mut headers, Header::new("Content-Type", content_type));
    push_header(&mut headers, Header::new("Content-Transfer-Encoding", "7bit"));
    assert(headers_view(headers@) =~= text_headers(content_type@));
    MimePart::leaf(headers, String::from_str(text))
}

/// The last component of `path`: what follows its last `/`, or all of it.
pub fn file_name_of(path: &str) -> (name: String)
    ensures
        name@ == file_name(path@),
{
    let chars = chars_of(path);
    let mut start: usize = chars.len();
    assert(chars@.take(start as int) =~= chars@);
    while start > 0 && chars[start - 1] != '/'
        invariant
            start <= chars.len(),
            chars@ == path@,
            name_start(path@) == name_start(path@.take(start as int)),
        decreases start,
    {
        assert(path@.take(start as int).drop_last() =~= path@.take(start - 1));
        start -= 1;
    }
    String::from_str(path.substring_char(start, chars.len()))
}

/// The leaf for the file that was read from `path`.
fn make_attachment_leaf(path: &str, bytes: &Vec<u8>) -> (part: MimePart)
    requires
        encodable(bytes@.len()),
    ensures
        part@ == attachment_leaf(path@, bytes@),
{
    let mut disposition = String::from_str("attachment; filename=\"");
    let name = file_name_of(path);
    disposition.append(name.as_str());
    disposition.append("\"");
    let mut headers: Vec<Header> = Vec::new();
    push_header(&mut headers, Header::new("Content-Disposition", disposition.as_str()));
    push_header(&mut headers, Header::new("Content-Type", "application/octet-stream"));
    push_header(&mut headers, Header::new("Content-Transfer-Encoding", "base64"));
    assert(headers_view(headers@) =~= attachment_headers(path@));
    MimePart::leaf(headers, to_base64(bytes))
}

impl Email {
    /// Builds the MIME tree of the draft from the bytes of its attachments
    /// and two seeds for the boundaries.
    ///
    /// Without a body there is no tree. With one, the tree is exactly
    /// `tree` of the draft: the body part alone, or a mixed part that holds
    /// the body part and then one leaf for each attachment in order.
    pub fn assemble(
        &self,
        files: &Vec<Vec<u8>>,
        alternative_seed: &str,
        mixed_seed: &str,
    ) -> (result: Result<MimePart, Error>)
        requires
            files@.len() == self@.attachments.len(),
            forall|i: int| 0 <= i < files@.len() ==> encodable((#[trigger] files@[i])@.len()),
        ensures
            match result {
                Ok(part) => self@.has_body() && part@ == self@.tree(
                    files_view(files@),
                    alternative_seed@,
                    mixed_seed@,
                ),
                Err(error) => !self@.has_body() && error@ == ErrorView::BodyRequired,
            },
            result matches Ok(part) ==> {
                &&& part@.kind == self@.top_kind()
                &&& part@.well_formed()
                &&& part@.boundaries_distinct()
                &&& part@.boundaries_clear()
            },
    {
        proof {
            lemma_view(self);
            if self@.has_body() {
                lemma_well_formed(self@, files_view(files@), alternative_seed@, mixed_seed@);
                lemma_boundaries(self@, files_view(files@), alternative_seed@, mixed_seed@);
            }
        }
        let mut texts: Vec<Vec<char>> = Vec::new();
        let html = match &self.html_body {
            Some(text) => {
                texts.push(chars_of(text.as_str()));
                Some(make_text_leaf("text/html; charset=\"ascii\"", text.as_str()))
            },
            None => None,
        };
        let plain = match &self.plain_body {
            Some(text) => {
                texts.push(chars_of(text.as_str()));
                Some(make_text_leaf("text/plain; charset=\"ascii\"", text.as_str()))
            },
            None => None,
        };
        assert(texts_view(texts@) =~= self@.body_texts());
        let body = match (html, plain) {
            (Some(html), Some(plain)) => {
                let boundary = make_boundary(alternative_seed, &texts);
                texts.push(chars_of(boundary.as_str()));
                let mut children: Vec<MimePart> = Vec::new();
                push_part(&mut children, html);
                push_part(&mut children, plain);
                assert(parts_view(children@) =~= seq![
                    html_leaf(self@.html_body.unwrap()),
                    plain_leaf(self@.plain_body.unwrap()),
                ]);
                MimePart::multipart(
                    MultipartKind::Alternative,
                    boundary,
                    make_preamble(),
                    children,
                )
            },
            (Some(html), None) => html,
            (None, Some(plain)) => plain,
            (None, None) => {
                return Err(Error::BodyRequired);
            },
        };
        assert(body@ == self@.body_part(alternative_seed@));
        assert(texts_view(texts@) =~= self@.mixed_texts(alternative_seed@));
        if self.attachments.len() == 0 {
            return Ok(body);
        }
        let boundary = make_boundary(mixed_seed, &texts);
        let ghost expected = seq![self@.body_part(alternative_seed@)] + self@.attachment_parts(
            files_view(files@),
        );
        let mut children: Vec<MimePart> = Vec::new();
        push_part(&mut children, body);
        assert(parts_view(children@) =~= expected.take(1));
        let mut i: usize = 0;
        while i < self.attachments.len()
            invariant
                i <= self.attachments.len(),
                files@.len() == self.attachments@.len(),
                self@.attachments.len() == self.attachments@.len(),
                forall|k: int| 0 <= k < files@.len() ==> encodable((#[trigger] files@[k])@.len()),
                expected == seq![self@.body_part(alternative_seed@)] + self@.attachment_parts(
                    files_view(files@),
                ),
                parts_view(children@) == expected.take(i + 1),
                forall|k: int|
                    0 <= k < self.attachments@.len() ==> self@.attachments[k]
                        == (#[trigger] self.attachments@[k])@,
            decreases self.attachments.len() - i,
        {
            let leaf = make_attachment_leaf(self.attachments[i].as_str(), &files[i]);
            proof {
                assert(files_view(files@)[i as int] == files@[i as int]@);
                assert(expected[i + 1] == leaf@);
                assert(expected.take(i + 1).push(leaf@) =~= expected.take(i + 2));
            }
            push_part(&mut children, leaf);
            i += 1;
        }
        assert(expected.take(i + 1) =~= expected);
        Ok(
            MimePart::multipart(
                MultipartKind::Mixed,
                boundary,
                make_preamble(),
                children,
            ),
        )
    }
}

} // verus!

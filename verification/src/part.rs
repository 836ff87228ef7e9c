//! The MIME tree: header fields, parts and their mathematical views.

use email::{Header as WireHeader, MimeMessage};
use vstd::prelude::*;

verus! {

/// A header field as a pair of character sequences.
pub struct HeaderView {
    pub name: Seq<char>,
    pub value: Seq<char>,
}

/// A header field. The case of the name is kept as given.
#[derive(Debug)]
pub struct Header {
    pub name: String,
    pub value: String,
}

impl View for Header {
    type V = HeaderView;

    open spec fn view(&self) -> HeaderView {
        HeaderView { name: self.name@, value: self.value@ }
    }
}

impl Clone for Header {
    fn clone(&self) -> (copy: Header)
        ensures
            copy@ == self@,
    {
        Header { name: self.name.clone(), value: self.value.clone() }
    }
}

impl Header {
    pub fn new(name: &str, value: &str) -> (header: Header)
        ensures
            header@ == (HeaderView { name: name@, value: value@ }),
    {
        Header { name: String::from_str(name), value: String::from_str(value) }
    }
}

/// The views of a sequence of header fields, in the same order.
pub open spec fn headers_view(headers: Seq<Header>) -> Seq<HeaderView> {
    Seq::new(headers.len(), |i: int| headers[i]@)
}

/// The subtype of a composite part.
#[derive(Clone, Copy, Debug, PartialEq, Eq, Structural)]
pub enum MultipartKind {
    /// The children are renderings of the same content; the last one that a
    /// reader understands is shown.
    Alternative,
    /// The children are separate items that are all shown.
    Mixed,
}

pub open spec fn subtype_text(kind: MultipartKind) -> Seq<char> {
    match kind {
        MultipartKind::Alternative => "alternative"@,
        MultipartKind::Mixed => "mixed"@,
    }
}

/// The value of the `Content-Type` header of a composite part.
pub open spec fn multipart_content_type(kind: MultipartKind, boundary: Seq<char>) -> Seq<char> {
    "multipart/"@ + subtype_text(kind) + "; boundary=\""@ + boundary + "\""@
}

/// The `Content-Type` header of a composite part.
pub open spec fn multipart_header(kind: MultipartKind, boundary: Seq<char>) -> HeaderView {
    HeaderView { name: "Content-Type"@, value: multipart_content_type(kind, boundary) }
}

impl MultipartKind {
    pub fn subtype(self) -> (text: &'static str)
        ensures
            text@ == subtype_text(self),
    {
        match self {
            MultipartKind::Alternative => "alternative",
            MultipartKind::Mixed => "mixed",
        }
    }

    /// The `Content-Type` header that a composite part of this kind carries.
    pub fn content_type_header(self, boundary: &str) -> (header: Header)
        ensures
            header@ == multipart_header(self, boundary@),
    {
        let mut value = String::from_str("multipart/");
        value.append(self.subtype());
        value.append("; boundary=\"");
        value.append(boundary);
        value.append("\"");
        Header { name: String::from_str("Content-Type"), value }
    }
}

/// A node of the MIME tree as a mathematical value.
///
/// A leaf has no kind and no children, and `body` is its content. A composite
/// has a kind, and `body` is the preamble that precedes its children.
pub struct PartView {
    pub headers: Seq<HeaderView>,
    pub body: Seq<char>,
    pub kind: Option<MultipartKind>,
    pub boundary: Seq<char>,
    pub children: Seq<PartView>,
}

/// A node of the MIME tree.
#[derive(Debug)]
pub struct MimePart {
    pub headers: Vec<Header>,
    pub body: String,
    pub kind: Option<MultipartKind>,
    pub boundary: String,
    pub children: Vec<MimePart>,
}

/// The tree that `part` stands for.
pub open spec fn tree_of(part: MimePart) -> PartView
    decreases part,
{
    PartView {
        headers: headers_view(part.headers@),
        body: part.body@,
        kind: part.kind,
        boundary: part.boundary@,
        children: Seq::new(
            part.children@.len(),
            |i: int|
                if 0 <= i < part.children@.len() {
                    tree_of(part.children@[i])
                } else {
                    arbitrary()
                },
        ),
    }
}

impl View for MimePart {
    type V = PartView;

    open spec fn view(&self) -> PartView {
        tree_of(*self)
    }
}

impl PartView {
    /// A leaf with the given headers and content.
    pub open spec fn leaf(headers: Seq<HeaderView>, content: Seq<char>) -> PartView {
        PartView { headers, body: content, kind: None, boundary: Seq::empty(), children: Seq::empty() }
    }

    /// A composite part with its one `Content-Type` header.
    pub open spec fn multipart(
        kind: MultipartKind,
        boundary: Seq<char>,
        preamble: Seq<char>,
        children: Seq<PartView>,
    ) -> PartView {
        PartView {
            headers: seq![multipart_header(kind, boundary)],
            body: preamble,
            kind: Some(kind),
            boundary,
            children,
        }
    }

    pub open spec fn is_leaf(self) -> bool {
        self.kind is None
    }

    /// The part reached from this one by taking, at each level, the child
    /// whose index the path gives.
    pub open spec fn part_at(self, path: Seq<int>) -> Option<PartView>
        decreases path.len(),
    {
        if path.len() == 0 {
            Some(self)
        } else if 0 <= path[0] < self.children.len() {
            self.children[path[0]].part_at(path.drop_first())
        } else {
            None
        }
    }

    /// What holds of a single node: a leaf has no children and no boundary
    /// parameter; a composite has children and carries exactly the
    /// `Content-Type` header that names its subtype and its boundary.
    pub open spec fn node_ok(self) -> bool {
        match self.kind {
            None => self.children.len() == 0 && self.boundary.len() == 0,
            Some(kind) => self.children.len() > 0 && self.headers == seq![
                multipart_header(kind, self.boundary),
            ],
        }
    }

    /// Every node of the tree is in order.
    pub open spec fn well_formed(self) -> bool {
        forall|path: Seq<int>| #[trigger]
            self.part_at(path) matches Some(part) ==> part.node_ok()
    }
}

/// The end of a line.
pub open spec fn line_end() -> Seq<char> {
    seq!['\r', '\n']
}

/// The line that opens a child of the part with this boundary.
pub open spec fn delimiter(boundary: Seq<char>) -> Seq<char> {
    seq!['-', '-'] + boundary + line_end()
}

/// The line that follows the last child of the part with this boundary.
pub open spec fn closing(boundary: Seq<char>) -> Seq<char> {
    seq!['-', '-'] + boundary + seq!['-', '-'] + line_end()
}

/// The lines that `email::MimeMessage::as_string` writes for the headers of a
/// message: each header in turn, folded where it is long, with a line end
/// behind it.
pub uninterp spec fn header_block(headers: Seq<HeaderView>) -> Seq<char>;

/// The frames of the first `count` children of `part`: for each child the
/// delimiter line, its header block, an empty line, its text and a line end.
pub open spec fn frames(part: PartView, count: nat) -> Seq<char>
    decreases part, count,
{
    if count == 0 || count > part.children.len() {
        Seq::empty()
    } else {
        let child = part.children[count - 1];
        frames(part, (count - 1) as nat) + delimiter(part.boundary) + header_block(child.headers)
            + line_end() + body_text(child) + line_end()
    }
}

/// The text of a part without its own headers: its body and a line end, and
/// where it has children, the frame of each in order and the closing line.
pub open spec fn body_text(part: PartView) -> Seq<char>
    decreases part, part.children.len() + 1,
{
    part.body + line_end() + (if part.children.len() == 0 {
        Seq::empty()
    } else {
        frames(part, part.children.len()) + closing(part.boundary)
    })
}

#[verifier::external_type_specification]
#[verifier::external_body]
pub struct ExMimeMessage(email::MimeMessage);

/// Builds the `email::MimeMessage` that holds what `part` holds: starts from
/// `MimeMessage::new_blank_message`, then sets body and boundary and adds each
/// header with `HeaderMap::insert` and each child in order. Nothing is stated
/// of the result.
#[verifier::external_body]
fn wire_message(part: &MimePart) -> MimeMessage {
    let mut message = MimeMessage::new_blank_message();
    message.body = part.body.clone();
    message.boundary = part.boundary.clone();
    for header in part.headers.iter() {
        message.headers.insert(WireHeader::new(header.name.clone(), header.value.clone()));
    }
    for child in part.children.iter() {
        message.children.push(wire_message(child));
    }
    message
}

/// Serialises the tree below `part`, without the headers of `part` itself, by
/// `email::MimeMessage::as_string_without_headers`. The contract states the
/// frame that the outside function writes: the body and a line end, then for
/// each child the delimiter line, what `as_string` gives for the child and a
/// line end, then the closing line. What `as_string` gives for a child is its
/// header block, an empty line and its text without headers.
#[verifier::external_body]
pub(crate) fn serialize_body(part: &MimePart) -> (text: String)
    ensures
        text@ == body_text(part@),
        part@.children.len() == 0 ==> text@ == part@.body + line_end(),
{
    wire_message(part).as_string_without_headers()
}

impl MimePart {
    /// A leaf part.
    pub fn leaf(headers: Vec<Header>, content: String) -> (part: MimePart)
        ensures
            part@ == PartView::leaf(headers_view(headers@), content@),
    {
        let part = MimePart {
            headers,
            body: content,
            kind: None,
            boundary: String::new(),
            children: Vec::new(),
        };
        assert(part@.children =~= Seq::empty());
        part
    }

    /// A composite part. Its `Content-Type` header is made from the kind and
    /// the boundary.
    pub fn multipart(
        kind: MultipartKind,
        boundary: String,
        preamble: String,
        children: Vec<MimePart>,
    ) -> (part: MimePart)
        ensures
            part@ == PartView::multipart(kind, boundary@, preamble@, parts_view(children@)),
    {
        let mut headers: Vec<Header> = Vec::new();
        headers.push(kind.content_type_header(boundary.as_str()));
        let part = MimePart { headers, body: preamble, kind: Some(kind), boundary, children };
        assert(part@.headers =~= seq![multipart_header(kind, part@.boundary)]);
        assert(part@.children =~= parts_view(children@));
        part
    }

    pub fn is_leaf(&self) -> (leaf: bool)
        ensures
            leaf == self@.is_leaf(),
    {
        self.kind.is_none()
    }

    /// The text of the part without its own headers, as it goes on the wire.
    pub fn body_text(&self) -> (text: String)
        ensures
            text@ == body_text(self@),
            self@.children.len() == 0 ==> text@ == self@.body + line_end(),
    {
        serialize_body(self)
    }
}

/// The views of a sequence of parts, in the same order.
pub open spec fn parts_view(parts: Seq<MimePart>) -> Seq<PartView> {
    Seq::new(parts.len(), |i: int| parts[i]@)
}

} // verus!

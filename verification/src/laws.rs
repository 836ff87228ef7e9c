//! What holds of every tree that is built from a draft.

use crate::assemble::{
    attachment_leaf, html_leaf, html_type, plain_leaf, plain_type, text_headers,
};
use crate::base64::{decode, lemma_base64_round_trip, strip_breaks};
use crate::boundary::{
    lemma_fresh_token_absent, lemma_fresh_token_not_in_base64, occurs, occurs_at,
};
use crate::draft::EmailView;
use crate::base64::mime_base64;
use crate::part::{
    body_text, delimiter, frames, header_block, line_end, multipart_header, MultipartKind,
    PartView,
};
use vstd::prelude::*;

verus! {

/// Two trees have the same nesting and the same content. Their boundaries,
/// and with them the headers of their composite parts, may differ.
pub open spec fn same_shape(a: PartView, b: PartView) -> bool
    decreases a,
{
    &&& a.kind == b.kind
    &&& a.body == b.body
    &&& a.kind is None ==> a.headers == b.headers
    &&& a.children.len() == b.children.len()
    &&& forall|i: int|
        0 <= i < a.children.len() ==> same_shape(#[trigger] a.children[i], b.children[i])
}

impl PartView {
    /// No two composite parts of the tree have the same boundary.
    pub open spec fn boundaries_distinct(self) -> bool {
        forall|p: Seq<int>, q: Seq<int>|
            p != q ==> match (#[trigger] self.part_at(p), #[trigger] self.part_at(q)) {
                (Some(a), Some(b)) => a.kind is Some && b.kind is Some ==> a.boundary
                    != b.boundary,
                _ => true,
            }
    }

    /// No boundary of the tree is a substring of the content of one of its
    /// leaves.
    pub open spec fn boundaries_clear(self) -> bool {
        forall|p: Seq<int>, q: Seq<int>|
            match (#[trigger] self.part_at(p), #[trigger] self.part_at(q)) {
                (Some(a), Some(b)) => a.kind is Some && b.kind is None ==> !occurs(
                    a.boundary,
                    b.body,
                ),
                _ => true,
            }
    }
}

impl EmailView {
    /// `part` is a leaf that holds one of the bodies of the draft.
    pub open spec fn is_body_leaf(self, part: PartView) -> bool {
        ||| self.html_body matches Some(html) && part == html_leaf(html)
        ||| self.plain_body matches Some(plain) && part == plain_leaf(plain)
    }

    /// `part` is the leaf of one of the attachments.
    pub open spec fn is_attachment_leaf(self, files: Seq<Seq<u8>>, part: PartView) -> bool {
        exists|i: int|
            0 <= i < self.attachments.len() && part == #[trigger] attachment_leaf(
                self.attachments[i],
                files[i],
            )
    }

    /// What stands at `path` in the tree of the draft, where anything does:
    /// the mixed part at the top, the part of the two bodies at the top or as
    /// first child, or a leaf with a body or an attachment.
    pub open spec fn stands_at(
        self,
        files: Seq<Seq<u8>>,
        seed: Seq<char>,
        other: Seq<char>,
        path: Seq<int>,
        part: PartView,
    ) -> bool {
        let both = self.html_body is Some && self.plain_body is Some;
        let mixed = self.attachments.len() > 0;
        ||| mixed && path.len() == 0 && part == self.tree(files, seed, other)
        ||| both && path == (if mixed {
            seq![0int]
        } else {
            Seq::<int>::empty()
        }) && part == self.body_part(seed)
        ||| self.is_body_leaf(part)
        ||| self.is_attachment_leaf(files, part)
    }
}

/// A leaf has nothing below it.
proof fn lemma_below_leaf(leaf: PartView, path: Seq<int>)
    requires
        leaf.children.len() == 0,
        path.len() > 0,
    ensures
        leaf.part_at(path) is None,
{
}

/// What stands at a path below the part of the bodies.
proof fn lemma_in_body_part(d: EmailView, seed: Seq<char>, path: Seq<int>)
    requires
        d.has_body(),
    ensures
        match d.body_part(seed).part_at(path) {
            Some(part) => if path.len() == 0 {
                part == d.body_part(seed)
            } else {
                d.is_body_leaf(part)
            },
            None => true,
        },
{
    let body = d.body_part(seed);
    if path.len() > 0 && 0 <= path[0] < body.children.len() {
        let child = body.children[path[0]];
        let rest = path.drop_first();
        assert(d.is_body_leaf(child));
        if rest.len() > 0 {
            lemma_below_leaf(child, rest);
        }
    }
}

/// What stands at a path in the tree of a draft.
pub proof fn lemma_in_tree(
    d: EmailView,
    files: Seq<Seq<u8>>,
    seed: Seq<char>,
    other: Seq<char>,
    path: Seq<int>,
)
    requires
        d.has_body(),
    ensures
        d.tree(files, seed, other).part_at(path) matches Some(part) ==> d.stands_at(
            files,
            seed,
            other,
            path,
            part,
        ),
{
    let tree = d.tree(files, seed, other);
    if path.len() == 0 {
        assert(path =~= Seq::<int>::empty());
    }
    if !(d.html_body is Some && d.plain_body is Some) {
        assert(d.is_body_leaf(d.body_part(seed)));
    }
    if d.attachments.len() == 0 {
        lemma_in_body_part(d, seed, path);
    } else if path.len() > 0 && 0 <= path[0] < tree.children.len() {
        let child = tree.children[path[0]];
        let rest = path.drop_first();
        if path[0] == 0 {
            lemma_in_body_part(d, seed, rest);
            if rest.len() == 0 {
                assert(path =~= seq![0int]);
            }
        } else {
            let i = path[0] - 1;
            assert(child == attachment_leaf(d.attachments[i], files[i]));
            assert(d.is_attachment_leaf(files, child));
            if rest.len() > 0 {
                lemma_below_leaf(child, rest);
            }
        }
    }
}

/// A draft with only a plain body and no attachment gives a single leaf of
/// type `text/plain`, passed on in 7 bits, whose content is the plain text
/// unchanged.
pub proof fn lemma_plain_only(
    d: EmailView,
    files: Seq<Seq<u8>>,
    seed: Seq<char>,
    other: Seq<char>,
)
    requires
        d.plain_body is Some,
        d.html_body is None,
        d.attachments.len() == 0,
    ensures
        d.tree(files, seed, other) == PartView::leaf(
            text_headers(plain_type()),
            d.plain_body.unwrap(),
        ),
        d.envelope_error() is None ==> (d.rendering(files, seed, other) matches Ok(message)
            && message.headers == d.message_headers() + text_headers(plain_type())),
{
}

/// A draft with only an HTML body and no attachment gives a single leaf of
/// type `text/html`, passed on in 7 bits, whose content is the HTML text
/// unchanged.
pub proof fn lemma_html_only(d: EmailView, files: Seq<Seq<u8>>, seed: Seq<char>, other: Seq<char>)
    requires
        d.html_body is Some,
        d.plain_body is None,
        d.attachments.len() == 0,
    ensures
        d.tree(files, seed, other) == PartView::leaf(
            text_headers(html_type()),
            d.html_body.unwrap(),
        ),
        d.envelope_error() is None ==> (d.rendering(files, seed, other) matches Ok(message)
            && message.headers == d.message_headers() + text_headers(html_type())),
{
}

/// A draft with both bodies and no attachment gives a part of type
/// `multipart/alternative` with two children: the HTML body first, the plain
/// body last.
pub proof fn lemma_both_bodies(
    d: EmailView,
    files: Seq<Seq<u8>>,
    seed: Seq<char>,
    other: Seq<char>,
)
    requires
        d.html_body is Some,
        d.plain_body is Some,
        d.attachments.len() == 0,
    ensures
        ({
            let tree = d.tree(files, seed, other);
            &&& tree.kind == Some(MultipartKind::Alternative)
            &&& tree.headers == seq![multipart_header(MultipartKind::Alternative, tree.boundary)]
            &&& tree.children == seq![
                html_leaf(d.html_body.unwrap()),
                plain_leaf(d.plain_body.unwrap()),
            ]
        }),
        d.envelope_error() is None ==> (d.rendering(files, seed, other) matches Ok(message)
            && message.headers == d.message_headers() + seq![
            multipart_header(MultipartKind::Alternative, d.alternative_boundary(seed)),
        ]),
{
}

/// A draft with attachments gives a part of type `multipart/mixed`: its
/// first child is the part of the body, and the leaves of the attachments
/// follow in the order in which the attachments were added.
pub proof fn lemma_with_attachments(
    d: EmailView,
    files: Seq<Seq<u8>>,
    seed: Seq<char>,
    other: Seq<char>,
)
    requires
        d.attachments.len() > 0,
    ensures
        ({
            let tree = d.tree(files, seed, other);
            &&& tree.kind == Some(MultipartKind::Mixed)
            &&& tree.headers == seq![multipart_header(MultipartKind::Mixed, tree.boundary)]
            &&& tree.children.len() == d.attachments.len() + 1
            &&& tree.children[0] == d.body_part(seed)
            &&& forall|i: int|
                0 <= i < d.attachments.len() ==> #[trigger] tree.children[i + 1]
                    == attachment_leaf(d.attachments[i], files[i])
        }),
        d.has_body() && d.envelope_error() is None ==> (d.rendering(files, seed, other) matches Ok(
            message,
        ) && message.headers == d.message_headers() + seq![
            multipart_header(MultipartKind::Mixed, d.mixed_boundary(seed, other)),
        ]),
{
}

/// The content of the leaf of an attachment, decoded from base64 once its
/// line breaks are taken out, is the bytes of the file.
pub proof fn lemma_attachment_round_trip(
    d: EmailView,
    files: Seq<Seq<u8>>,
    seed: Seq<char>,
    other: Seq<char>,
    i: int,
)
    requires
        0 <= i < d.attachments.len(),
    ensures
        decode(strip_breaks(d.tree(files, seed, other).children[i + 1].body)) == files[i],
{
    lemma_base64_round_trip(files[i]);
}

/// The part of the body has the same shape whatever the seed.
proof fn lemma_body_part_shape(d: EmailView, seed: Seq<char>, again: Seq<char>)
    ensures
        same_shape(d.body_part(seed), d.body_part(again)),
{
    reveal_with_fuel(same_shape, 2);
    let a = d.body_part(seed);
    let b = d.body_part(again);
    assert forall|i: int| 0 <= i < a.children.len() implies same_shape(
        #[trigger] a.children[i],
        b.children[i],
    ) by {
        assert(a.children[i] == b.children[i]);
        assert(a.children[i].children.len() == 0);
    }
}

/// Building a tree twice from one draft and the same files gives the same
/// nesting and the same content: only the boundaries can differ.
pub proof fn lemma_same_shape(
    d: EmailView,
    files: Seq<Seq<u8>>,
    seed: Seq<char>,
    other: Seq<char>,
    seed_again: Seq<char>,
    other_again: Seq<char>,
)
    ensures
        same_shape(d.tree(files, seed, other), d.tree(files, seed_again, other_again)),
{
    let a = d.tree(files, seed, other);
    let b = d.tree(files, seed_again, other_again);
    lemma_body_part_shape(d, seed, seed_again);
    if d.attachments.len() > 0 {
        assert forall|i: int| 0 <= i < a.children.len() implies same_shape(
            #[trigger] a.children[i],
            b.children[i],
        ) by {
            if i > 0 {
                assert(a.children[i] == b.children[i]);
                assert(a.children[i].children.len() == 0);
            }
        }
    }
}

/// A text is a substring of itself.
proof fn lemma_occurs_in_itself(text: Seq<char>)
    ensures
        occurs(text, text),
{
    assert(text.subrange(0, text.len() as int) =~= text);
    assert(occurs_at(text, text, 0));
}

/// The boundary of the part of the bodies is in none of the leaves.
proof fn lemma_alternative_clear(d: EmailView, files: Seq<Seq<u8>>, seed: Seq<char>, leaf: PartView)
    requires
        d.is_body_leaf(leaf) || d.is_attachment_leaf(files, leaf),
    ensures
        !occurs(d.alternative_boundary(seed), leaf.body),
{
    let texts = d.body_texts();
    if d.is_body_leaf(leaf) {
        if d.html_body is Some && leaf == html_leaf(d.html_body.unwrap()) {
            assert(texts[0] == d.html_body.unwrap());
            lemma_fresh_token_absent(seed, texts, 0);
        } else {
            let at = texts.len() - 1;
            assert(texts[at] == d.plain_body.unwrap());
            lemma_fresh_token_absent(seed, texts, at);
        }
    } else {
        let i = choose|i: int|
            0 <= i < d.attachments.len() && leaf == #[trigger] attachment_leaf(
                d.attachments[i],
                files[i],
            );
        lemma_fresh_token_not_in_base64(seed, texts, files[i]);
    }
}

/// The boundary of the mixed part is in none of the leaves, and it is not
/// the boundary of the part of the bodies.
proof fn lemma_mixed_clear(
    d: EmailView,
    files: Seq<Seq<u8>>,
    seed: Seq<char>,
    other: Seq<char>,
    leaf: PartView,
)
    requires
        d.is_body_leaf(leaf) || d.is_attachment_leaf(files, leaf),
    ensures
        !occurs(d.mixed_boundary(seed, other), leaf.body),
        d.html_body is Some && d.plain_body is Some ==> d.mixed_boundary(seed, other)
            != d.alternative_boundary(seed),
{
    let texts = d.mixed_texts(seed);
    let bodies = d.body_texts();
    if d.html_body is Some && d.plain_body is Some {
        assert(texts[2] == d.alternative_boundary(seed));
        lemma_fresh_token_absent(other, texts, 2);
        lemma_occurs_in_itself(d.alternative_boundary(seed));
    }
    if d.is_body_leaf(leaf) {
        if d.html_body is Some && leaf == html_leaf(d.html_body.unwrap()) {
            assert(texts[0] == d.html_body.unwrap());
            lemma_fresh_token_absent(other, texts, 0);
        } else {
            let at = bodies.len() - 1;
            assert(texts[at] == d.plain_body.unwrap());
            lemma_fresh_token_absent(other, texts, at);
        }
    } else {
        let i = choose|i: int|
            0 <= i < d.attachments.len() && leaf == #[trigger] attachment_leaf(
                d.attachments[i],
                files[i],
            );
        lemma_fresh_token_not_in_base64(other, texts, files[i]);
    }
}

/// In the tree of a draft no two composite parts have the same boundary, and
/// no boundary is a substring of the content of a leaf: not of a body, and
/// not of the base64 text of an attachment.
pub proof fn lemma_boundaries(
    d: EmailView,
    files: Seq<Seq<u8>>,
    seed: Seq<char>,
    other: Seq<char>,
)
    requires
        d.has_body(),
    ensures
        d.tree(files, seed, other).boundaries_distinct(),
        d.tree(files, seed, other).boundaries_clear(),
{
    let tree = d.tree(files, seed, other);
    assert forall|p: Seq<int>, q: Seq<int>|
        (#[trigger] tree.part_at(p)) is Some && (#[trigger] tree.part_at(q)) is Some implies ({
        let a = tree.part_at(p).unwrap();
        let b = tree.part_at(q).unwrap();
        &&& p != q && a.kind is Some && b.kind is Some ==> a.boundary != b.boundary
        &&& a.kind is Some && b.kind is None ==> !occurs(a.boundary, b.body)
    }) by {
        let a = tree.part_at(p).unwrap();
        let b = tree.part_at(q).unwrap();
        lemma_in_tree(d, files, seed, other, p);
        lemma_in_tree(d, files, seed, other, q);
        assert(d.stands_at(files, seed, other, p, a));
        assert(d.stands_at(files, seed, other, q, b));
        if p.len() == 0 && q.len() == 0 {
            assert(p =~= q);
        }
        if a.kind is Some {
            assert(a.boundary == d.mixed_boundary(seed, other) || (d.html_body is Some
                && d.plain_body is Some && a.boundary == d.alternative_boundary(seed)));
        }
        if b.kind is None {
            assert(d.is_body_leaf(b) || d.is_attachment_leaf(files, b));
        }
        if a.kind is Some && b.kind is None {
            lemma_alternative_clear(d, files, seed, b);
            lemma_mixed_clear(d, files, seed, other, b);
        }
        if p != q && a.kind is Some && b.kind is Some {
            let leaf = if d.html_body is Some {
                html_leaf(d.html_body.unwrap())
            } else {
                plain_leaf(d.plain_body.unwrap())
            };
            lemma_mixed_clear(d, files, seed, other, leaf);
        }
    }
}

/// In the tree of a draft every composite part has children and carries
/// exactly the `Content-Type` header that names its subtype and its
/// boundary, and every leaf is without children and without a boundary.
pub proof fn lemma_well_formed(
    d: EmailView,
    files: Seq<Seq<u8>>,
    seed: Seq<char>,
    other: Seq<char>,
)
    requires
        d.has_body(),
    ensures
        d.tree(files, seed, other).well_formed(),
{
    let tree = d.tree(files, seed, other);
    assert forall|path: Seq<int>| #[trigger] tree.part_at(path) is Some implies tree.part_at(
        path,
    ).unwrap().node_ok() by {
        lemma_in_tree(d, files, seed, other, path);
    }
}

/// What stands in the frame of child `i` before the text of the child: the
/// delimiter line, the header block of the child and an empty line.
pub open spec fn frame_head(part: PartView, i: int) -> Seq<char> {
    delimiter(part.boundary) + header_block(part.children[i].headers) + line_end()
}

/// Where the text of child `i` begins in the text of `part`.
pub open spec fn child_start(part: PartView, i: int) -> int {
    (part.body.len() + 2 + frames(part, i as nat).len() + frame_head(part, i).len()) as int
}

/// The frames of one child more are the frames so far and the frame of that
/// child.
proof fn lemma_frames_step(part: PartView, i: int)
    requires
        0 <= i < part.children.len(),
    ensures
        frames(part, (i + 1) as nat) == frames(part, i as nat) + frame_head(part, i) + body_text(
            part.children[i],
        ) + line_end(),
{
    assert(frames(part, (i + 1) as nat) =~= frames(part, i as nat) + frame_head(part, i)
        + body_text(part.children[i]) + line_end());
}

/// The frames of fewer children stand at the start of the frames of more.
proof fn lemma_frames_grow(part: PartView, a: int, b: int)
    requires
        0 <= a <= b <= part.children.len(),
    ensures
        frames(part, a as nat).len() <= frames(part, b as nat).len(),
        frames(part, b as nat).subrange(0, frames(part, a as nat).len() as int) == frames(
            part,
            a as nat,
        ),
    decreases b - a,
{
    let short = frames(part, a as nat);
    let long = frames(part, b as nat);
    if a < b {
        lemma_frames_grow(part, a, b - 1);
        lemma_frames_step(part, b - 1);
        assert(long.subrange(0, short.len() as int) =~= frames(part, (b - 1) as nat).subrange(
            0,
            short.len() as int,
        ));
    } else {
        assert(long.subrange(0, short.len() as int) =~= short);
    }
}

/// What stands at the start of a text that occurs, occurs at the same place.
proof fn lemma_start_occurs(first: Seq<char>, rest: Seq<char>, text: Seq<char>, at: int)
    requires
        occurs_at(first + rest, text, at),
    ensures
        occurs_at(first, text, at),
{
    let whole = text.subrange(at, at + (first + rest).len());
    assert(text.subrange(at, at + first.len()) =~= whole.subrange(0, first.len() as int));
    assert(whole.subrange(0, first.len() as int) =~= first);
}

/// In the text of a part the text of each child stands in its frame, and the
/// text of an earlier child ends before the text of a later child begins.
pub proof fn lemma_children_in_order(part: PartView, i: int, j: int)
    requires
        0 <= i <= j < part.children.len(),
    ensures
        occurs_at(body_text(part.children[i]), body_text(part), child_start(part, i)),
        i < j ==> child_start(part, i) + body_text(part.children[i]).len() < child_start(part, j),
{
    let count = part.children.len() as int;
    let text = body_text(part);
    let child = body_text(part.children[i]);
    let start = child_start(part, i);
    let all = frames(part, count as nat);
    let upto = frames(part, (i + 1) as nat);
    lemma_frames_step(part, i);
    lemma_frames_grow(part, i + 1, count);
    let before = part.body.len() + 2;
    let inside = frames(part, i as nat).len() + frame_head(part, i).len();
    assert forall|k: int| 0 <= k < child.len() implies text[start + k] == child[k] by {
        assert(text[start + k] == all[inside + k]);
        assert(all.subrange(0, upto.len() as int)[inside + k] == all[inside + k]);
        assert(upto[inside + k] == child[k]);
    }
    assert(text.subrange(start, start + child.len()) =~= child);
    if i < j {
        lemma_frames_grow(part, i + 1, j);
    }
}

/// In the text of a draft with both bodies and no attachment, the HTML body
/// stands before the plain body: it ends before the plain body begins.
pub proof fn lemma_html_before_plain(
    d: EmailView,
    files: Seq<Seq<u8>>,
    seed: Seq<char>,
    other: Seq<char>,
)
    requires
        d.html_body is Some,
        d.plain_body is Some,
        d.attachments.len() == 0,
    ensures
        ({
            let tree = d.tree(files, seed, other);
            let html = d.html_body.unwrap();
            let plain = d.plain_body.unwrap();
            &&& occurs_at(html, body_text(tree), child_start(tree, 0))
            &&& occurs_at(plain, body_text(tree), child_start(tree, 1))
            &&& child_start(tree, 0) + html.len() < child_start(tree, 1)
        }),
{
    let tree = d.tree(files, seed, other);
    lemma_children_in_order(tree, 0, 1);
    lemma_children_in_order(tree, 1, 1);
    assert(body_text(tree.children[0]) =~= d.html_body.unwrap() + line_end());
    assert(body_text(tree.children[1]) =~= d.plain_body.unwrap() + line_end());
    lemma_start_occurs(d.html_body.unwrap(), line_end(), body_text(tree), child_start(tree, 0));
    lemma_start_occurs(d.plain_body.unwrap(), line_end(), body_text(tree), child_start(tree, 1));
}

/// In the text of a draft with attachments the text of the body part stands
/// first, and the encoded files follow in the order in which the attachments
/// were added: each ends before the next begins.
pub proof fn lemma_attachments_in_order(
    d: EmailView,
    files: Seq<Seq<u8>>,
    seed: Seq<char>,
    other: Seq<char>,
    i: int,
    j: int,
)
    requires
        0 <= i <= j < d.attachments.len(),
    ensures
        ({
            let tree = d.tree(files, seed, other);
            let text = body_text(tree);
            let body = body_text(d.body_part(seed));
            let first = mime_base64(files[i]);
            &&& occurs_at(body, text, child_start(tree, 0))
            &&& child_start(tree, 0) + body.len() < child_start(tree, i + 1)
            &&& occurs_at(first, text, child_start(tree, i + 1))
            &&& i < j ==> child_start(tree, i + 1) + first.len() < child_start(tree, j + 1)
        }),
{
    let tree = d.tree(files, seed, other);
    lemma_children_in_order(tree, 0, i + 1);
    lemma_children_in_order(tree, i + 1, j + 1);
    assert(tree.children[i + 1] == attachment_leaf(d.attachments[i], files[i]));
    assert(body_text(tree.children[i + 1]) =~= mime_base64(files[i]) + line_end());
    lemma_start_occurs(mime_base64(files[i]), line_end(), body_text(tree), child_start(tree, i + 1));
}

} // verus!

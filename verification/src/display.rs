//! The lines that show what a draft will look like.

use crate::draft::{strings_view, Email, EmailView};
use crate::error::{Error, ErrorView, IoFailure};
use crate::part::{body_text, Header, HeaderView, MimePart, PartView};
use crate::render::reader_ok;
use vstd::prelude::*;

verus! {

/// The line that shows one header.
pub open spec fn header_line(header: HeaderView) -> Seq<char> {
    "EMAIL HEADER = "@ + header.name + ": "@ + header.value
}

/// The lines that show it, one for each header, in order.
pub open spec fn header_lines(headers: Seq<HeaderView>) -> Seq<Seq<char>> {
    Seq::new(headers.len(), |i: int| header_line(headers[i]))
}

/// The result of building a tree as a mathematical value.
pub open spec fn build_view(outcome: Result<MimePart, Error>) -> Result<PartView, ErrorView> {
    match outcome {
        Ok(part) => Ok(part@),
        Err(error) => Err(error@),
    }
}

/// The lines that show what came of building the tree: one line for an
/// error, which holds the error as `{:?}` writes it; else a heading, one line for each header of the top part, and the
/// text of the body behind an empty line.
pub open spec fn display_lines(outcome: Result<PartView, ErrorView>) -> Seq<Seq<char>> {
    match outcome {
        Ok(part) => seq!["YOUR EMAIL WILL LOOK LIKE THIS:\n\n"@] + header_lines(part.headers)
            + seq!["\n"@ + body_text(part)],
        Err(error) => seq!["ERROR: "@ + error.debug_text()],
    }
}

/// The line that shows `header`.
fn make_header_line(header: &Header) -> (line: String)
    ensures
        line@ == header_line(header@),
{
    let mut line = String::from_str("EMAIL HEADER = ");
    line.append(header.name.as_str());
    line.append(": ");
    line.append(header.value.as_str());
    line
}

/// Adds `line` at the end of `lines`.
fn push_line(lines: &mut Vec<String>, line: String)
    ensures
        strings_view(final(lines)@) == strings_view(old(lines)@).push(line@),
{
    lines.push(line);
    assert(strings_view(lines@) =~= strings_view(old(lines)@).push(line@));
}

/// Writes the lines that show what came of building a tree.
pub fn display(outcome: &Result<MimePart, Error>) -> (lines: Vec<String>)
    ensures
        strings_view(lines@) == display_lines(build_view(*outcome)),
{
    let mut lines: Vec<String> = Vec::new();
    match outcome {
        Ok(part) => {
            push_line(&mut lines, String::from_str("YOUR EMAIL WILL LOOK LIKE THIS:\n\n"));
            let ghost heading = strings_view(lines@);
            assert(heading =~= seq!["YOUR EMAIL WILL LOOK LIKE THIS:\n\n"@]);
            let ghost shown = header_lines(part@.headers);
            let mut i: usize = 0;
            assert(heading + shown.take(0) =~= heading);
            while i < part.headers.len()
                invariant
                    i <= part.headers.len(),
                    shown == header_lines(part@.headers),
                    part@.headers.len() == part.headers@.len(),
                    forall|k: int|
                        0 <= k < part.headers@.len() ==> part@.headers[k]
                            == (#[trigger] part.headers@[k])@,
                    strings_view(lines@) == heading + shown.take(i as int),
                decreases part.headers.len() - i,
            {
                let line = make_header_line(&part.headers[i]);
                assert((heading + shown.take(i as int)).push(line@) =~= heading + shown.take(
                    i + 1,
                ));
                push_line(&mut lines, line);
                i += 1;
            }
            assert(shown.take(i as int) =~= shown);
            let mut last = String::from_str("\n");
            let text = part.body_text();
            last.append(text.as_str());
            push_line(&mut lines, last);
            assert(strings_view(lines@) =~= display_lines(build_view(*outcome)));
        },
        Err(error) => {
            let mut line = String::from_str("ERROR: ");
            let text = error.debug_text();
            line.append(text.as_str());
            push_line(&mut lines, line);
            assert(strings_view(lines@) =~= display_lines(build_view(*outcome)));
        },
    }
    lines
}

impl EmailView {
    /// What showing the draft with `read_file` can give: the lines for one
    /// of the results that building the tree can have.
    pub open spec fn displayed<F: Fn(&str) -> Result<Vec<u8>, IoFailure>>(
        self,
        read_file: F,
        lines: Seq<Seq<char>>,
    ) -> bool {
        exists|outcome: Result<MimePart, Error>| #[trigger]
            self.built(read_file, outcome) && lines == display_lines(build_view(outcome))
    }
}

impl Email {
    /// Builds the tree and writes the lines that show it, or the one line
    /// that says why there is none. The files to attach are read with
    /// `read_file`.
    pub fn debug_display<F: Fn(&str) -> Result<Vec<u8>, IoFailure>>(&self, read_file: F) -> (lines:
        Vec<String>)
        requires
            reader_ok(read_file),
        ensures
            self@.displayed(read_file, strings_view(lines@)),
    {
        let outcome = self.build_mime_message(read_file);
        let lines = display(&outcome);
        assert(self@.built(read_file, outcome));
        lines
    }
}

} // verus!

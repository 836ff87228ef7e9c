//! Sending: the rendered message goes to a session with the server, and the
//! reply of the server decides how sending ends.

use crate::draft::{strings_view, Email, EmailView};
use crate::error::{Error, ErrorView, IoFailure};
use crate::render::{reader_ok, RenderedMessage};
use vstd::prelude::*;

verus! {

/// The first digit of a reply code.
#[derive(Clone, Copy, Debug, PartialEq, Eq, Structural)]
pub enum Severity {
    /// 2yz
    PositiveCompletion,
    /// 3yz
    PositiveIntermediate,
    /// 4yz
    TransientNegativeCompletion,
    /// 5yz
    PermanentNegativeCompletion,
}

/// The second digit of a reply code.
#[derive(Clone, Copy, Debug, PartialEq, Eq, Structural)]
pub enum Category {
    /// x0z
    Syntax,
    /// x1z
    Information,
    /// x2z
    Connections,
    /// x3z
    Unspecified3,
    /// x4z
    Unspecified4,
    /// x5z
    MailSystem,
}

/// A reply of the server as a mathematical value.
pub struct ResponseView {
    pub severity: Severity,
    pub category: Category,
    pub detail: u8,
    pub message: Seq<Seq<char>>,
}

/// A reply of the server: the three parts of its code and the lines of its
/// text.
#[derive(Debug)]
pub struct SmtpResponse {
    pub severity: Severity,
    pub category: Category,
    pub detail: u8,
    pub message: Vec<String>,
}

impl View for SmtpResponse {
    type V = ResponseView;

    open spec fn view(&self) -> ResponseView {
        ResponseView {
            severity: self.severity,
            category: self.category,
            detail: self.detail,
            message: strings_view(self.message@),
        }
    }
}

pub open spec fn severity_digit(severity: Severity) -> int {
    match severity {
        Severity::PositiveCompletion => 2,
        Severity::PositiveIntermediate => 3,
        Severity::TransientNegativeCompletion => 4,
        Severity::PermanentNegativeCompletion => 5,
    }
}

pub open spec fn category_digit(category: Category) -> int {
    match category {
        Category::Syntax => 0,
        Category::Information => 1,
        Category::Connections => 2,
        Category::Unspecified3 => 3,
        Category::Unspecified4 => 4,
        Category::MailSystem => 5,
    }
}

/// The character of the digit `d`.
pub open spec fn digit(d: int) -> char {
    ('0' as int + d) as char
}

/// `n` in decimal digits.
pub open spec fn decimal(n: nat) -> Seq<char>
    decreases n,
{
    if n < 10 {
        seq![digit(n as int)]
    } else {
        decimal(n / 10).push(digit((n % 10) as int))
    }
}

/// The lines with a CRLF between every two of them.
pub open spec fn joined(lines: Seq<Seq<char>>) -> Seq<char>
    decreases lines.len(),
{
    if lines.len() == 0 {
        Seq::empty()
    } else if lines.len() == 1 {
        lines[0]
    } else {
        joined(lines.drop_last()) + seq!['\r', '\n'] + lines.last()
    }
}

impl ResponseView {
    /// The server accepted: the code starts with 2 or 3.
    pub open spec fn is_positive(self) -> bool {
        self.severity == Severity::PositiveCompletion || self.severity
            == Severity::PositiveIntermediate
    }

    /// The three parts of the code with a slash between them, a space, and
    /// the lines of the text joined by CRLF.
    pub open spec fn status(self) -> Seq<char> {
        seq![digit(severity_digit(self.severity)), '/', digit(category_digit(self.category)), '/']
            + decimal(self.detail as nat) + seq![' '] + joined(self.message)
    }
}

/// The text of one digit.
fn digit_text(d: u8) -> (text: &'static str)
    requires
        d < 10,
    ensures
        text@ == seq![digit(d as int)],
{
    proof {
        reveal_strlit("0");
        reveal_strlit("1");
        reveal_strlit("2");
        reveal_strlit("3");
        reveal_strlit("4");
        reveal_strlit("5");
        reveal_strlit("6");
        reveal_strlit("7");
        reveal_strlit("8");
        reveal_strlit("9");
    }
    let text = if d == 0 {
        "0"
    } else if d == 1 {
        "1"
    } else if d == 2 {
        "2"
    } else if d == 3 {
        "3"
    } else if d == 4 {
        "4"
    } else if d == 5 {
        "5"
    } else if d == 6 {
        "6"
    } else if d == 7 {
        "7"
    } else if d == 8 {
        "8"
    } else {
        "9"
    };
    assert(text@ =~= seq![digit(d as int)]);
    text
}

/// Adds `n` in decimal digits to `text`.
fn append_decimal(text: &mut String, n: u8)
    ensures
        final(text)@ == old(text)@ + decimal(n as nat),
{
    proof {
        reveal_with_fuel(decimal, 3);
    }
    if n >= 100 {
        text.append(digit_text(n / 100));
    }
    if n >= 10 {
        text.append(digit_text((n / 10) % 10));
    }
    text.append(digit_text(n % 10));
    assert(text@ =~= old(text)@ + decimal(n as nat));
}

/// Adds the lines to `text`, with a CRLF between every two of them.
fn append_joined(text: &mut String, lines: &Vec<String>)
    ensures
        final(text)@ == old(text)@ + joined(strings_view(lines@)),
{
    let ghost before = text@;
    let ghost all = strings_view(lines@);
    let mut i: usize = 0;
    assert(before + joined(all.take(0)) =~= before);
    while i < lines.len()
        invariant
            i <= lines.len(),
            all == strings_view(lines@),
            text@ == before + joined(all.take(i as int)),
        decreases lines.len() - i,
    {
        proof {
            reveal_strlit("\r\n");
            assert("\r\n"@ =~= seq!['\r', '\n']);
            assert(all.take(i + 1).drop_last() =~= all.take(i as int));
            assert(all.take(i + 1).last() == lines@[i as int]@);
        }
        if i > 0 {
            text.append("\r\n");
        }
        text.append(lines[i].as_str());
        assert(text@ =~= before + joined(all.take(i + 1)));
        i += 1;
    }
    assert(all.take(i as int) =~= all);
}

impl SmtpResponse {
    /// Tells whether the server accepted.
    pub fn is_positive(&self) -> (positive: bool)
        ensures
            positive == self@.is_positive(),
    {
        match self.severity {
            Severity::PositiveCompletion => true,
            Severity::PositiveIntermediate => true,
            _ => false,
        }
    }

    /// The reply as one text: `severity/category/detail`, a space, and the
    /// lines of the text joined by CRLF.
    pub fn status(&self) -> (text: String)
        ensures
            text@ == self@.status(),
    {
        let severity: u8 = match self.severity {
            Severity::PositiveCompletion => 2,
            Severity::PositiveIntermediate => 3,
            Severity::TransientNegativeCompletion => 4,
            Severity::PermanentNegativeCompletion => 5,
        };
        let category: u8 = match self.category {
            Category::Syntax => 0,
            Category::Information => 1,
            Category::Connections => 2,
            Category::Unspecified3 => 3,
            Category::Unspecified4 => 4,
            Category::MailSystem => 5,
        };
        proof {
            reveal_strlit("/");
            reveal_strlit(" ");
            assert("/"@ =~= seq!['/']);
            assert(" "@ =~= seq![' ']);
        }
        let mut text = String::from_str(digit_text(severity));
        text.append("/");
        text.append(digit_text(category));
        text.append("/");
        assert(text@ =~= seq![
            digit(severity_digit(self.severity)),
            '/',
            digit(category_digit(self.category)),
            '/',
        ]);
        append_decimal(&mut text, self.detail);
        text.append(" ");
        append_joined(&mut text, &self.message);
        text
    }
}

/// What came of a session as a mathematical value: the reply of the server,
/// or the text that says why there was none.
pub open spec fn reply_view(reply: Result<SmtpResponse, String>) -> Result<
    ResponseView,
    Seq<char>,
> {
    match reply {
        Ok(response) => Ok(response@),
        Err(text) => Err(text@),
    }
}

/// How sending ends as a mathematical value.
pub open spec fn end_view(result: Result<(), Error>) -> Result<(), ErrorView> {
    match result {
        Ok(_) => Ok(()),
        Err(error) => Err(error@),
    }
}

/// How sending ends for what came of the session: well where the server
/// accepted, with its status where it refused, and with the report of the
/// transport where no reply came.
pub open spec fn outcome(reply: Result<ResponseView, Seq<char>>) -> Result<(), ErrorView> {
    match reply {
        Ok(response) => if response.is_positive() {
            Ok(())
        } else {
            Err(ErrorView::SendFailed(response.status()))
        },
        Err(text) => Err(ErrorView::TransportError(text)),
    }
}

/// Decides how sending ends from what came of the session.
pub fn conclude(reply: Result<SmtpResponse, String>) -> (result: Result<(), Error>)
    ensures
        end_view(result) == outcome(reply_view(reply)),
{
    match reply {
        Ok(response) => {
            if response.is_positive() {
                Ok(())
            } else {
                Err(Error::SendFailed(response.status()))
            }
        },
        Err(text) => Err(Error::TransportError(text)),
    }
}

impl EmailView {
    /// What sending with `read_file` and `session` can give: the error of
    /// rendering where that fails, without a session; else what the reply of
    /// the session to the rendered message means.
    pub open spec fn sent<
        F: Fn(&str) -> Result<Vec<u8>, IoFailure>,
        S: FnOnce(&RenderedMessage) -> Result<SmtpResponse, String>,
    >(self, read_file: F, session: S, result: Result<(), Error>) -> bool {
        exists|rendering: Result<RenderedMessage, Error>| #[trigger]
            self.rendered_by(read_file, rendering) && match rendering {
                Ok(message) => exists|reply: Result<SmtpResponse, String>| #[trigger]
                    call_ensures(session, (&message,), reply) && end_view(result) == outcome(
                        reply_view(reply),
                    ),
                Err(error) => result == Err::<(), Error>(error),
            }
    }
}

impl Email {
    /// Renders the draft and sends it. The files to attach are read with
    /// `read_file`; `session` takes the rendered message to the server and
    /// gives back its reply, or the text that says why no reply came.
    ///
    /// Where rendering fails, its error is returned and no session is begun.
    /// Else sending ends as `outcome` says of what the session gave.
    pub fn send<
        F: Fn(&str) -> Result<Vec<u8>, IoFailure>,
        S: FnOnce(&RenderedMessage) -> Result<SmtpResponse, String>,
    >(&self, read_file: F, session: S) -> (result: Result<(), Error>)
        requires
            reader_ok(read_file),
            forall|message: &RenderedMessage| call_requires(session, (message,)),
        ensures
            self@.sent(read_file, session, result),
    {
        let rendering = self.render(read_file);
        match rendering {
            Ok(message) => {
                let reply = session(&message);
                let result = conclude(reply);
                assert(call_ensures(session, (&message,), reply) && end_view(result) == outcome(
                    reply_view(reply),
                ));
                assert(self@.rendered_by(read_file, Ok::<RenderedMessage, Error>(message)));
                result
            },
            Err(error) => {
                assert(self@.rendered_by(read_file, Err::<RenderedMessage, Error>(error)));
                Err(error)
            },
        }
    }
}

} // verus!

//! What can go wrong while a message is rendered and sent.

use vstd::prelude::*;

verus! {

/// The kind of a failure to read a file.
#[derive(Clone, Copy, Debug, PartialEq, Eq, Structural)]
pub enum IoErrorKind {
    /// The file does not exist.
    NotFound,
    /// The file may not be read.
    PermissionDenied,
    /// The file ended before it was read in full.
    UnexpectedEof,
    /// Any other failure.
    Other,
}

pub open spec fn kind_name(kind: IoErrorKind) -> Seq<char> {
    match kind {
        IoErrorKind::NotFound => "NotFound"@,
        IoErrorKind::PermissionDenied => "PermissionDenied"@,
        IoErrorKind::UnexpectedEof => "UnexpectedEof"@,
        IoErrorKind::Other => "Other"@,
    }
}

impl IoErrorKind {
    /// The name of the kind.
    pub fn name(&self) -> (text: &'static str)
        ensures
            text@ == kind_name(*self),
    {
        match self {
            IoErrorKind::NotFound => "NotFound",
            IoErrorKind::PermissionDenied => "PermissionDenied",
            IoErrorKind::UnexpectedEof => "UnexpectedEof",
            IoErrorKind::Other => "Other",
        }
    }
}

/// `text` between double quotes, with the characters escaped that `Debug`
/// for `str` escapes.
pub uninterp spec fn quoted_text(text: Seq<char>) -> Seq<char>;

/// Writes `text` as `Debug` for `str` of std does: between double quotes and
/// with escapes. The result is a function of the text alone and is named
/// `quoted_text`.
#[verifier::external_body]
fn quote(text: &str) -> (quoted: String)
    ensures
        quoted@ == quoted_text(text@),
{
    format!("{:?}", text)
}

/// A failure to read a file as a mathematical value.
pub struct IoFailureView {
    pub kind: IoErrorKind,
    pub message: Seq<char>,
}

/// A failure to read a file: its kind and what the system said of it.
#[derive(Debug)]
pub struct IoFailure {
    pub kind: IoErrorKind,
    pub message: String,
}

impl View for IoFailure {
    type V = IoFailureView;

    open spec fn view(&self) -> IoFailureView {
        IoFailureView { kind: self.kind, message: self.message@ }
    }
}

impl IoFailure {
    pub fn new(kind: IoErrorKind, message: &str) -> (failure: IoFailure)
        ensures
            failure@ == (IoFailureView { kind, message: message@ }),
    {
        IoFailure { kind, message: String::from_str(message) }
    }
}

/// Why a draft cannot be made into a message.
#[derive(Clone, Copy, Debug, PartialEq, Eq, Structural)]
pub enum BuilderError {
    /// Neither a `From` nor a `Sender` address was given.
    MissingFrom,
    /// Neither a `To` nor a `Cc` address was given.
    MissingTo,
    /// The date cannot be written down.
    InvalidDate,
}

pub open spec fn builder_error_text(error: BuilderError) -> Seq<char> {
    match error {
        BuilderError::MissingFrom => "the sender is missing"@,
        BuilderError::MissingTo => "the recipient is missing"@,
        BuilderError::InvalidDate => "the date cannot be formatted"@,
    }
}

pub open spec fn builder_error_name(error: BuilderError) -> Seq<char> {
    match error {
        BuilderError::MissingFrom => "MissingFrom"@,
        BuilderError::MissingTo => "MissingTo"@,
        BuilderError::InvalidDate => "InvalidDate"@,
    }
}

impl BuilderError {
    /// The name of the reason.
    pub fn name(&self) -> (text: &'static str)
        ensures
            text@ == builder_error_name(*self),
    {
        match self {
            BuilderError::MissingFrom => "MissingFrom",
            BuilderError::MissingTo => "MissingTo",
            BuilderError::InvalidDate => "InvalidDate",
        }
    }

    pub fn description(&self) -> (text: &'static str)
        ensures
            text@ == builder_error_text(*self),
    {
        match self {
            BuilderError::MissingFrom => "the sender is missing",
            BuilderError::MissingTo => "the recipient is missing",
            BuilderError::InvalidDate => "the date cannot be formatted",
        }
    }
}

/// An error as a mathematical value.
pub enum ErrorView {
    Io(IoFailureView),
    BodyRequired,
    BuilderError(BuilderError),
    TransportError(Seq<char>),
    SendFailed(Seq<char>),
}

/// An error of rendering or sending.
#[derive(Debug)]
pub enum Error {
    /// An attachment could not be read.
    Io(IoFailure),
    /// The draft has neither a plain nor an HTML body.
    BodyRequired,
    /// The headers of the draft cannot be written.
    BuilderError(BuilderError),
    /// No session with the server came about; the text says why.
    TransportError(String),
    /// The server refused the message; the text is its status and reply.
    SendFailed(String),
}

impl View for Error {
    type V = ErrorView;

    open spec fn view(&self) -> ErrorView {
        match self {
            Error::Io(failure) => ErrorView::Io(failure@),
            Error::BodyRequired => ErrorView::BodyRequired,
            Error::BuilderError(error) => ErrorView::BuilderError(*error),
            Error::TransportError(text) => ErrorView::TransportError(text@),
            Error::SendFailed(text) => ErrorView::SendFailed(text@),
        }
    }
}

impl ErrorView {
    /// The fixed words that name the kind of the error.
    pub open spec fn description(self) -> Seq<char> {
        match self {
            ErrorView::Io(_) => "I/O Error"@,
            ErrorView::BodyRequired => "Body Required"@,
            ErrorView::BuilderError(_) => "Email Builder Error"@,
            ErrorView::TransportError(_) => "Transport Error"@,
            ErrorView::SendFailed(_) => "Send Failed"@,
        }
    }

    /// The text of what lies behind the error, where something does.
    pub open spec fn cause(self) -> Option<Seq<char>> {
        match self {
            ErrorView::Io(failure) => Some(failure.message),
            ErrorView::BuilderError(error) => Some(builder_error_text(error)),
            ErrorView::TransportError(text) => Some(text),
            _ => None,
        }
    }

    /// The text that comes with the error.
    pub open spec fn detail(self) -> Option<Seq<char>> {
        match self {
            ErrorView::SendFailed(text) => Some(text),
            _ => self.cause(),
        }
    }

    /// The error as `{:?}` writes it: the name of the variant, and what it
    /// holds in round brackets.
    pub open spec fn debug_text(self) -> Seq<char> {
        match self {
            ErrorView::Io(failure) => "Io(IoFailure { kind: "@ + kind_name(failure.kind)
                + ", message: "@ + quoted_text(failure.message) + " })"@,
            ErrorView::BodyRequired => "BodyRequired"@,
            ErrorView::BuilderError(error) => "BuilderError("@ + builder_error_name(error) + ")"@,
            ErrorView::TransportError(text) => "TransportError("@ + quoted_text(text) + ")"@,
            ErrorView::SendFailed(text) => "SendFailed("@ + quoted_text(text) + ")"@,
        }
    }

    /// The description, then a space and the detail where there is one.
    pub open spec fn text(self) -> Seq<char> {
        match self.detail() {
            Some(detail) => self.description() + " "@ + detail,
            None => self.description(),
        }
    }
}

impl Error {
    /// The fixed words that name the kind of the error.
    pub fn description(&self) -> (text: &'static str)
        ensures
            text@ == self@.description(),
    {
        match self {
            Error::Io(_) => "I/O Error",
            Error::BodyRequired => "Body Required",
            Error::BuilderError(_) => "Email Builder Error",
            Error::TransportError(_) => "Transport Error",
            Error::SendFailed(_) => "Send Failed",
        }
    }

    /// The text of what lies behind the error: the failed read, the reason
    /// the headers cannot be written, or what the transport reported.
    pub fn cause(&self) -> (cause: Option<String>)
        ensures
            match cause {
                Some(text) => self@.cause() == Some(text@),
                None => self@.cause() is None,
            },
    {
        match self {
            Error::Io(failure) => Some(failure.message.clone()),
            Error::BuilderError(error) => Some(String::from_str(error.description())),
            Error::TransportError(text) => Some(text.clone()),
            _ => None,
        }
    }

    /// The error as `{:?}` writes it.
    pub fn debug_text(&self) -> (text: String)
        ensures
            text@ == self@.debug_text(),
    {
        match self {
            Error::Io(failure) => {
                let mut text = String::from_str("Io(IoFailure { kind: ");
                text.append(failure.kind.name());
                text.append(", message: ");
                let message = quote(failure.message.as_str());
                text.append(message.as_str());
                text.append(" })");
                text
            },
            Error::BodyRequired => String::from_str("BodyRequired"),
            Error::BuilderError(error) => {
                let mut text = String::from_str("BuilderError(");
                text.append(error.name());
                text.append(")");
                text
            },
            Error::TransportError(detail) => {
                let mut text = String::from_str("TransportError(");
                let detail = quote(detail.as_str());
                text.append(detail.as_str());
                text.append(")");
                text
            },
            Error::SendFailed(detail) => {
                let mut text = String::from_str("SendFailed(");
                let detail = quote(detail.as_str());
                text.append(detail.as_str());
                text.append(")");
                text
            },
        }
    }

    /// The error as a line of text.
    pub fn to_string(&self) -> (text: String)
        ensures
            text@ == self@.text(),
    {
        let mut text = String::from_str(self.description());
        match self {
            Error::Io(failure) => {
                text.append(" ");
                text.append(failure.message.as_str());
            },
            Error::BuilderError(error) => {
                text.append(" ");
                text.append(error.description());
            },
            Error::TransportError(detail) => {
                text.append(" ");
                text.append(detail.as_str());
            },
            Error::SendFailed(detail) => {
                text.append(" ");
                text.append(detail.as_str());
            },
            Error::BodyRequired => {},
        }
        text
    }
}

impl From<IoFailure> for Error {
    fn from(failure: IoFailure) -> (error: Error) {
        Error::Io(failure)
    }
}

impl vstd::std_specs::convert::FromSpecImpl<IoFailure> for Error {
    open spec fn obeys_from_spec() -> bool {
        true
    }

    open spec fn from_spec(failure: IoFailure) -> Error {
        Error::Io(failure)
    }
}

impl From<BuilderError> for Error {
    fn from(reason: BuilderError) -> (error: Error) {
        Error::BuilderError(reason)
    }
}

impl vstd::std_specs::convert::FromSpecImpl<BuilderError> for Error {
    open spec fn obeys_from_spec() -> bool {
        true
    }

    open spec fn from_spec(reason: BuilderError) -> Error {
        Error::BuilderError(reason)
    }
}

} // verus!

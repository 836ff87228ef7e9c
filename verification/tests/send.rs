use joist_mailer::address::Mailbox;
use joist_mailer::draft::Email;
use joist_mailer::error::{BuilderError, Error, IoErrorKind, IoFailure};
use joist_mailer::render::RenderedMessage;
use joist_mailer::send::{conclude, Category, Severity, SmtpResponse};
use lettre::transport::smtp::response::{
    Category as WireCategory, Code, Response, Severity as WireSeverity,
};
use std::cell::Cell;

fn no_files(_path: &str) -> Result<Vec<u8>, IoFailure> {
    Err(IoFailure::new(IoErrorKind::NotFound, "no such file"))
}

fn response(severity: Severity, category: Category, detail: u8, lines: &[&str]) -> SmtpResponse {
    SmtpResponse {
        severity,
        category,
        detail,
        message: lines.iter().map(|line| line.to_string()).collect(),
    }
}

fn ready() -> Email {
    Email::new().to(Mailbox::new("a@x.com")).from(Mailbox::new("m@y.com")).plain_body("hello")
}

#[test]
fn positive_completion_is_success() {
    let reply = response(Severity::PositiveCompletion, Category::MailSystem, 0, &["OK"]);
    assert!(reply.is_positive());
    assert!(conclude(Ok(reply)).is_ok());
}

#[test]
fn positive_intermediate_is_success() {
    let reply = response(Severity::PositiveIntermediate, Category::MailSystem, 4, &["go on"]);
    assert!(reply.is_positive());
    assert!(conclude(Ok(reply)).is_ok());
}

#[test]
fn permanent_failure_carries_the_status() {
    let reply = response(
        Severity::PermanentNegativeCompletion,
        Category::MailSystem,
        0,
        &["mailbox unavailable", "try later"],
    );
    assert!(!reply.is_positive());
    assert_eq!(reply.status(), "5/5/0 mailbox unavailable\r\ntry later");
    match conclude(Ok(reply)) {
        Err(Error::SendFailed(text)) => {
            assert_eq!(text, "5/5/0 mailbox unavailable\r\ntry later")
        }
        _ => panic!("a refusal was expected"),
    }
}

#[test]
fn transient_failure_carries_the_status() {
    let reply = response(Severity::TransientNegativeCompletion, Category::Connections, 1, &["busy"]);
    match conclude(Ok(reply)) {
        Err(Error::SendFailed(text)) => assert_eq!(text, "4/2/1 busy"),
        _ => panic!("a refusal was expected"),
    }
}

#[test]
fn status_without_lines_ends_in_a_space() {
    let reply = response(Severity::PermanentNegativeCompletion, Category::Syntax, 3, &[]);
    assert_eq!(reply.status(), "5/0/3 ");
}

#[test]
fn status_writes_the_detail_in_decimal() {
    let one = response(Severity::PermanentNegativeCompletion, Category::Information, 9, &["a"]);
    assert_eq!(one.status(), "5/1/9 a");
    let two = response(Severity::PermanentNegativeCompletion, Category::Unspecified3, 10, &["a"]);
    assert_eq!(two.status(), "5/3/10 a");
    let three = response(Severity::PermanentNegativeCompletion, Category::Unspecified4, 255, &["a"]);
    assert_eq!(three.status(), "5/4/255 a");
    let round = response(Severity::PositiveCompletion, Category::Syntax, 100, &["a", "", "b"]);
    assert_eq!(round.status(), "2/0/100 a\r\n\r\nb");
}

#[test]
fn status_agrees_with_the_transport() {
    let severities = [
        (Severity::PositiveCompletion, WireSeverity::PositiveCompletion),
        (Severity::PositiveIntermediate, WireSeverity::PositiveIntermediate),
        (Severity::TransientNegativeCompletion, WireSeverity::TransientNegativeCompletion),
        (Severity::PermanentNegativeCompletion, WireSeverity::PermanentNegativeCompletion),
    ];
    let categories = [
        (Category::Syntax, WireCategory::Syntax),
        (Category::Information, WireCategory::Information),
        (Category::Connections, WireCategory::Connections),
        (Category::Unspecified3, WireCategory::Unspecified3),
        (Category::Unspecified4, WireCategory::Unspecified4),
        (Category::MailSystem, WireCategory::MailSystem),
    ];
    for (severity, wire_severity) in severities.iter() {
        for (category, wire_category) in categories.iter() {
            for detail in [0u8, 7, 42, 199] {
                let lines = vec!["first".to_string(), "second".to_string()];
                let wire = Response::new(Code::new(*wire_severity, *wire_category, detail), lines);
                let ours = response(*severity, *category, detail, &["first", "second"]);
                assert_eq!(ours.is_positive(), wire.is_positive());
                let expected = format!(
                    "{}/{}/{} {}",
                    wire.severity(),
                    wire.category(),
                    wire.detail(),
                    wire.message().join("\r\n")
                );
                assert_eq!(ours.status(), expected);
            }
        }
    }
}

#[test]
fn transport_failure_is_passed_on() {
    match conclude(Err("could not resolve hostname".to_string())) {
        Err(Error::TransportError(text)) => assert_eq!(text, "could not resolve hostname"),
        _ => panic!("a transport error was expected"),
    }
}

#[test]
fn send_hands_the_rendered_message_to_the_session() {
    let seen = Cell::new(0usize);
    let result = ready().send(no_files, |message: &RenderedMessage| -> Result<SmtpResponse, String> {
        seen.set(seen.get() + 1);
        assert_eq!(message.body, "hello\r\n");
        assert_eq!(message.headers[0].name, "X-Mailer");
        Ok(response(Severity::PositiveCompletion, Category::MailSystem, 0, &["OK"]))
    });
    assert!(result.is_ok());
    assert_eq!(seen.get(), 1);
}

#[test]
fn send_reports_a_refusal() {
    let result = ready().send(no_files, |_message: &RenderedMessage| -> Result<SmtpResponse, String> {
        Ok(response(Severity::PermanentNegativeCompletion, Category::MailSystem, 4, &["no", "way"]))
    });
    match result {
        Err(Error::SendFailed(text)) => assert_eq!(text, "5/5/4 no\r\nway"),
        _ => panic!("a refusal was expected"),
    }
}

#[test]
fn send_reports_a_transport_failure() {
    let result = ready().send(no_files, |_message: &RenderedMessage| -> Result<SmtpResponse, String> {
        Err("connection refused".to_string())
    });
    match result {
        Err(Error::TransportError(text)) => assert_eq!(text, "connection refused"),
        _ => panic!("a transport error was expected"),
    }
}

#[test]
fn send_begins_no_session_when_a_file_is_missing() {
    let email = ready().attach("/no/such/file");
    let result = email.send(no_files, |_message: &RenderedMessage| -> Result<SmtpResponse, String> {
        panic!("no session may be begun")
    });
    match result {
        Err(Error::Io(failure)) => {
            assert_eq!(failure.kind, IoErrorKind::NotFound);
            assert_eq!(failure.message, "no such file");
        }
        _ => panic!("an I/O error was expected"),
    }
}

#[test]
fn send_begins_no_session_without_a_body() {
    let email = Email::new().to(Mailbox::new("a@x.com")).from(Mailbox::new("m@y.com"));
    let result = email.send(no_files, |_message: &RenderedMessage| -> Result<SmtpResponse, String> {
        panic!("no session may be begun")
    });
    assert!(matches!(result, Err(Error::BodyRequired)));
}

#[test]
fn send_begins_no_session_without_a_recipient() {
    let email = Email::new().from(Mailbox::new("m@y.com")).plain_body("x");
    let result = email.send(no_files, |_message: &RenderedMessage| -> Result<SmtpResponse, String> {
        panic!("no session may be begun")
    });
    assert!(matches!(result, Err(Error::BuilderError(BuilderError::MissingTo))));
}

#[test]
fn errors_describe_themselves() {
    let io = Error::Io(IoFailure::new(IoErrorKind::NotFound, "no such file"));
    assert_eq!(io.description(), "I/O Error");
    assert_eq!(io.cause(), Some("no such file".to_string()));
    assert_eq!(io.to_string(), "I/O Error no such file");

    let body = Error::BodyRequired;
    assert_eq!(body.description(), "Body Required");
    assert_eq!(body.cause(), None);
    assert_eq!(body.to_string(), "Body Required");

    let builder = Error::BuilderError(BuilderError::MissingFrom);
    assert_eq!(builder.description(), "Email Builder Error");
    assert_eq!(builder.cause(), Some("the sender is missing".to_string()));
    assert_eq!(builder.to_string(), "Email Builder Error the sender is missing");
    assert_eq!(BuilderError::MissingTo.description(), "the recipient is missing");
    assert_eq!(BuilderError::InvalidDate.description(), "the date cannot be formatted");

    let transport = Error::TransportError("timed out".to_string());
    assert_eq!(transport.description(), "Transport Error");
    assert_eq!(transport.cause(), Some("timed out".to_string()));
    assert_eq!(transport.to_string(), "Transport Error timed out");

    let refused = Error::SendFailed("5/5/0 no".to_string());
    assert_eq!(refused.description(), "Send Failed");
    assert_eq!(refused.cause(), None);
    assert_eq!(refused.to_string(), "Send Failed 5/5/0 no");
}

#[test]
fn errors_come_from_their_causes() {
    let error: Error = IoFailure::new(IoErrorKind::UnexpectedEof, "short read").into();
    match error {
        Error::Io(failure) => {
            assert_eq!(failure.kind, IoErrorKind::UnexpectedEof);
            assert_eq!(failure.message, "short read");
        }
        _ => panic!("an I/O error was expected"),
    }
    let error = Error::from(BuilderError::MissingTo);
    assert!(matches!(error, Error::BuilderError(BuilderError::MissingTo)));
    let other = IoFailure::new(IoErrorKind::Other, "odd");
    assert_eq!(other.kind, IoErrorKind::Other);
}

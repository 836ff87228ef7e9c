use joist_mailer::address::Mailbox;
use joist_mailer::date::Timestamp;
use joist_mailer::display::display;
use joist_mailer::draft::Email;
use joist_mailer::error::{BuilderError, Error, IoErrorKind, IoFailure};
use joist_mailer::part::{Header, MimePart};

fn test_draft() -> Email {
    let mut email = Email::new();
    email.add_to(Mailbox::new("mike@efx.co.nz"));
    email.add_to(Mailbox::new("callum@efx.co.nz"));
    email.add_from(Mailbox::new("mailer@onestart.nz"));
    email.set_sender(Mailbox::new("mailer@onestart.nz"));
    let now = time::now();
    email.set_date(&Timestamp {
        sec: now.tm_sec,
        min: now.tm_min,
        hour: now.tm_hour,
        mday: now.tm_mday,
        mon: now.tm_mon,
        year: now.tm_year,
        wday: now.tm_wday,
        utcoff: now.tm_utcoff,
    });
    email.set_subject("This is a test from OneStart");
    email.set_plain_body(
        "This is a test email
You should ignore it.",
    );
    email.set_html_body(
        "<hr><p>This is a <b>test</b> email<br>
You should ignore it.</p><hr>
",
    );
    email.add_attachment("/tmp/main.rs");
    email
}

#[test]
fn test_display() {
    let email = test_draft();
    let lines = email.debug_display(|path: &str| -> Result<Vec<u8>, IoFailure> {
        assert_eq!(path, "/tmp/main.rs");
        Ok(b"fn main() {}\n".to_vec())
    });
    for line in lines.iter() {
        println!("{}", line);
    }
    assert_eq!(lines.len(), 3);
    assert_eq!(lines[0], "YOUR EMAIL WILL LOOK LIKE THIS:\n\n");
    assert!(lines[1].starts_with("EMAIL HEADER = Content-Type: multipart/mixed; boundary=\""));
    assert!(lines[2].starts_with("\nThis is a multipart message in MIME format.\r\n--"));
    assert!(lines[2].contains("<hr><p>This is a <b>test</b> email<br>\nYou should ignore it.</p><hr>\n"));
    assert!(lines[2].contains("This is a test email\nYou should ignore it."));
    assert!(lines[2].contains("Content-Disposition: attachment; filename=\"main.rs\""));
    assert!(lines[2].contains("Zm4gbWFpbigpIHt9Cg=="));
    assert!(email.render(|_path: &str| -> Result<Vec<u8>, IoFailure> { Ok(Vec::new()) }).is_ok());
}

#[test]
fn display_of_a_missing_file_is_one_line() {
    let email = test_draft();
    let lines = email.debug_display(|_path: &str| -> Result<Vec<u8>, IoFailure> {
        Err(IoFailure::new(IoErrorKind::NotFound, "No such file or directory (os error 2)"))
    });
    assert_eq!(
        lines,
        vec![
            "ERROR: Io(IoFailure { kind: NotFound, message: \"No such file or directory (os error 2)\" })"
                .to_string()
        ]
    );
}

#[test]
fn display_without_a_body_is_one_line() {
    let lines = Email::new().debug_display(|_path: &str| -> Result<Vec<u8>, IoFailure> {
        panic!("no file may be read")
    });
    assert_eq!(lines, vec!["ERROR: BodyRequired".to_string()]);
}

#[test]
fn display_shows_each_header_of_the_top_part() {
    let leaf = MimePart::leaf(
        vec![Header::new("Content-Type", "text/plain"), Header::new("X-Two", "2")],
        "hello".to_string(),
    );
    let lines = display(&Ok(leaf));
    assert_eq!(
        lines,
        vec![
            "YOUR EMAIL WILL LOOK LIKE THIS:\n\n".to_string(),
            "EMAIL HEADER = Content-Type: text/plain".to_string(),
            "EMAIL HEADER = X-Two: 2".to_string(),
            "\nhello\r\n".to_string(),
        ]
    );
}

#[test]
fn display_of_an_error_is_its_text() {
    let lines = display(&Err(Error::SendFailed("5/5/0 no".to_string())));
    assert_eq!(lines, vec!["ERROR: SendFailed(\"5/5/0 no\")".to_string()]);
}

#[test]
fn display_of_an_error_is_its_debug_form() {
    let errors = vec![
        Error::Io(IoFailure::new(IoErrorKind::NotFound, "no such file")),
        Error::Io(IoFailure::new(IoErrorKind::PermissionDenied, "denied: \"x\"")),
        Error::Io(IoFailure::new(IoErrorKind::UnexpectedEof, "")),
        Error::Io(IoFailure::new(IoErrorKind::Other, "odd\nline")),
        Error::BodyRequired,
        Error::BuilderError(BuilderError::MissingFrom),
        Error::BuilderError(BuilderError::MissingTo),
        Error::BuilderError(BuilderError::InvalidDate),
        Error::TransportError("timed out\r\n\ttwice".to_string()),
        Error::SendFailed("5/5/0 back\\slash and caf\u{e9}".to_string()),
    ];
    for error in errors {
        let expected = format!("{:?}", error);
        assert_eq!(error.debug_text(), expected);
        assert_eq!(display(&Err(error)), vec![format!("ERROR: {}", expected)]);
    }
}

#[test]
fn debug_form_of_each_variant() {
    assert_eq!(Error::BodyRequired.debug_text(), "BodyRequired");
    assert_eq!(
        Error::BuilderError(BuilderError::MissingTo).debug_text(),
        "BuilderError(MissingTo)"
    );
    assert_eq!(
        Error::TransportError("a \"b\"".to_string()).debug_text(),
        "TransportError(\"a \\\"b\\\"\")"
    );
    assert_eq!(
        Error::Io(IoFailure::new(IoErrorKind::Other, "x")).debug_text(),
        "Io(IoFailure { kind: Other, message: \"x\" })"
    );
    assert_eq!(IoErrorKind::UnexpectedEof.name(), "UnexpectedEof");
    assert_eq!(BuilderError::InvalidDate.name(), "InvalidDate");
}

use joist_mailer::address::Mailbox;
use joist_mailer::draft::Email;
use joist_mailer::error::{Error, IoErrorKind, IoFailure};
use joist_mailer::part::{MimePart, MultipartKind};
use rustc_serialize::base64::FromBase64;

fn no_files(_path: &str) -> Result<Vec<u8>, IoFailure> {
    Err(IoFailure::new(IoErrorKind::NotFound, "no such file"))
}

fn header_value(part: &MimePart, name: &str) -> Option<String> {
    for header in part.headers.iter() {
        if header.name == name {
            return Some(header.value.clone());
        }
    }
    None
}

fn same_shape(a: &MimePart, b: &MimePart) -> bool {
    if a.kind != b.kind || a.body != b.body || a.children.len() != b.children.len() {
        return false;
    }
    if a.kind.is_none() {
        if a.headers.len() != b.headers.len() {
            return false;
        }
        for i in 0..a.headers.len() {
            if a.headers[i].name != b.headers[i].name || a.headers[i].value != b.headers[i].value {
                return false;
            }
        }
    }
    for i in 0..a.children.len() {
        if !same_shape(&a.children[i], &b.children[i]) {
            return false;
        }
    }
    true
}

fn collect_boundaries(part: &MimePart, into: &mut Vec<String>) {
    if part.kind.is_some() {
        into.push(part.boundary.clone());
    }
    for child in part.children.iter() {
        collect_boundaries(child, into);
    }
}

fn collect_contents(part: &MimePart, into: &mut Vec<String>) {
    if part.kind.is_none() {
        into.push(part.body.clone());
    }
    for child in part.children.iter() {
        collect_contents(child, into);
    }
}

#[test]
fn plain_only_is_a_text_plain_leaf() {
    let email = Email::new().plain_body("just text");
    let tree = email.assemble(&Vec::new(), "a", "b").unwrap();
    assert!(tree.is_leaf());
    assert_eq!(tree.kind, None);
    assert_eq!(tree.body, "just text");
    assert_eq!(tree.children.len(), 0);
    assert_eq!(tree.boundary, "");
    assert_eq!(tree.headers.len(), 2);
    assert_eq!(tree.headers[0].name, "Content-Type");
    assert_eq!(tree.headers[0].value, "text/plain; charset=\"ascii\"");
    assert_eq!(tree.headers[1].name, "Content-Transfer-Encoding");
    assert_eq!(tree.headers[1].value, "7bit");
}

#[test]
fn html_only_is_a_text_html_leaf() {
    let email = Email::new().html_body("<p>hi</p>");
    let tree = email.assemble(&Vec::new(), "a", "b").unwrap();
    assert!(tree.is_leaf());
    assert_eq!(tree.body, "<p>hi</p>");
    assert_eq!(tree.headers.len(), 2);
    assert_eq!(tree.headers[0].name, "Content-Type");
    assert_eq!(tree.headers[0].value, "text/html; charset=\"ascii\"");
    assert_eq!(tree.headers[1].name, "Content-Transfer-Encoding");
    assert_eq!(tree.headers[1].value, "7bit");
}

#[test]
fn both_bodies_are_alternatives_with_html_first() {
    let email = Email::new().plain_body("hello").html_body("<p>hello</p>");
    let tree = email.assemble(&Vec::new(), "first", "second").unwrap();
    assert_eq!(tree.kind, Some(MultipartKind::Alternative));
    assert_eq!(tree.body, "This is a multipart message in MIME format.");
    assert_eq!(tree.boundary, "first_");
    assert_eq!(tree.headers.len(), 1);
    assert_eq!(tree.headers[0].name, "Content-Type");
    assert_eq!(tree.headers[0].value, "multipart/alternative; boundary=\"first_\"");
    assert_eq!(tree.children.len(), 2);
    assert_eq!(tree.children[0].body, "<p>hello</p>");
    assert_eq!(
        header_value(&tree.children[0], "Content-Type"),
        Some("text/html; charset=\"ascii\"".to_string())
    );
    assert_eq!(tree.children[1].body, "hello");
    assert_eq!(
        header_value(&tree.children[1], "Content-Type"),
        Some("text/plain; charset=\"ascii\"".to_string())
    );
}

#[test]
fn attachments_follow_the_body_in_order() {
    let email = Email::new().plain_body("see files").attach("/data/one.bin").attach("two.txt");
    let files = vec![b"first".to_vec(), b"second file".to_vec()];
    let tree = email.assemble(&files, "a", "b").unwrap();
    assert_eq!(tree.kind, Some(MultipartKind::Mixed));
    assert_eq!(tree.body, "This is a multipart message in MIME format.");
    assert_eq!(tree.boundary, "b_");
    assert_eq!(tree.headers.len(), 1);
    assert_eq!(tree.headers[0].value, "multipart/mixed; boundary=\"b_\"");
    assert_eq!(tree.children.len(), 3);
    assert!(tree.children[0].is_leaf());
    assert_eq!(tree.children[0].body, "see files");
    let one = &tree.children[1];
    assert_eq!(one.headers.len(), 3);
    assert_eq!(one.headers[0].name, "Content-Disposition");
    assert_eq!(one.headers[0].value, "attachment; filename=\"one.bin\"");
    assert_eq!(one.headers[1].name, "Content-Type");
    assert_eq!(one.headers[1].value, "application/octet-stream");
    assert_eq!(one.headers[2].name, "Content-Transfer-Encoding");
    assert_eq!(one.headers[2].value, "base64");
    assert_eq!(one.body.from_base64().unwrap(), b"first".to_vec());
    let two = &tree.children[2];
    assert_eq!(two.headers[0].value, "attachment; filename=\"two.txt\"");
    assert_eq!(two.body.from_base64().unwrap(), b"second file".to_vec());
}

#[test]
fn end_to_end_mixed_tree() {
    let email = Email::new()
        .to(Mailbox::new("a@x.com"))
        .to(Mailbox::new("b@x.com"))
        .from(Mailbox::new("m@y.com"))
        .subject("Hi")
        .plain_body("hello")
        .html_body("<p>hello</p>")
        .attach("/tmp/f.txt");
    let tree = email
        .build_mime_message(|path: &str| -> Result<Vec<u8>, IoFailure> {
            assert_eq!(path, "/tmp/f.txt");
            Ok(b"ABC".to_vec())
        })
        .unwrap();
    assert_eq!(tree.kind, Some(MultipartKind::Mixed));
    assert!(tree.headers[0].value.starts_with("multipart/mixed; boundary=\""));
    assert_eq!(tree.children.len(), 2);
    let body = &tree.children[0];
    assert_eq!(body.kind, Some(MultipartKind::Alternative));
    assert!(body.headers[0].value.starts_with("multipart/alternative; boundary=\""));
    assert_eq!(body.children.len(), 2);
    assert_eq!(body.children[0].body, "<p>hello</p>");
    assert_eq!(body.children[0].headers[0].value, "text/html; charset=\"ascii\"");
    assert_eq!(body.children[1].body, "hello");
    assert_eq!(body.children[1].headers[0].value, "text/plain; charset=\"ascii\"");
    let attachment = &tree.children[1];
    assert!(attachment.is_leaf());
    assert_eq!(attachment.headers[0].value, "attachment; filename=\"f.txt\"");
    assert_eq!(attachment.body, "QUJD");
    assert_eq!(attachment.body.from_base64().unwrap(), b"ABC".to_vec());
}

#[test]
fn no_body_is_refused() {
    let email = Email::new();
    assert!(matches!(email.assemble(&Vec::new(), "a", "b"), Err(Error::BodyRequired)));
    assert!(matches!(email.build_mime_message(no_files), Err(Error::BodyRequired)));
}

#[test]
fn no_body_is_refused_before_any_file_is_read() {
    let email = Email::new().attach("/tmp/f.txt");
    let result = email.build_mime_message(|_path: &str| -> Result<Vec<u8>, IoFailure> {
        panic!("no file may be read")
    });
    assert!(matches!(result, Err(Error::BodyRequired)));
}

#[test]
fn missing_file_gives_an_io_error() {
    let email = Email::new().plain_body("x").attach("/no/such/file");
    match email.build_mime_message(no_files) {
        Err(Error::Io(failure)) => {
            assert_eq!(failure.kind, IoErrorKind::NotFound);
            assert_eq!(failure.message, "no such file");
        }
        _ => panic!("an I/O error was expected"),
    }
}

#[test]
fn reading_stops_at_the_first_failure() {
    let email = Email::new().plain_body("x").attach("good").attach("bad").attach("never");
    let result = email.build_mime_message(|path: &str| -> Result<Vec<u8>, IoFailure> {
        if path == "good" {
            Ok(vec![1, 2, 3])
        } else if path == "bad" {
            Err(IoFailure::new(IoErrorKind::PermissionDenied, "denied"))
        } else {
            panic!("nothing may be read after a failure")
        }
    });
    match result {
        Err(Error::Io(failure)) => {
            assert_eq!(failure.kind, IoErrorKind::PermissionDenied);
            assert_eq!(failure.message, "denied");
        }
        _ => panic!("an I/O error was expected"),
    }
}

#[test]
fn building_twice_gives_the_same_shape() {
    let email = Email::new().plain_body("hello").html_body("<b>hello</b>").attach("f");
    let read = |_path: &str| -> Result<Vec<u8>, IoFailure> { Ok(b"content".to_vec()) };
    let first = email.build_mime_message(read).unwrap();
    let second = email.build_mime_message(read).unwrap();
    assert!(same_shape(&first, &second));
    let given = email.assemble(&vec![b"content".to_vec()], "one", "two").unwrap();
    assert!(same_shape(&first, &given));
    let other = Email::new().plain_body("hello").attach("f");
    assert!(!same_shape(&first, &other.build_mime_message(read).unwrap()));
}

#[test]
fn random_boundaries_differ_between_builds() {
    let email = Email::new().plain_body("hello").html_body("<b>hello</b>");
    let first = email.build_mime_message(no_files).unwrap();
    let second = email.build_mime_message(no_files).unwrap();
    assert_eq!(first.boundary.chars().count(), 31);
    assert!(first.boundary.ends_with('_'));
    assert!(first.boundary[..30].chars().all(|c| c.is_ascii_alphanumeric()));
    assert_ne!(first.boundary, second.boundary);
}

#[test]
fn boundaries_are_distinct_and_absent_from_contents() {
    let email = Email::new()
        .plain_body("text with seed_ and other_ in it")
        .html_body("<p>seed__</p>")
        .attach("f");
    let tree = email.assemble(&vec![vec![0u8, 1, 2, 250, 251, 252]], "seed", "other").unwrap();
    let mut boundaries = Vec::new();
    collect_boundaries(&tree, &mut boundaries);
    let mut contents = Vec::new();
    collect_contents(&tree, &mut contents);
    assert_eq!(boundaries, vec!["other__".to_string(), "seed___".to_string()]);
    assert_eq!(contents.len(), 3);
    for boundary in boundaries.iter() {
        for content in contents.iter() {
            assert!(!content.contains(boundary.as_str()));
        }
    }
}

#[test]
fn equal_seeds_still_give_distinct_boundaries() {
    let email = Email::new().plain_body("a").html_body("b").attach("f");
    let tree = email.assemble(&vec![Vec::new()], "same", "same").unwrap();
    assert_eq!(tree.children[0].boundary, "same_");
    assert_eq!(tree.boundary, "same__");
}

#[test]
fn later_bodies_replace_earlier_ones() {
    let mut email = Email::new();
    email.set_plain_body("first");
    email.set_plain_body("second");
    email.set_html_body("<i>first</i>");
    email.set_html_body("<i>second</i>");
    let tree = email.assemble(&Vec::new(), "a", "b").unwrap();
    assert_eq!(tree.children[0].body, "<i>second</i>");
    assert_eq!(tree.children[1].body, "second");
}

#[test]
fn attachments_are_listed_in_order() {
    let mut email = Email::new();
    email.add_attachment("one");
    email.add_attachment("two");
    email.add_attachment("one");
    assert_eq!(email.attachments(), &vec!["one".to_string(), "two".to_string(), "one".to_string()]);
}

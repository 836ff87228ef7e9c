use joist_mailer::address::Mailbox;
use joist_mailer::assemble::file_name_of;
use joist_mailer::base64::can_encode;
use joist_mailer::boundary::{chars_of, make_boundary, occurs_in, occurs_in_texts};
use joist_mailer::draft::Email;
use joist_mailer::part::{Header, MimePart, MultipartKind};
use rustc_serialize::base64::FromBase64;

fn attachment_content(bytes: &[u8]) -> String {
    let email = Email::new().plain_body("x").attach("/tmp/f.bin");
    let files = vec![bytes.to_vec()];
    let tree = email.assemble(&files, "a", "b").unwrap();
    tree.children[1].body.clone()
}

#[test]
fn base64_of_three_bytes() {
    assert_eq!(attachment_content(b"ABC"), "QUJD");
}

#[test]
fn base64_of_nothing_is_empty() {
    assert_eq!(attachment_content(b""), "");
}

#[test]
fn base64_pads_one_byte_with_two_signs() {
    assert_eq!(attachment_content(b"A"), "QQ==");
}

#[test]
fn base64_pads_two_bytes_with_one_sign() {
    assert_eq!(attachment_content(b"AB"), "QUI=");
}

#[test]
fn base64_uses_the_standard_alphabet() {
    assert_eq!(attachment_content(&[0xfb, 0xff, 0xfe]), "+//+");
}

#[test]
fn base64_line_of_76_has_no_break() {
    let bytes = vec![0u8; 57];
    let text = attachment_content(&bytes);
    assert_eq!(text.len(), 76);
    assert!(!text.contains("\r\n"));
}

#[test]
fn base64_breaks_after_76_characters() {
    let bytes = vec![0u8; 58];
    let text = attachment_content(&bytes);
    let mut expected = String::new();
    for _ in 0..76 {
        expected.push('A');
    }
    expected.push_str("\r\nAA==");
    assert_eq!(text, expected);
}

#[test]
fn base64_breaks_every_line_but_the_last() {
    let bytes = vec![0xffu8; 114];
    let text = attachment_content(&bytes);
    assert_eq!(text.len(), 152 + 2);
    assert_eq!(&text[76..78], "\r\n");
    assert!(!text.ends_with("\r\n"));
}

#[test]
fn base64_round_trip_gives_the_bytes_back() {
    let mut bytes: Vec<u8> = Vec::new();
    for i in 0..1000usize {
        bytes.push((i * 7 % 256) as u8);
    }
    let text = attachment_content(&bytes);
    let stripped: String = text.chars().filter(|c| *c != '\r' && *c != '\n').collect();
    assert_eq!(stripped.from_base64().unwrap(), bytes);
    assert_eq!(text.from_base64().unwrap(), bytes);
}

#[test]
fn can_encode_small_inputs() {
    assert!(can_encode(0));
    assert!(can_encode(1));
    assert!(can_encode(1_000_000));
}

#[test]
fn cannot_encode_what_would_not_fit() {
    assert!(!can_encode(usize::MAX));
    assert!(!can_encode(usize::MAX / 2));
}

#[test]
fn chars_of_keeps_every_character() {
    assert_eq!(chars_of("héllo"), vec!['h', 'é', 'l', 'l', 'o']);
    assert_eq!(chars_of(""), Vec::<char>::new());
}

#[test]
fn occurs_in_finds_substrings() {
    let text = chars_of("hello world");
    assert!(occurs_in(&chars_of("lo w"), &text));
    assert!(occurs_in(&chars_of("hello world"), &text));
    assert!(occurs_in(&chars_of(""), &text));
    assert!(occurs_in(&chars_of("d"), &text));
    assert!(!occurs_in(&chars_of("world!"), &text));
    assert!(!occurs_in(&chars_of("hello world and more"), &text));
    assert!(occurs_in(&chars_of(""), &chars_of("")));
}

#[test]
fn occurs_in_texts_looks_at_each_text() {
    let texts = vec![chars_of("one"), chars_of("two")];
    assert!(occurs_in_texts(&chars_of("wo"), &texts));
    assert!(!occurs_in_texts(&chars_of("three"), &texts));
    assert!(!occurs_in_texts(&chars_of("x"), &Vec::new()));
}

#[test]
fn boundary_is_the_seed_and_one_mark() {
    let texts = vec![chars_of("some text")];
    assert_eq!(make_boundary("seed", &texts), "seed_");
    assert_eq!(make_boundary("seed", &Vec::new()), "seed_");
}

#[test]
fn boundary_grows_until_it_is_absent() {
    let texts = vec![chars_of("before seed_ after"), chars_of("--seed__--")];
    assert_eq!(make_boundary("seed", &texts), "seed___");
}

#[test]
fn boundary_of_an_empty_seed() {
    let texts = vec![chars_of("a_b__c")];
    assert_eq!(make_boundary("", &texts), "___");
}

#[test]
fn file_name_is_what_follows_the_last_slash() {
    assert_eq!(file_name_of("/tmp/f.txt"), "f.txt");
    assert_eq!(file_name_of("f.txt"), "f.txt");
    assert_eq!(file_name_of("a/b/c d.tar.gz"), "c d.tar.gz");
    assert_eq!(file_name_of("dir/"), "");
    assert_eq!(file_name_of(""), "");
}

#[test]
fn multipart_header_names_subtype_and_boundary() {
    let header = MultipartKind::Mixed.content_type_header("xyz");
    assert_eq!(header.name, "Content-Type");
    assert_eq!(header.value, "multipart/mixed; boundary=\"xyz\"");
    let header = MultipartKind::Alternative.content_type_header("b_");
    assert_eq!(header.value, "multipart/alternative; boundary=\"b_\"");
    assert_eq!(MultipartKind::Mixed.subtype(), "mixed");
    assert_eq!(MultipartKind::Alternative.subtype(), "alternative");
}

#[test]
fn leaf_text_is_its_body_and_a_line_end() {
    let leaf = MimePart::leaf(vec![Header::new("Content-Type", "text/plain")], "hello".to_string());
    assert!(leaf.is_leaf());
    assert_eq!(leaf.body_text(), "hello\r\n");
}

#[test]
fn multipart_text_frames_each_child() {
    let first = MimePart::leaf(vec![Header::new("A", "1")], "one".to_string());
    let second = MimePart::leaf(vec![Header::new("B", "2")], "two".to_string());
    let part = MimePart::multipart(
        MultipartKind::Mixed,
        "xyz".to_string(),
        "pre".to_string(),
        vec![first, second],
    );
    assert!(!part.is_leaf());
    assert_eq!(part.headers.len(), 1);
    assert_eq!(part.headers[0].value, "multipart/mixed; boundary=\"xyz\"");
    assert_eq!(
        part.body_text(),
        "pre\r\n--xyz\r\nA: 1\r\n\r\none\r\n\r\n--xyz\r\nB: 2\r\n\r\ntwo\r\n\r\n--xyz--\r\n"
    );
}

#[test]
fn mailbox_constructors() {
    let plain = Mailbox::new("a@x.com");
    assert_eq!(plain.name, None);
    assert_eq!(plain.address, "a@x.com");
    let named = Mailbox::new_with_name("Ann", "a@x.com");
    assert_eq!(named.name, Some("Ann".to_string()));
    assert_eq!(named.address, "a@x.com");
    let copy = named.clone();
    assert_eq!(copy.name, named.name);
    assert_eq!(copy.address, named.address);
}

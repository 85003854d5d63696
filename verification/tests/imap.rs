use troop::source::imap::{messages_from_fetch, parse_rfc822, uid_set};

const SIMPLE: &[u8] = b"From: Alice <alice@example.com>\r\nSubject: TROOP add Buy milk\r\nMessage-ID: <m1@example.com>\r\nContent-Type: text/plain\r\n\r\nTwo litres.\r\n";

const MULTIPART: &[u8] = b"From: bob@example.com\r\nSubject: hello\r\nContent-Type: multipart/alternative; boundary=\"XX\"\r\n\r\n--XX\r\nContent-Type: text/html\r\n\r\n<p>html</p>\r\n--XX\r\nContent-Type: text/plain\r\n\r\nplain body\r\n--XX--\r\n";

#[test]
fn parses_headers_and_body() {
    let m = parse_rfc822(SIMPLE, "imap:work").unwrap();
    assert_eq!(m.source, "imap:work");
    assert_eq!(m.from, "Alice <alice@example.com>");
    assert_eq!(m.subject, "TROOP add Buy milk");
    assert!(m.body.starts_with("Two litres."));
    assert_eq!(m.headers.get("message-id").map(|s| s.as_str()), Some("<m1@example.com>"));
    assert_eq!(m.raw_body, SIMPLE.to_vec());
}

#[test]
fn takes_the_plain_text_part() {
    let m = parse_rfc822(MULTIPART, "imap:work").unwrap();
    assert_eq!(m.from, "bob@example.com");
    assert!(m.body.starts_with("plain body"));
    assert!(!m.body.contains("html"));
}

#[test]
fn fetched_bodies_become_messages_in_order() {
    let bodies = vec![Some(SIMPLE.to_vec()), None, Some(MULTIPART.to_vec())];
    let msgs = messages_from_fetch(&bodies, "imap:x");
    assert_eq!(msgs.len(), 2);
    assert_eq!(msgs[0].subject, "TROOP add Buy milk");
    assert_eq!(msgs[1].subject, "hello");
}

#[test]
fn uid_sets_are_comma_separated() {
    assert_eq!(uid_set(&[]), "");
    assert_eq!(uid_set(&[7]), "7");
    assert_eq!(uid_set(&[3, 10, 42]), "3,10,42");
}

use nec::structs::{get_first_value, Email, EmailHeader, Mailbox, MailboxTitle};

#[test]
fn body_of_a_simple_message() {
    let m = Email::try_new(b"Subject: test\n\nThis is the body").unwrap();
    assert_eq!(m.body(), "This is the body");
    let m = Email::new(b"Subject: test\n\nThis is the body");
    assert_eq!(m.body(), "This is the body");
}

#[test]
fn quoted_printable_body_is_decoded() {
    let raw = b"Content-Transfer-Encoding: quoted-printable\n\nHello=20World";
    assert_eq!(Email::try_new(raw).unwrap().body(), "Hello World");
}

#[test]
fn unparsable_message_gives_none() {
    assert!(Email::try_new(b"\rX").is_none());
}

#[test]
fn header_subject_is_read() {
    let h = EmailHeader::try_new("INBOX", 3, b"From: a@b\nSubject: Hello there!\n\n").unwrap();
    assert_eq!(h.subject(), "Hello there!");
    assert_eq!(h.mailbox(), "INBOX");
    assert_eq!(h.index(), 3);
}

#[test]
fn header_name_case_does_not_matter() {
    let h = EmailHeader::new("INBOX", 1, b"sUbJeCt: lower\n");
    assert_eq!(h.subject(), "lower");
}

#[test]
fn first_subject_header_counts() {
    let h = EmailHeader::new("INBOX", 1, b"Subject: one\nSubject: two\n\n");
    assert_eq!(h.subject(), "one");
}

#[test]
fn missing_subject_is_noted() {
    let h = EmailHeader::new("INBOX", 1, b"From: a@b\n\n");
    assert_eq!(h.subject(), "Failed to read subject");
}

#[test]
fn unparsable_header_gives_none() {
    assert!(EmailHeader::try_new("INBOX", 1, b"\rX").is_none());
}

#[test]
fn header_from_fields() {
    let fields = vec![
        ("To".to_string(), "x@y".to_string()),
        ("SUBJECT".to_string(), "Hi".to_string()),
    ];
    let h = EmailHeader::from_fields("Sent", 7, &fields);
    assert_eq!(h.subject(), "Hi");
    assert_eq!(h.index(), 7);
    let h = EmailHeader::from_fields("Sent", 7, &vec![]);
    assert_eq!(h.subject(), "Failed to read subject");
}

#[test]
fn first_value_lookup() {
    let fields = vec![
        ("A".to_string(), "1".to_string()),
        ("b".to_string(), "2".to_string()),
        ("B".to_string(), "3".to_string()),
    ];
    assert_eq!(get_first_value(&fields, "B"), Some("2".to_string()));
    assert_eq!(get_first_value(&fields, "a"), Some("1".to_string()));
    assert_eq!(get_first_value(&fields, "c"), None);
}

#[test]
fn mailbox_numbers_messages_from_one() {
    let h1: &[u8] = b"Subject: first\n\n";
    let h2: &[u8] = b"Subject: second\n\n";
    let mb = Mailbox::try_new("INBOX", vec![h1, h2]).unwrap();
    assert_eq!(mb.name(), "INBOX");
    let mails = mb.get_emails();
    assert_eq!(mails.len(), 2);
    assert_eq!(mails[0].index(), 1);
    assert_eq!(mails[0].subject(), "first");
    assert_eq!(mails[1].index(), 2);
    assert_eq!(mails[1].subject(), "second");
    assert_eq!(mails[1].mailbox(), "INBOX");
}

#[test]
fn mailbox_with_a_bad_header_gives_none() {
    let h1: &[u8] = b"Subject: first\n\n";
    let h2: &[u8] = b"\rbad";
    assert!(Mailbox::try_new("INBOX", vec![h1, h2]).is_none());
}

#[test]
fn empty_mailbox() {
    let mb = Mailbox::new("Drafts", vec![]);
    assert!(mb.get_emails().is_empty());
}

#[test]
fn header_clone_is_equal() {
    let h = EmailHeader::new("INBOX", 4, b"Subject: s\n\n");
    let c = h.clone();
    assert_eq!(c.subject(), h.subject());
    assert_eq!(c.index(), 4);
}

#[test]
fn mailbox_title() {
    assert_eq!(MailboxTitle::new("Sent").title(), "Sent");
}

use mail_session::address::User;
use mail_session::errors::MailError;
use mail_session::persist::pick_free_name;
use mail_session::text::{make_uid, parse_uid};

#[test]
fn user_build_derives_hosts() {
    let u = User::build("alice@qq.com", String::from("pw")).unwrap();
    assert_eq!(u.smtp_domain, "smtp.qq.com");
    assert_eq!(u.imap_domain, "imap.qq.com");
    assert_eq!(u.email_addr, "alice@qq.com");
}

#[test]
fn user_build_trims_address() {
    let u = User::build("  bob@163.com \n", String::from("pw")).unwrap();
    assert_eq!(u.email_addr, "bob@163.com");
    assert_eq!(u.smtp_domain, "smtp.163.com");
    assert_eq!(u.imap_domain, "imap.163.com");
}

#[test]
fn user_build_rejects_unsupported_domain() {
    let r = User::build("alice@gmail.com", String::from("pw"));
    assert!(matches!(r, Err(MailError::UnsupportedDomain)));
}

#[test]
fn user_build_rejects_invalid_address() {
    let r = User::build("not an address", String::from("pw"));
    assert!(matches!(r, Err(MailError::InvalidAddress)));
}

#[test]
fn make_uid_renders_position() {
    assert_eq!(make_uid("INBOX", 42), "INBOX:42");
    assert_eq!(make_uid("Sent", 1), "Sent:1");
}

#[test]
fn parse_uid_resolves_location() {
    let (mailbox, seq) = parse_uid("INBOX:3").unwrap();
    assert_eq!(mailbox, "INBOX");
    assert_eq!(seq, 3);
}

#[test]
fn parse_uid_takes_second_segment() {
    let (mailbox, seq) = parse_uid("A:17:ignored").unwrap();
    assert_eq!(mailbox, "A");
    assert_eq!(seq, 17);
}

#[test]
fn parse_uid_rejects_bad_identifiers() {
    assert!(parse_uid("nocolon").is_none());
    assert!(parse_uid("a:").is_none());
    assert!(parse_uid("a:x9").is_none());
    assert!(parse_uid("a:99999999999999999999999999").is_none());
}

#[test]
fn pick_free_name_keeps_unused_name() {
    let taken: Vec<String> = vec![String::from("other.txt")];
    let r = pick_free_name(&taken, &String::from("report.pdf"));
    assert_eq!(r, "report.pdf");
}

#[test]
fn pick_free_name_numbers_collisions() {
    let taken: Vec<String> = vec![String::from("report.pdf")];
    let r = pick_free_name(&taken, &String::from("report.pdf"));
    assert_eq!(r, "report(1).pdf");

    let taken2: Vec<String> = vec![String::from("report.pdf"), String::from("report(1).pdf")];
    let r2 = pick_free_name(&taken2, &String::from("report.pdf"));
    assert_eq!(r2, "report(2).pdf");
}

#[test]
fn pick_free_name_without_extension() {
    let taken: Vec<String> = vec![String::from("data")];
    let r = pick_free_name(&taken, &String::from("data"));
    assert_eq!(r, "data(1).");
}

#[test]
fn error_messages_name_their_kind() {
    assert!(MailError::SendError.message().starts_with("SendError"));
    assert!(MailError::UnsupportedDomain.message().starts_with("UnsupportedDomain"));
    assert!(MailError::AttachmentWriteError.message().starts_with("AttachmentWriteError"));
    assert!(MailError::NoActiveSession.message().starts_with("NoActiveSession"));
}

use mail_session::codec::EmailMetadata;
use mail_session::compose::AttachmentSource;
use mail_session::errors::MailError;
use mail_session::session::{Controller, DetailPlan, PageStep, SessionState};

fn active_controller() -> Controller {
    let mut c = Controller::new();
    let plan = c.login_begin("alice@qq.com", String::from("secret")).unwrap();
    assert_eq!(plan.smtp_host, "smtp.qq.com");
    assert_eq!(plan.imap_host, "imap.qq.com");
    assert_eq!(plan.email_addr, "alice@qq.com");
    assert_eq!(plan.password, "secret");
    c.smtp_connected(true).unwrap();
    let (r, close_smtp) = c.imap_connected(true);
    r.unwrap();
    assert!(!close_smtp);
    assert!(matches!(c.state, SessionState::Active));
    c
}

fn header_bytes(subject: &str) -> Vec<u8> {
    let mut raw = Vec::new();
    raw.extend_from_slice(b"From: carol@example.com\r\nSubject: ");
    raw.extend_from_slice(subject.as_bytes());
    raw.extend_from_slice(b"\r\n\r\n");
    raw
}

#[test]
fn unsupported_domain_opens_no_handles() {
    let mut c = Controller::new();
    let r = c.login_begin("alice@gmail.com", String::from("pw"));
    assert!(matches!(r, Err(MailError::UnsupportedDomain)));
    assert!(matches!(c.state, SessionState::LoggedOut));
    assert!(!c.smtp_open);
    assert!(!c.imap_open);
}

#[test]
fn smtp_failure_tears_down() {
    let mut c = Controller::new();
    c.login_begin("alice@qq.com", String::from("pw")).unwrap();
    let r = c.smtp_connected(false);
    assert!(matches!(r, Err(MailError::SmtpConnectError)));
    assert!(matches!(c.state, SessionState::LoggedOut));
    assert!(!c.smtp_open && !c.imap_open);
}

#[test]
fn imap_failure_closes_smtp() {
    let mut c = Controller::new();
    c.login_begin("alice@qq.com", String::from("pw")).unwrap();
    c.smtp_connected(true).unwrap();
    let (r, close_smtp) = c.imap_connected(false);
    assert!(matches!(r, Err(MailError::ImapConnectError)));
    assert!(close_smtp);
    assert!(matches!(c.state, SessionState::LoggedOut));
    assert!(!c.smtp_open && !c.imap_open);
}

#[test]
fn actions_require_active_session() {
    let mut c = Controller::new();
    assert!(matches!(c.list_begin(&String::from("INBOX")), Err(MailError::NoActiveSession)));
    assert!(matches!(
        c.fetch_detail_begin(&String::from("INBOX:1")),
        Err(MailError::NoActiveSession)
    ));
    assert!(matches!(c.list_mailboxes(Vec::new()), Err(MailError::NoActiveSession)));
    let (r, logout_cmd) = c.logout();
    assert!(matches!(r, Err(MailError::NoActiveSession)));
    assert!(!logout_cmd);
}

#[test]
fn scenario_login_and_list_mailboxes() {
    let c = active_controller();
    let names = vec![
        String::from("INBOX"),
        String::from("Sent"),
        String::from("&UXZO1mWHTvZZOQ-"),
    ];
    let kept = c.list_mailboxes(names).unwrap();
    assert_eq!(kept, vec![String::from("INBOX"), String::from("Sent")]);
}

#[test]
fn scenario_send_over_broken_transport() {
    let c = active_controller();
    let msg = c
        .send_build("bob@qq.com", "Hi", "Hello", Some(Vec::new()))
        .unwrap();
    let formatted = msg.formatted();
    let text = String::from_utf8_lossy(&formatted).into_owned();
    assert!(text.contains("Subject: Hi"));
    assert!(text.contains("Hello"));
    // the transport reports failure: the action fails with SendError
    let r = c.send_finish(false);
    let e = match r {
        Err(e) => e,
        Ok(()) => panic!("send over a broken transport must fail"),
    };
    assert!(matches!(e, MailError::SendError));
    assert!(e.message().starts_with("SendError"));
}

#[test]
fn send_rejects_invalid_recipient() {
    let c = active_controller();
    let r = c.send_build("not an address", "s", "b", Some(Vec::new()));
    assert!(matches!(r, Err(MailError::RecipientAddressInvalid)));
}

#[test]
fn send_surfaces_unreadable_attachments() {
    let c = active_controller();
    let r = c.send_build("bob@qq.com", "s", "b", None);
    assert!(matches!(r, Err(MailError::AttachmentReadError)));
}

#[test]
fn send_with_attachment_builds_multipart() {
    let c = active_controller();
    let files = vec![
        AttachmentSource { path: String::from("notes.txt"), data: b"some notes".to_vec() },
        AttachmentSource { path: String::from("blob"), data: vec![0, 1, 2] },
    ];
    let msg = c.send_build("bob@qq.com", "Files", "see attached", Some(files)).unwrap();
    let text = String::from_utf8_lossy(&msg.formatted()).into_owned();
    assert!(text.contains("multipart/mixed"));
    assert!(text.contains("notes.txt"));
    // the MIME type is guessed from the extension, octet-stream when none
    assert!(text.contains("text/plain"));
    assert!(text.contains("application/octet-stream"));
    assert!(text.contains("Content-Disposition: attachment"));
}

fn collect_walk(c: &mut Controller, headers: &[Vec<u8>], start: usize) -> Vec<String> {
    // the caller has selected the mailbox; feed one header per position,
    // then the empty fetch that ends the walk
    let mut uids = Vec::new();
    let mut seq = start;
    loop {
        let step = if seq - 1 < headers.len() {
            c.page_next(Some(&headers[seq - 1])).unwrap()
        } else {
            c.page_next(None).unwrap()
        };
        match step {
            PageStep::Item { meta, next_seq } => {
                uids.push(meta.uid);
                seq = next_seq;
            }
            PageStep::End { terminal } => {
                assert_eq!(terminal.uid, "");
                return uids;
            }
        }
    }
}

#[test]
fn pagination_never_overlaps_and_covers_all() {
    let mut c = active_controller();
    let mailbox = String::from("INBOX");
    let headers: Vec<Vec<u8>> = (1..=4).map(|i| header_bytes(&format!("msg {i}"))).collect();

    let start1 = c.list_begin(&mailbox).unwrap();
    assert_eq!(start1, 1);
    // the mailbox holds two messages during the first walk
    let first = collect_walk(&mut c, &headers[..2].to_vec(), start1);
    assert_eq!(first, vec![String::from("INBOX:1"), String::from("INBOX:2")]);

    // two more messages arrive; the second walk resumes, never re-emitting
    let start2 = c.list_begin(&mailbox).unwrap();
    assert_eq!(start2, 3);
    let second = collect_walk(&mut c, &headers, start2);
    assert_eq!(second, vec![String::from("INBOX:3"), String::from("INBOX:4")]);

    for uid in &first {
        assert!(!second.contains(uid));
    }
    let mut union = first.clone();
    union.extend(second.iter().cloned());
    assert_eq!(
        union,
        vec![
            String::from("INBOX:1"),
            String::from("INBOX:2"),
            String::from("INBOX:3"),
            String::from("INBOX:4"),
        ]
    );
}

#[test]
fn pagination_aborts_on_malformed_header() {
    let mut c = active_controller();
    let mailbox = String::from("Junk");
    c.list_begin(&mailbox).unwrap();
    // a header the parser refuses: a lone continuation line
    let bad = b" broken".to_vec();
    let r = c.page_next(Some(&bad));
    assert!(matches!(r, Err(MailError::ParseError)));
    // the aborted walk leaves no page in progress; a new one can begin
    assert_eq!(c.list_begin(&mailbox).unwrap(), 1);
}

fn detail_message() -> Vec<u8> {
    let mut raw = Vec::new();
    raw.extend_from_slice(b"Content-Type: multipart/mixed; boundary=\"sep\"\r\n\r\n");
    raw.extend_from_slice(b"--sep\r\n");
    raw.extend_from_slice(b"Content-Type: text/plain\r\nContent-Disposition: inline\r\n\r\n");
    raw.extend_from_slice(b"the inline text\r\n");
    raw.extend_from_slice(b"--sep\r\n");
    raw.extend_from_slice(
        b"Content-Type: text/plain\r\nContent-Disposition: attachment; filename=\"file1.txt\"\r\n\r\n",
    );
    raw.extend_from_slice(b"decoded bytes\r\n");
    raw.extend_from_slice(b"--sep--\r\n");
    raw
}

#[test]
fn scenario_fetch_detail_with_attachment() {
    let mut c = active_controller();
    let uid = String::from("INBOX:3");
    let plan = c.fetch_detail_begin(&uid).unwrap();
    let (mailbox, seq) = match plan {
        DetailPlan::Fetch { mailbox, seq } => (mailbox, seq),
        DetailPlan::Cached { .. } => panic!("nothing was cached yet"),
    };
    assert_eq!(mailbox, "INBOX");
    assert_eq!(seq, 3);

    let res = c.fetch_detail_finish(&detail_message(), &Vec::new()).unwrap();
    assert_eq!(res.detail.body, "the inline text");
    assert_eq!(res.detail.attachments, vec![String::from("file1.txt")]);
    assert_eq!(res.writes.len(), 1);
    assert_eq!(res.writes[0].name, "file1.txt");
    assert_eq!(
        String::from_utf8(res.writes[0].data.clone()).unwrap().trim_end(),
        "decoded bytes"
    );
}

#[test]
fn fetch_detail_is_idempotent() {
    let mut c = active_controller();
    let uid = String::from("INBOX:3");
    match c.fetch_detail_begin(&uid).unwrap() {
        DetailPlan::Fetch { .. } => {}
        DetailPlan::Cached { .. } => panic!("nothing was cached yet"),
    }
    let first = c.fetch_detail_finish(&detail_message(), &Vec::new()).unwrap();

    // the second request is served from the cache, bit-identical
    match c.fetch_detail_begin(&uid).unwrap() {
        DetailPlan::Cached { detail } => {
            assert_eq!(detail.body, first.detail.body);
            assert_eq!(detail.attachments, first.detail.attachments);
        }
        DetailPlan::Fetch { .. } => panic!("the second request must be a cache hit"),
    }
}

#[test]
fn fetch_detail_rejects_malformed_identifier() {
    let mut c = active_controller();
    let r = c.fetch_detail_begin(&String::from("nocolon"));
    assert!(matches!(r, Err(MailError::ParseError)));
}

#[test]
fn transport_failure_fails_action_and_tears_down() {
    let mut c = active_controller();
    c.list_begin(&String::from("INBOX")).unwrap();
    // the SELECT fails on the wire: the action fails, the session dies
    let e = c.transport_failed();
    assert!(matches!(e, MailError::ImapConnectError));
    assert!(matches!(c.state, SessionState::LoggedOut));
    assert!(!c.smtp_open && !c.imap_open);
    // a fresh login is accepted afterwards
    let c2 = active_controller();
    assert!(matches!(c2.state, SessionState::Active));
}

#[test]
fn transport_failure_during_detail_caches_nothing() {
    let mut c = active_controller();
    let uid = String::from("INBOX:3");
    match c.fetch_detail_begin(&uid).unwrap() {
        DetailPlan::Fetch { .. } => {}
        DetailPlan::Cached { .. } => panic!("nothing was cached yet"),
    }
    // the full-message FETCH fails on the wire: nothing is cached
    let e = c.transport_failed();
    assert!(matches!(e, MailError::ImapConnectError));
    let mut c2 = active_controller();
    match c2.fetch_detail_begin(&uid).unwrap() {
        DetailPlan::Fetch { .. } => {}
        DetailPlan::Cached { .. } => panic!("a failed fetch must cache nothing"),
    }
    let _ = c2;
}

#[test]
fn send_begin_validates_recipient_before_reads() {
    let c = active_controller();
    assert!(c.send_begin("bob@qq.com").is_ok());
    assert!(matches!(
        c.send_begin("not an address"),
        Err(MailError::RecipientAddressInvalid)
    ));
    let idle = Controller::new();
    assert!(matches!(idle.send_begin("bob@qq.com"), Err(MailError::NoActiveSession)));
}

#[test]
fn logout_clears_session_and_reports_success() {
    let mut c = active_controller();
    let uid = String::from("INBOX:3");
    match c.fetch_detail_begin(&uid).unwrap() {
        DetailPlan::Fetch { .. } => {}
        DetailPlan::Cached { .. } => panic!("nothing was cached yet"),
    }
    c.fetch_detail_finish(&detail_message(), &Vec::new()).unwrap();

    let (r, do_imap_logout) = c.logout();
    r.unwrap();
    assert!(do_imap_logout);
    assert!(matches!(c.state, SessionState::LoggedOut));
    assert!(!c.smtp_open && !c.imap_open);

    // a new session starts with an empty cache: the identifier misses again
    let mut c2 = active_controller();
    match c2.fetch_detail_begin(&uid).unwrap() {
        DetailPlan::Fetch { .. } => {}
        DetailPlan::Cached { .. } => panic!("the cache must be empty after logout"),
    }
    let _ = c2;
}

#[test]
fn terminal_marker_has_empty_fields() {
    let mut c = active_controller();
    c.list_begin(&String::from("Empty")).unwrap();
    match c.page_next(None).unwrap() {
        PageStep::End { terminal } => {
            let EmailMetadata { uid, from, to, subject, date } = terminal;
            assert_eq!(uid, "");
            assert_eq!(from, "");
            assert_eq!(to, "");
            assert_eq!(subject, "");
            assert_eq!(date, "");
        }
        PageStep::Item { .. } => panic!("an empty fetch ends the walk"),
    }
}

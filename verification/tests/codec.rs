use mail_session::codec::{decode_detail, decode_metadata};
use mail_session::errors::MailError;

fn header_bytes() -> Vec<u8> {
    b"From: carol@example.com\r\nTo: dave@example.com\r\nSubject: Greetings\r\nDate: Mon, 1 Jan 2024 00:00:00 +0000\r\n\r\n"
        .to_vec()
}

#[test]
fn decode_metadata_reads_headers() {
    let m = decode_metadata(&header_bytes(), String::from("INBOX:1")).unwrap();
    assert_eq!(m.uid, "INBOX:1");
    assert_eq!(m.from, "carol@example.com");
    assert_eq!(m.to, "dave@example.com");
    assert_eq!(m.subject, "Greetings");
    assert_eq!(m.date, "Mon, 1 Jan 2024 00:00:00 +0000");
}

#[test]
fn decode_metadata_falls_back_on_missing_headers() {
    let raw = b"Subject: Only\r\n\r\n".to_vec();
    let m = decode_metadata(&raw, String::from("INBOX:2")).unwrap();
    assert_eq!(m.from, "[unknown sender]");
    assert_eq!(m.to, "[unknown recipient]");
    assert_eq!(m.subject, "Only");
    assert_eq!(m.date, "[unknown date]");
}

#[test]
fn decode_metadata_falls_back_on_blank_headers() {
    let raw = b"From:    \r\nSubject: Hi\r\n\r\n".to_vec();
    let m = decode_metadata(&raw, String::from("INBOX:3")).unwrap();
    assert_eq!(m.from, "[unknown sender]");
}

#[test]
fn decode_detail_single_part_body() {
    let raw = b"From: a@b.com\r\n\r\nJust a plain body\r\n".to_vec();
    let (detail, writes) = decode_detail(&raw, &Vec::new()).unwrap();
    assert_eq!(detail.body, "Just a plain body");
    assert!(detail.attachments.is_empty());
    assert!(writes.is_empty());
}

fn multipart_bytes() -> Vec<u8> {
    let mut raw = Vec::new();
    raw.extend_from_slice(b"Content-Type: multipart/mixed; boundary=\"sep\"\r\n\r\n");
    raw.extend_from_slice(b"--sep\r\n");
    raw.extend_from_slice(b"Content-Type: text/plain\r\nContent-Disposition: inline\r\n\r\n");
    raw.extend_from_slice(b"Hello inline\r\n");
    raw.extend_from_slice(b"--sep\r\n");
    raw.extend_from_slice(
        b"Content-Type: text/plain\r\nContent-Disposition: attachment; filename=\"file1.txt\"\r\n\r\n",
    );
    raw.extend_from_slice(b"attachment payload\r\n");
    raw.extend_from_slice(b"--sep--\r\n");
    raw
}

#[test]
fn decode_detail_splits_inline_and_attachment() {
    let (detail, writes) = decode_detail(&multipart_bytes(), &Vec::new()).unwrap();
    assert_eq!(detail.body, "Hello inline");
    assert_eq!(detail.attachments, vec![String::from("file1.txt")]);
    assert_eq!(writes.len(), 1);
    assert_eq!(writes[0].name, "file1.txt");
    assert_eq!(String::from_utf8(writes[0].data.clone()).unwrap().trim_end(), "attachment payload");
}

#[test]
fn decode_detail_resolves_filename_collisions() {
    let mut raw = Vec::new();
    raw.extend_from_slice(b"Content-Type: multipart/mixed; boundary=\"sep\"\r\n\r\n");
    for payload in [&b"first bytes"[..], &b"second bytes"[..]] {
        raw.extend_from_slice(b"--sep\r\n");
        raw.extend_from_slice(
            b"Content-Type: application/pdf\r\nContent-Disposition: attachment; filename=\"report.pdf\"\r\n\r\n",
        );
        raw.extend_from_slice(payload);
        raw.extend_from_slice(b"\r\n");
    }
    raw.extend_from_slice(b"--sep--\r\n");

    let (detail, writes) = decode_detail(&raw, &Vec::new()).unwrap();
    assert_eq!(
        detail.attachments,
        vec![String::from("report.pdf"), String::from("report(1).pdf")]
    );
    assert_eq!(writes.len(), 2);
    assert_eq!(writes[0].name, "report.pdf");
    assert_eq!(writes[1].name, "report(1).pdf");
    assert_eq!(String::from_utf8(writes[0].data.clone()).unwrap().trim_end(), "first bytes");
    assert_eq!(String::from_utf8(writes[1].data.clone()).unwrap().trim_end(), "second bytes");
}

#[test]
fn decode_detail_respects_existing_files() {
    let existing = vec![String::from("file1.txt")];
    let (detail, writes) = decode_detail(&multipart_bytes(), &existing).unwrap();
    assert_eq!(detail.attachments, vec![String::from("file1(1).txt")]);
    assert_eq!(writes[0].name, "file1(1).txt");
}

#[test]
fn decode_detail_strips_path_components() {
    let mut raw = Vec::new();
    raw.extend_from_slice(b"Content-Type: multipart/mixed; boundary=\"sep\"\r\n\r\n");
    raw.extend_from_slice(b"--sep\r\n");
    raw.extend_from_slice(
        b"Content-Type: text/plain\r\nContent-Disposition: attachment; filename=\"../../etc/evil.txt\"\r\n\r\n",
    );
    raw.extend_from_slice(b"x\r\n");
    raw.extend_from_slice(b"--sep--\r\n");
    let (detail, _) = decode_detail(&raw, &Vec::new()).unwrap();
    assert_eq!(detail.attachments, vec![String::from("evil.txt")]);
}

#[test]
fn decode_rejects_malformed_input() {
    // a payload starting with an overhanging continuation line is refused
    let bad = b" overhang\r\n\r\n".to_vec();
    assert!(matches!(
        decode_metadata(&bad, String::from("INBOX:1")),
        Err(MailError::ParseError)
    ));
    assert!(matches!(decode_detail(&bad, &Vec::new()), Err(MailError::ParseError)));
}

#[test]
fn decode_detail_names_unnamed_attachments() {
    let mut raw = Vec::new();
    raw.extend_from_slice(b"Content-Type: multipart/mixed; boundary=\"sep\"\r\n\r\n");
    raw.extend_from_slice(b"--sep\r\n");
    raw.extend_from_slice(b"Content-Type: text/plain\r\nContent-Disposition: attachment\r\n\r\n");
    raw.extend_from_slice(b"y\r\n");
    raw.extend_from_slice(b"--sep--\r\n");
    let (detail, _) = decode_detail(&raw, &Vec::new()).unwrap();
    assert_eq!(detail.attachments, vec![String::from("attachment_0")]);
}

use himalaya_lib::config::AccountConfig;
use himalaya_lib::email::{Email, EmailError};
use himalaya_lib::error::{AppError, DatabaseError, GraphClientError};
use himalaya_lib::tpl::{Tpl, TplBuilder, TplBuilderOpts};
use himalaya_lib::{sanitize_text_plain_part, Mailbox};

const MESSAGE: &str = "From: from@localhost\nTo: to@localhost\nSubject: subject\n\nHello!\n\n-- \nRegards,";

const MULTIPART: &str = "From: a@localhost\nSubject: files\nContent-Type: multipart/mixed; boundary=XYZ\n\n--XYZ\nContent-Type: text/plain\n\nBody text\n--XYZ\nContent-Type: application/octet-stream\nContent-Disposition: attachment; filename=\"file.bin\"\nContent-Transfer-Encoding: base64\n\naGVsbG8=\n--XYZ--\n";

const BAD_BODY: &str = "From: from@localhost\nSubject: s\nContent-Transfer-Encoding: base64\n\n!!!!";

fn account(email: &str) -> AccountConfig {
    AccountConfig { email: email.into(), ..AccountConfig::default() }
}

#[test]
fn raw_bytes_come_back_unchanged() {
    let email = Email::from(MESSAGE);
    assert_eq!(email.as_raw().unwrap(), MESSAGE.as_bytes());
    let email = Email::from(vec![1u8, 2, 3]);
    assert_eq!(email.as_raw().unwrap(), &[1u8, 2, 3][..]);
    let bytes: &[u8] = b"Subject: x\n\nbody";
    let email = Email::from(bytes);
    assert_eq!(email.as_raw().unwrap(), bytes);
}

#[test]
fn parse_is_kept_between_calls() {
    let mut email = Email::from(MESSAGE);
    let first = email.parsed().unwrap().parts.len();
    let second = email.parsed().unwrap().parts.len();
    assert_eq!(first, 1);
    assert_eq!(first, second);
    let headers = &email.parsed().unwrap().parts[0].headers;
    assert_eq!(headers.len(), 3);
    assert_eq!(headers[2].key, "Subject");
    assert_eq!(headers[2].value, "subject");
    assert_eq!(email.parsed().unwrap().parts[0].body.as_ref().unwrap(), "Hello!\n\n-- \nRegards,");
}

#[test]
fn unparsable_message_is_a_parse_error() {
    let mut email = Email::from(" starts with a space\n\nbody");
    match email.parsed() {
        Err(EmailError::ParseEmailError(e)) => assert!(e.message.contains("space")),
        other => panic!("unexpected: {:?}", other),
    }
    match email.to_read_tpl(&AccountConfig::default(), TplBuilderOpts::default()) {
        Err(EmailError::ParseEmailError(_)) => {}
        other => panic!("unexpected: {:?}", other),
    }
}

#[test]
fn parsed_message_builds_an_email() {
    let mut email = Email::from(MESSAGE);
    let parsed = email.parsed().unwrap();
    let copy = himalaya_lib::ParsedEmail { parts: Vec::new(), raw: parsed.raw.clone() };
    let rebuilt = Email::from(copy);
    assert_eq!(rebuilt.as_raw().unwrap(), MESSAGE.as_bytes());
}

#[test]
fn read_header_names_are_case_insensitive() {
    let opts = TplBuilderOpts::default().show_headers(vec!["subject".to_string(), "FROM".to_string()]);
    let mut email = Email::from(MESSAGE);
    let tpl = email.to_read_tpl(&AccountConfig::default(), opts).unwrap();
    assert_eq!(tpl.as_str(), "Subject: subject\nFrom: from@localhost\n\nHello!\n\n-- \nRegards,");
}

#[test]
fn read_body_error_is_a_parse_error() {
    let mut email = Email::from(BAD_BODY);
    match email.to_read_tpl(&AccountConfig::default(), TplBuilderOpts::default()) {
        Err(EmailError::ParseEmailError(e)) => assert!(e.message.contains("Base64")),
        other => panic!("unexpected: {:?}", other),
    }
}

#[test]
fn read_shows_only_plain_text_parts() {
    let mut email = Email::from(MULTIPART);
    let tpl = email.to_read_tpl(&AccountConfig::default(), TplBuilderOpts::default()).unwrap();
    assert_eq!(tpl.as_str(), "Body text\n");
}

#[test]
fn reply_uses_reply_to_and_message_id() {
    let mut email = Email::from(
        "From: from@localhost\nReply-To: list@localhost\nTo: to@localhost\nMessage-Id: <id@localhost>\nSubject: s\n\nHi",
    );
    let tpl = email.to_reply_tpl(&account("to@localhost"), false).unwrap();
    assert_eq!(
        tpl.as_str(),
        "From: to@localhost\nTo: list@localhost\nIn-Reply-To: <id@localhost>\nSubject: Re: s\n\n\n\n> Hi\n"
    );
}

#[test]
fn reply_to_sender_goes_to_first_recipient_only() {
    let mut email = Email::from("From: a@localhost, b@localhost\n\nHi");
    let tpl = email.to_reply_tpl(&account("me@localhost"), false).unwrap();
    assert_eq!(tpl.as_str(), "From: me@localhost\nTo: a@localhost\n\n\n\n> Hi\n");
}

#[test]
fn reply_never_goes_to_the_account() {
    let mut email = Email::from("From: me@localhost\nTo: me@localhost\nCc: me@localhost\n\nHi");
    let tpl = email.to_reply_tpl(&account("me@localhost"), true).unwrap();
    assert_eq!(tpl.as_str(), "From: me@localhost\nTo: \nCc: \n\n\n\n> Hi\n");
}

#[test]
fn reply_quotes_quoted_lines_without_a_space_and_stops_at_signature() {
    let mut email = Email::from("From: a@localhost\n\n> earlier\r\nnew\n-- \nsig\nafter");
    let tpl = email.to_reply_tpl(&account("me@localhost"), false).unwrap();
    assert_eq!(tpl.as_str(), "From: me@localhost\nTo: a@localhost\n\n\n\n>> earlier\n> new\n");
}

#[test]
fn reply_with_display_name() {
    let config = AccountConfig {
        email: "john@localhost".into(),
        display_name: Some("John Doe".into()),
        ..AccountConfig::default()
    };
    let mut email = Email::from("From: Jane Roe <jane@localhost>\n\nHi");
    let tpl = email.to_reply_tpl(&config, false).unwrap();
    assert_eq!(
        tpl.as_str(),
        "From: John Doe <john@localhost>\nTo: Jane Roe <jane@localhost>\n\n\n\n> Hi\n"
    );
}

#[test]
fn reply_errors() {
    let mut email = Email::from(MESSAGE);
    match email.to_reply_tpl(&AccountConfig::default(), false) {
        Err(EmailError::ConfigError(_)) => {}
        other => panic!("unexpected: {:?}", other),
    }
    let mut email = Email::from("From: <broken\n\nHi");
    match email.to_reply_tpl(&account("me@localhost"), false) {
        Err(EmailError::ParseEmailAddressError(_)) => {}
        other => panic!("unexpected: {:?}", other),
    }
    let mut email = Email::from("From: a@localhost\nCc: <broken\n\nHi");
    match email.to_reply_tpl(&account("me@localhost"), true) {
        Err(EmailError::ParseEmailAddressError(_)) => {}
        other => panic!("unexpected: {:?}", other),
    }
    let mut email = Email::from(BAD_BODY);
    match email.to_reply_tpl(&account("me@localhost"), false) {
        Err(EmailError::ParseEmailBodyError(_)) => {}
        other => panic!("unexpected: {:?}", other),
    }
}

#[test]
fn forward_template() {
    let mut email = Email::from(MESSAGE);
    let tpl = email.to_forward_tpl(&account("to@localhost")).unwrap();
    assert_eq!(
        tpl.as_str(),
        "From: to@localhost\nTo: \nSubject: Fwd: subject\n\n-------- Forwarded Message --------\nSubject: subject\nFrom: : from@localhost\nTo: : to@localhost\n\nHello!\n\n-- \nRegards,"
    );
}

#[test]
fn forward_template_with_signature_and_date() {
    let config = AccountConfig {
        email: "to@localhost".into(),
        signature: Some("Bye".into()),
        signature_delim: Some("~~\n".into()),
        ..AccountConfig::default()
    };
    let mut email = Email::from("From: a@localhost\nFrom: b@localhost\nDate: today\n\nText");
    let tpl = email.to_forward_tpl(&config).unwrap();
    assert_eq!(
        tpl.as_str(),
        "From: to@localhost\nTo: \nSubject: Fwd: \n\n~~\nBye\n\n-------- Forwarded Message --------\nSubject: \nDate: : today\nFrom: : a@localhost, b@localhost\nTo: : \n\nText"
    );
}

#[test]
fn forward_errors() {
    let mut email = Email::from(MESSAGE);
    match email.to_forward_tpl(&AccountConfig::default()) {
        Err(EmailError::ConfigError(_)) => {}
        other => panic!("unexpected: {:?}", other),
    }
    let mut email = Email::from(BAD_BODY);
    match email.to_forward_tpl(&account("me@localhost")) {
        Err(EmailError::ParseEmailBodyError(_)) => {}
        other => panic!("unexpected: {:?}", other),
    }
}

#[test]
fn attachments_and_text_parts() {
    let mut email = Email::from(MULTIPART);
    let attachments = email.attachments().unwrap();
    assert_eq!(attachments.len(), 1);
    assert_eq!(attachments[0].filename.as_deref(), Some("file.bin"));
    assert_eq!(attachments[0].body, b"hello".to_vec());
    assert!(!attachments[0].mime.is_empty());

    let mut email = Email::from(MULTIPART);
    let parsed = email.parsed().unwrap();
    let other = Email::from(MESSAGE);
    let texts = other.text_parts(parsed).unwrap();
    assert_eq!(texts.len(), 1);
    assert_eq!(texts[0].mimetype, "text/plain");
}

#[test]
fn signature_and_reading_headers_of_the_account() {
    let config = AccountConfig { signature: Some("Sig".into()), ..AccountConfig::default() };
    assert_eq!(config.signature().unwrap(), "-- \nSig");
    assert_eq!(AccountConfig::default().signature(), None);
    assert!(AccountConfig::default().email_reading_headers().is_empty());
    let config = AccountConfig { email: "a@b".into(), ..AccountConfig::default() };
    assert_eq!(config.addr().unwrap().email, "a@b");
    assert!(account("not an address").addr().is_err());
}

#[test]
fn builder_keeps_one_line_per_header() {
    let tpl = TplBuilder::default()
        .header("X", "1")
        .subject("a")
        .header("X", "2")
        .text_plain_part("body")
        .text_plain_part(" more");
    assert_eq!(tpl.headers_order(), vec!["X".to_string(), "Subject".to_string()]);
    assert_eq!(tpl.build(TplBuilderOpts::default()).as_str(), "X: 2\nSubject: a\n\nbody more");
    let only = TplBuilderOpts::default().show_headers(vec!["Subject".to_string(), "Y".to_string()]);
    assert_eq!(tpl.build(only).as_str(), "Subject: a\n\nbody more");
    assert_eq!(TplBuilder::default().text_plain_part("b").build(TplBuilderOpts::default()).as_str(), "b");
}

#[test]
fn template_text_helpers() {
    let mut tpl = Tpl::default();
    tpl.push_header("K", "V");
    tpl.push_str("x");
    assert_eq!(tpl.as_str(), "K: V\nx");
}

#[test]
fn sanitize_removes_carriage_returns() {
    assert_eq!(sanitize_text_plain_part("a\r\nb\r"), "a\nb");
    assert_eq!(sanitize_text_plain_part(&sanitize_text_plain_part("a\r\r\n")), "a\n");
}

#[test]
fn mailbox_display() {
    let m = Mailbox { name: Some("Doe, Jane".into()), email: "jane@localhost".into() };
    assert_eq!(m.display(), "\"Doe, Jane\" <jane@localhost>");
    let m = Mailbox { name: None, email: "jane@localhost".into() };
    assert_eq!(m.display(), "jane@localhost");
}

#[test]
fn app_error_answers() {
    let e = AppError::from(GraphClientError::Request(401)).into_custom_error();
    assert_eq!((e.status(), e.message()), (401, "Unauthorized"));
    let e = AppError::from(GraphClientError::Request(403)).into_custom_error();
    assert_eq!((e.status(), e.message()), (403, "Forbidden"));
    let e = AppError::from(GraphClientError::Request(404)).into_custom_error();
    assert_eq!((e.status(), e.message()), (404, "Not found"));
    let e = AppError::from(GraphClientError::Request(502)).into_custom_error();
    assert_eq!((e.status(), e.message()), (502, "An error occurred while processing the request"));
    let e = AppError::from(GraphClientError::Other("graph down".into())).into_custom_error();
    assert_eq!((e.status(), e.message()), (500, "graph down"));
    let e = AppError::from(DatabaseError { message: "db down".into() }).into_custom_error();
    assert_eq!((e.status(), e.message()), (500, "db down"));
    let e = AppError::from(anyhow::Error::msg("boom")).into_custom_error();
    assert_eq!((e.status(), e.message()), (500, "boom"));
    let e = AppError::BadRequest("bad".into()).into_custom_error();
    assert_eq!((e.status(), e.message()), (400, "bad"));
}

const BROKEN_ATTACHMENT: &str = "From: a@localhost\nSubject: files\nContent-Type: multipart/mixed; boundary=XYZ\n\n--XYZ\nContent-Type: text/plain\n\nBody text\n--XYZ\nContent-Type: application/octet-stream\nContent-Disposition: attachment; filename=\"broken.bin\"\nContent-Transfer-Encoding: base64\n\n!!!!\n--XYZ\nContent-Type: application/octet-stream\nContent-Disposition: attachment; filename=\"file.bin\"\nContent-Transfer-Encoding: base64\n\naGVsbG8=\n--XYZ--\n";

#[test]
fn undecodable_attachment_is_skipped_and_reported() {
    let mut email = Email::from(BROKEN_ATTACHMENT);
    let attachments = email.attachments().unwrap();
    assert_eq!(attachments.len(), 1);
    assert_eq!(attachments[0].filename.as_deref(), Some("file.bin"));
    let skipped = himalaya_lib::skipped_attachments_of(email.parsed().unwrap());
    assert_eq!(skipped.len(), 1);
    assert_eq!(skipped[0].filename.as_deref(), Some("broken.bin"));
    assert!(!skipped[0].error.is_empty());
    let skipped = himalaya_lib::skipped_attachments_of(Email::from(MULTIPART).parsed().unwrap());
    assert!(skipped.is_empty());
}

#[test]
fn templates_keep_the_message() {
    let mut email = Email::from(MESSAGE);
    email.to_reply_tpl(&account("to@localhost"), true).unwrap();
    assert_eq!(email.as_raw().unwrap(), MESSAGE.as_bytes());
    assert_eq!(email.parsed().unwrap().raw, MESSAGE.as_bytes().to_vec());
    let mut email = Email::from(" starts with a space\n\nbody");
    assert!(email.to_forward_tpl(&account("to@localhost")).is_err());
    assert_eq!(email.as_raw().unwrap(), &b" starts with a space\n\nbody"[..]);
}

#[test]
fn reply_is_the_same_whatever_the_bcc() {
    let with_bcc = "From: from@localhost\nTo: to@localhost, to2@localhost\nBcc: hidden@localhost\nSubject: s\n\nHello!";
    let without_bcc = "From: from@localhost\nTo: to@localhost, to2@localhost\nSubject: s\n\nHello!";
    for all in [false, true] {
        let a = Email::from(with_bcc).to_reply_tpl(&account("to@localhost"), all).unwrap();
        let b = Email::from(without_bcc).to_reply_tpl(&account("to@localhost"), all).unwrap();
        assert_eq!(a.as_str(), b.as_str());
        assert!(!a.as_str().contains("hidden"));
    }
}

#[test]
fn read_is_the_same_whatever_the_other_parts() {
    let plain_only = "Content-Type: multipart/mixed; boundary=XYZ\n\n--XYZ\nContent-Type: text/plain\n\nBody text\n--XYZ--\n";
    let with_html = "Content-Type: multipart/mixed; boundary=XYZ\n\n--XYZ\nContent-Type: text/plain\n\nBody text\n--XYZ\nContent-Type: text/html\n\n<p>Other</p>\n--XYZ--\n";
    let opts = || TplBuilderOpts::default().show_all_headers();
    let a = Email::from(plain_only).to_read_tpl(&AccountConfig::default(), opts()).unwrap();
    let b = Email::from(with_html).to_read_tpl(&AccountConfig::default(), opts()).unwrap();
    assert_eq!(a.as_str(), b.as_str());
    assert!(a.as_str().contains("Body text"));
    assert!(!a.as_str().contains("Other"));
}

#[test]
fn forward_is_the_same_whatever_the_cc_bcc_reply_to_and_id() {
    let plain = "From: from@localhost\nTo: to@localhost\nSubject: s\n\nHello!";
    let more = "From: from@localhost\nCc: cc@localhost\nTo: to@localhost\nBcc: b@localhost\nReply-To: r@localhost\nMessage-Id: <1@localhost>\nSubject: s\n\nHello!";
    let a = Email::from(plain).to_forward_tpl(&account("me@localhost")).unwrap();
    let b = Email::from(more).to_forward_tpl(&account("me@localhost")).unwrap();
    assert_eq!(a.as_str(), b.as_str());
}

use himalaya_lib::{AccountConfig, Email, TplBuilderOpts};

const MESSAGE: &str = "From: from@localhost\nTo: to@localhost\nSubject: subject\n\nHello!\n\n-- \nRegards,";

#[test]
fn test_default() {
    let config = AccountConfig::default();
    let opts = TplBuilderOpts::default();

    let mut email = Email::from(MESSAGE);

    let tpl = email.to_read_tpl(&config, opts).unwrap();

    let expected_tpl = "Hello!\n\n-- \nRegards,";

    assert_eq!(expected_tpl, tpl.as_str());
}

#[test]
fn test_email_reading_headers() {
    let config = AccountConfig {
        email_reading_headers: Some(vec![
            // existing headers
            "From".into(),
            "Subject".into(),
            // nonexisting headers
            "Cc".into(),
            "Bcc".into(),
        ]),
        ..AccountConfig::default()
    };

    let opts = TplBuilderOpts::default();

    let mut email = Email::from(MESSAGE);

    let tpl = email.to_read_tpl(&config, opts).unwrap();

    let expected_tpl = "From: from@localhost\nSubject: subject\n\nHello!\n\n-- \nRegards,";

    assert_eq!(expected_tpl, tpl.as_str());
}

#[test]
fn test_show_all_headers() {
    let config = AccountConfig {
        // config should be overriden by the options
        email_reading_headers: Some(vec!["Content-Type".into()]),
        ..AccountConfig::default()
    };

    let opts = TplBuilderOpts::default().show_all_headers();

    let mut email = Email::from(MESSAGE);

    let tpl = email.to_read_tpl(&config, opts).unwrap();

    let expected_tpl =
        "From: from@localhost\nTo: to@localhost\nSubject: subject\n\nHello!\n\n-- \nRegards,";

    assert_eq!(expected_tpl, tpl.as_str());
}

#[test]
fn test_show_only_headers() {
    let config = AccountConfig {
        // config should be overriden by the options
        email_reading_headers: Some(vec!["From".into()]),
        ..AccountConfig::default()
    };

    let opts = TplBuilderOpts::default().show_headers(vec![
        // existing headers
        "Subject".to_string(),
        "To".to_string(),
        // nonexisting header
        "Content-Type".to_string(),
    ]);

    let mut email = Email::from(MESSAGE);

    let tpl = email.to_read_tpl(&config, opts).unwrap();

    let expected_tpl = "Subject: subject\nTo: to@localhost\n\nHello!\n\n-- \nRegards,";

    assert_eq!(expected_tpl, tpl.as_str());
}

#[test]
fn email_test_default() {
    let config = AccountConfig {
        email: "to@localhost".into(),
        ..AccountConfig::default()
    };

    let mut email = Email::from(
        "From: from@localhost\nTo: to@localhost, to2@localhost\nCc: cc@localhost, cc2@localhost\nBcc: bcc@localhost\nSubject: subject\n\nHello!\n\n-- \nRegards,",
    );

    let tpl = email.to_reply_tpl(&config, false).unwrap();

    let expected_tpl =
        "From: to@localhost\nTo: from@localhost\nSubject: Re: subject\n\n\n\n> Hello!\n> \n";

    assert_eq!(expected_tpl, tpl.as_str());
}

#[test]
fn test_reply_all() {
    let config = AccountConfig {
        email: "to@localhost".into(),
        ..AccountConfig::default()
    };

    let mut email = Email::from(
        "From: from@localhost\nTo: to@localhost, to2@localhost\nCc: to@localhost, cc@localhost, cc2@localhost\nBcc: bcc@localhost\nSubject: subject\n\nHello!\n\n-- \nRegards,",
    );

    let tpl = email.to_reply_tpl(&config, true).unwrap();

    let expected_tpl = "From: to@localhost\nTo: from@localhost, to2@localhost\nCc: cc@localhost, cc2@localhost\nSubject: Re: subject\n\n\n\n> Hello!\n> \n";

    assert_eq!(expected_tpl, tpl.as_str());
}

#[test]
fn test_signature() {
    let config = AccountConfig {
        email: "to@localhost".into(),
        signature: Some("Cordialement,".into()),
        ..AccountConfig::default()
    };

    let mut email = Email::from(MESSAGE);

    let tpl = email.to_reply_tpl(&config, false).unwrap();

    let expected_tpl = "From: to@localhost\nTo: from@localhost\nSubject: Re: subject\n\n\n\n> Hello!\n> \n\n-- \nCordialement,";

    assert_eq!(expected_tpl, tpl.as_str());
}

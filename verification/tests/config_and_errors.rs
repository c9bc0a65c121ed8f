use my_scrobbler::{parse_config, Config, Credentials, ParserError, ScrobbleManagerError};

fn config(text: &str) -> Config {
    match parse_config(text) {
        Ok(c) => c,
        Err(e) => panic!("unexpected error: {}", e.message()),
    }
}

#[test]
fn config_reads_keys_and_values() {
    let c = config("LASTFM_API_KEY=\"abc\"\nLASTFM_API_SECRET = s3cr3t \nLASTFM_USERNAME=me\n");
    assert_eq!(c.get("LASTFM_API_KEY").map(|s| s.as_str()), Some("abc"));
    assert_eq!(c.get("LASTFM_API_SECRET").map(|s| s.as_str()), Some("s3cr3t"));
    assert_eq!(c.get("LASTFM_USERNAME").map(|s| s.as_str()), Some("me"));
    assert_eq!(c.get("OTHER"), None);
}

#[test]
fn config_ignores_blank_and_comment_lines() {
    let c = config("\n   \n# LASTFM_USERNAME=nobody\n  # indented comment\nA=1\n\n");
    assert_eq!(c.get("A").map(|s| s.as_str()), Some("1"));
    assert_eq!(c.get("# LASTFM_USERNAME"), None);
    assert_eq!(c.get("LASTFM_USERNAME"), None);
}

#[test]
fn config_later_setting_wins() {
    let c = config("A=1\nB=2\nA=3");
    assert_eq!(c.get("A").map(|s| s.as_str()), Some("3"));
    assert_eq!(c.get("B").map(|s| s.as_str()), Some("2"));
}

#[test]
fn config_splits_at_first_equals_and_strips_quotes() {
    let c = config("KEY = \" a=b \" \nQ=\"\"\"x\"\"\nE=\nR=\"\r\n=v");
    assert_eq!(c.get("KEY").map(|s| s.as_str()), Some(" a=b "));
    assert_eq!(c.get("Q").map(|s| s.as_str()), Some("x"));
    assert_eq!(c.get("E").map(|s| s.as_str()), Some(""));
    assert_eq!(c.get("R").map(|s| s.as_str()), Some(""));
    assert_eq!(c.get("").map(|s| s.as_str()), Some("v"));
}

#[test]
fn config_handles_crlf_and_unicode_whitespace() {
    let c = config("A = x\r\n\u{3000}B\u{a0}=\u{2003}y\u{2003}\r\n");
    assert_eq!(c.get("A").map(|s| s.as_str()), Some("x"));
    assert_eq!(c.get("B").map(|s| s.as_str()), Some("y"));
}

#[test]
fn config_empty_text_is_empty() {
    let c = config("");
    assert_eq!(c.get(""), None);
    assert_eq!(c.get("A"), None);
}

#[test]
fn config_malformed_line_is_reported_trimmed() {
    match parse_config("A=1\n   not a setting  \nB=2") {
        Err(ParserError::MalformedLine(l)) => assert_eq!(l, "not a setting"),
        _ => panic!("expected a malformed line"),
    }
}

#[test]
fn config_insert_replaces() {
    let mut c = Config::new();
    assert_eq!(c.get("k"), None);
    c.insert("k".to_string(), "1".to_string());
    c.insert("j".to_string(), "2".to_string());
    c.insert("k".to_string(), "3".to_string());
    assert_eq!(c.get("k").map(|s| s.as_str()), Some("3"));
    assert_eq!(c.get("j").map(|s| s.as_str()), Some("2"));
}

#[test]
fn credentials_from_complete_config() {
    let c = config("LASTFM_API_KEY=k\nLASTFM_API_SECRET=s\nLASTFM_USERNAME=u\n");
    let cred = match Credentials::from_config(&c) {
        Ok(cred) => cred,
        Err(e) => panic!("{}", e.message()),
    };
    assert_eq!(cred.api_key(), "k");
    assert_eq!(cred.api_secret(), "s");
    assert_eq!(cred.username(), "u");
    let _client = cred.scrobbler();
}

#[test]
fn credentials_report_first_missing_key() {
    let cases = [
        ("", "LASTFM_API_KEY"),
        ("LASTFM_USERNAME=u\nLASTFM_API_SECRET=s", "LASTFM_API_KEY"),
        ("LASTFM_API_KEY=k\nLASTFM_USERNAME=u", "LASTFM_API_SECRET"),
        ("LASTFM_API_KEY=k\nLASTFM_API_SECRET=s", "LASTFM_USERNAME"),
    ];
    for (text, key) in cases {
        match Credentials::from_config(&config(text)) {
            Err(ScrobbleManagerError::MissingCredential(k)) => assert_eq!(k, key),
            _ => panic!("expected a missing credential"),
        }
    }
}

#[test]
fn manager_error_messages() {
    let e = ScrobbleManagerError::MissingCredential("LASTFM_API_KEY");
    assert_eq!(e.message(), "LASTFM_API_KEY is not set. Check config.env file.");
    let e = ScrobbleManagerError::from(keyring::Error::NoEntry);
    assert!(matches!(e, ScrobbleManagerError::KeyringError(keyring::Error::NoEntry)));
    assert_eq!(
        e.message(),
        format!("Can't read password from keychain: {}", keyring::Error::NoEntry)
    );
    let e = ScrobbleManagerError::ScrobblerError(rustfm_scrobble::ScrobblerError::new("bad auth".to_string()));
    assert_eq!(e.message(), "Can't authorize on Last.fm: bad auth");
}

#[test]
fn parser_error_messages() {
    assert_eq!(
        ParserError::MissingHomeDirectory.message(),
        "[e] Error: Could not havigate home dir."
    );
    assert_eq!(
        ParserError::MalformedLine("oops".to_string()).message(),
        "[e] Error: Malformed line in config.env file. oops"
    );
    let e = ParserError::from(std::io::Error::new(std::io::ErrorKind::NotFound, "no file"));
    assert!(matches!(e, ParserError::IoError(_)));
    assert_eq!(e.message(), "[e] Error: Could not load config.env file. no file");
}

#[test]
fn credentials_ignore_other_settings() {
    let a = config("LASTFM_API_KEY=k\nLASTFM_API_SECRET=s\nLASTFM_USERNAME=u\n");
    let b = config("X=1\nLASTFM_API_KEY=k\n# c\nLASTFM_API_SECRET=s\nY=2\nLASTFM_USERNAME=u\n");
    let ca = Credentials::from_config(&a).ok().unwrap();
    let cb = Credentials::from_config(&b).ok().unwrap();
    assert_eq!(ca.api_key(), cb.api_key());
    assert_eq!(ca.api_secret(), cb.api_secret());
    assert_eq!(ca.username(), cb.username());
}

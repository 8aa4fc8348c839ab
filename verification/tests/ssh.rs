use robopages::failure::{Failure, RemoteSpecFault};
use robopages::runtime::ssh::{parse_port, SSHConnection};

fn parse(s: &str, key: &str) -> Result<SSHConnection, Failure> {
    let key_file = if std::path::Path::new(key).exists() {
        Some(key.to_string())
    } else {
        None
    };
    SSHConnection::from_str(s, "root", key_file, None)
}

#[test]
fn test_from_str_host_only() {
    let conn = parse("example.com", "/dev/null").unwrap();
    assert_eq!(conn.host, "example.com");
    assert_eq!(conn.port, 22);
    assert_eq!(conn.user, "root");
}

#[test]
fn test_from_str_host_and_port() {
    let conn = parse("example.com:2222", "/dev/null").unwrap();
    assert_eq!(conn.host, "example.com");
    assert_eq!(conn.port, 2222);
    assert_eq!(conn.user, "root");
}

#[test]
fn test_from_str_user_and_host() {
    let conn = parse("testuser@example.com", "/dev/null").unwrap();
    assert_eq!(conn.host, "example.com");
    assert_eq!(conn.port, 22);
    assert_eq!(conn.user, "testuser");
}

#[test]
fn test_from_str_full() {
    let conn = parse("testuser@example.com:2222", "/dev/null").unwrap();
    assert_eq!(conn.host, "example.com");
    assert_eq!(conn.port, 2222);
    assert_eq!(conn.user, "testuser");
    assert_eq!(conn.key_file, "/dev/null");
    assert_eq!(conn.passphrase, None);
    assert_eq!(conn.to_string(), "testuser@example.com:2222");
}

#[test]
fn test_from_str_empty() {
    assert!(parse("", "/dev/null").is_err());
    assert_eq!(
        parse("", "/dev/null").unwrap_err(),
        Failure::BadRemoteSpec {
            fault: RemoteSpecFault::Empty
        }
    );
}

#[test]
fn test_from_str_invalid_port() {
    assert!(parse("example.com:invalid", "/dev/null").is_err());
    assert_eq!(
        parse("example.com:invalid", "/dev/null").unwrap_err(),
        Failure::BadRemoteSpec {
            fault: RemoteSpecFault::BadPort
        }
    );
}

#[test]
fn test_from_str_invalid_format() {
    assert!(parse("user@host@extra", "/dev/null").is_err());
    assert!(parse("host:port:extra", "/dev/null").is_err());
    assert_eq!(
        parse("user@host@extra", "/dev/null").unwrap_err(),
        Failure::BadRemoteSpec {
            fault: RemoteSpecFault::TooManyAt
        }
    );
    assert_eq!(
        parse("host:port:extra", "/dev/null").unwrap_err(),
        Failure::BadRemoteSpec {
            fault: RemoteSpecFault::TooManyColons
        }
    );
}

#[test]
fn test_from_str_nonexistent_key() {
    assert!(parse("example.com", "/nonexistent/key/path").is_err());
    assert_eq!(
        parse("example.com", "/nonexistent/key/path").unwrap_err(),
        Failure::BadRemoteSpec {
            fault: RemoteSpecFault::MissingKey
        }
    );
}

#[test]
fn connection_string_edges() {
    let conn = SSHConnection::from_str(
        "@:",
        "me",
        Some("k".to_string()),
        Some("secret".to_string()),
    );
    assert_eq!(
        conn.unwrap_err(),
        Failure::BadRemoteSpec {
            fault: RemoteSpecFault::BadPort
        }
    );
    let conn = SSHConnection::from_str("@h", "me", Some("k".to_string()), Some("s".to_string()))
        .unwrap();
    assert_eq!(conn.user, "");
    assert_eq!(conn.host, "h");
    assert_eq!(conn.passphrase, Some("s".to_string()));
    let conn = SSHConnection::from_str("h:+0022", "me", Some("k".to_string()), None).unwrap();
    assert_eq!(conn.port, 22);
    assert_eq!(conn.user, "me");
    // the format is judged before the key
    assert_eq!(
        SSHConnection::from_str("a@b@c", "me", None, None).unwrap_err(),
        Failure::BadRemoteSpec {
            fault: RemoteSpecFault::TooManyAt
        }
    );
}

#[test]
fn ports() {
    assert_eq!(parse_port("0"), Some(0));
    assert_eq!(parse_port("22"), Some(22));
    assert_eq!(parse_port("65535"), Some(65535));
    assert_eq!(parse_port("65536"), None);
    assert_eq!(parse_port("99999999999999999999999999"), None);
    assert_eq!(parse_port("000065535"), Some(65535));
    assert_eq!(parse_port("+80"), Some(80));
    assert_eq!(parse_port("+"), None);
    assert_eq!(parse_port(""), None);
    assert_eq!(parse_port("-1"), None);
    assert_eq!(parse_port("8 0"), None);
    assert_eq!(parse_port("80a"), None);
    assert_eq!(parse_port("++80"), None);
    assert_eq!(parse_port("\u{663}"), None);
    for s in ["0", "7", "65535", "65536", "+1", "", "x", "070000"] {
        assert_eq!(parse_port(s), s.parse::<u16>().ok(), "{:?}", s);
    }
}

#[test]
fn remote_command_lines_are_quoted() {
    let args: Vec<String> = vec![
        "-la".to_string(),
        "my file".to_string(),
        "it's".to_string(),
        "".to_string(),
        "wow!".to_string(),
        "a=b,c/d.e+f_g".to_string(),
        "$(rm -rf)".to_string(),
    ];
    assert_eq!(
        SSHConnection::create_command_line(true, "/bin/ls", &args),
        "sudo /bin/ls -la 'my file' 'it'\\''s' '' 'wow'\\!'' a=b,c/d.e+f_g '$(rm -rf)'"
    );
    assert_eq!(
        SSHConnection::create_command_line(false, "my app", &vec![]),
        "'my app'"
    );
    assert_eq!(
        SSHConnection::create_command_line(false, "caf\u{e9}", &vec!["x:y".to_string()]),
        "'caf\u{e9}' 'x:y'"
    );
}

#[test]
fn remote_output_and_trial() {
    assert_eq!(SSHConnection::execute(0, "out", ""), "out");
    assert_eq!(
        SSHConnection::execute(4294967295, "out", "err"),
        "EXIT CODE: 4294967295\nout\nERROR: err"
    );
    assert_eq!(SSHConnection::test_connection(0, "robopages\n"), Ok(()));
    assert_eq!(
        SSHConnection::test_connection(0, "robopages"),
        Err(Failure::RemoteTestOutput {
            output: "robopages".to_string()
        })
    );
    assert_eq!(
        SSHConnection::test_connection(3, "robopages\n"),
        Err(Failure::RemoteTestFailed { exit_code: 3 })
    );
    assert_eq!(
        SSHConnection::test_connection(3, "").unwrap_err().to_string(),
        "failed to execute command: exit code 3"
    );
    assert_eq!(
        Failure::BadRemoteSpec {
            fault: RemoteSpecFault::Empty
        }
        .to_string(),
        "SSH connection string cannot be empty"
    );
}

use ftp_core::errors::FtpError;
use ftp_core::session::Channel;
use ftp_core::session::ConnectOutcome;
use ftp_core::session::FtpConfigPayload;
use ftp_core::session::Session;

fn config(secure: bool) -> FtpConfigPayload {
    FtpConfigPayload {
        host: "example.com".to_string(),
        port: 2121,
        username: "anna".to_string(),
        password: Some("SECRET-REDACTED".to_string()),
        secure,
    }
}

#[test]
fn connect_prepare_builds_the_dial_plan() {
    let s = Session::new();
    let plan = s.connect_prepare(&config(true)).unwrap();
    assert_eq!(plan.host_port, "example.com:2121");
    assert!(plan.use_tls);
    assert_eq!(plan.username, "anna");
    assert_eq!(plan.password, "SECRET-REDACTED");
}

#[test]
fn missing_password_becomes_empty() {
    let s = Session::new();
    let mut c = config(false);
    c.password = None;
    let plan = s.connect_prepare(&c).unwrap();
    assert_eq!(plan.password, "");
}

#[test]
fn plain_connect_succeeds_with_message() {
    let mut s = Session::new();
    let r = s.connect_apply(&config(false), ConnectOutcome::Success).unwrap();
    assert_eq!(r, "Connected to example.com");
    assert!(matches!(s.active_channel(), Ok(Channel::Plain)));
}

#[test]
fn secure_connect_succeeds_with_message() {
    let mut s = Session::new();
    let r = s.connect_apply(&config(true), ConnectOutcome::Success).unwrap();
    assert_eq!(r, "Securely connected to example.com");
    assert!(matches!(s.active_channel(), Ok(Channel::Secure)));
}

#[test]
fn connect_while_connected_is_rejected() {
    let mut s = Session::new();
    s.connect_apply(&config(false), ConnectOutcome::Success).unwrap();
    let again = s.connect_prepare(&config(true));
    match again {
        Err(FtpError::OperationError(m)) => assert_eq!(m, "Already connected"),
        _ => panic!("expected rejection"),
    }
    // the plain session is untouched
    assert!(matches!(s.active_channel(), Ok(Channel::Plain)));
}

#[test]
fn transport_failure_maps_to_connection_error() {
    let mut s = Session::new();
    let r = s.connect_apply(&config(false), ConnectOutcome::TransportFailed("refused".to_string()));
    match r {
        Err(FtpError::ConnectionError(m)) => assert_eq!(m, "Connection failed: refused"),
        _ => panic!("expected ConnectionError"),
    }
    assert!(matches!(s.active_channel(), Err(FtpError::NotConnected)));
}

#[test]
fn tls_failure_maps_to_tls_error() {
    let mut s = Session::new();
    let r = s.connect_apply(&config(true), ConnectOutcome::TlsFailed("handshake".to_string()));
    match r {
        Err(FtpError::TlsError(m)) => assert_eq!(m, "TLS upgrade failed: handshake"),
        _ => panic!("expected TlsError"),
    }
}

#[test]
fn auth_failure_maps_to_auth_error() {
    let mut s = Session::new();
    let r = s.connect_apply(&config(true), ConnectOutcome::AuthFailed("530".to_string()));
    match r {
        Err(FtpError::AuthError(m)) => assert_eq!(m, "Secure Login failed: 530"),
        _ => panic!("expected AuthError"),
    }
    let r2 = s.connect_apply(&config(false), ConnectOutcome::AuthFailed("530".to_string()));
    match r2 {
        Err(FtpError::AuthError(m)) => assert_eq!(m, "Login failed: 530"),
        _ => panic!("expected AuthError"),
    }
}

#[test]
fn disconnect_reports_the_channel() {
    let mut s = Session::new();
    s.connect_apply(&config(true), ConnectOutcome::Success).unwrap();
    assert_eq!(s.disconnect().unwrap(), "Disconnected secure session");
    let mut p = Session::new();
    p.connect_apply(&config(false), ConnectOutcome::Success).unwrap();
    assert_eq!(p.disconnect().unwrap(), "Disconnected plain session");
}

#[test]
fn disconnect_twice_fails_with_not_connected() {
    let mut s = Session::new();
    s.connect_apply(&config(false), ConnectOutcome::Success).unwrap();
    assert!(s.disconnect().is_ok());
    let second = s.disconnect();
    assert!(matches!(second, Err(FtpError::NotConnected)));
    assert_eq!(second.unwrap_err().message(), "No active FTP connection");
}

#[test]
fn operations_without_a_session_fail_with_not_connected() {
    let s = Session::new();
    let r = s.active_channel();
    assert!(matches!(r, Err(FtpError::NotConnected)));
    assert_eq!(r.unwrap_err().message(), "No active FTP connection");
}

#[test]
fn the_channel_is_exclusive() {
    // one state value carries the session: connecting securely never
    // leaves a plain session behind, and vice versa
    let mut s = Session::new();
    s.connect_apply(&config(true), ConnectOutcome::Success).unwrap();
    assert!(matches!(s.active_channel(), Ok(Channel::Secure)));
    s.disconnect().unwrap();
    s.connect_apply(&config(false), ConnectOutcome::Success).unwrap();
    assert!(matches!(s.active_channel(), Ok(Channel::Plain)));
}

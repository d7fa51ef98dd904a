use pg_client::error::PgError;
use pg_client::message::MessageType;
use pg_client::query::RowDescription;
use pg_client::session::{ConnectionSession, Progress};
use pg_client::state::{PgSessionStatus, SessionState};

fn handshake_bytes() -> Vec<u8> {
    let mut bytes = vec![82, 0, 0, 0, 8, 0, 0, 0, 0];
    bytes.extend_from_slice(&[83, 0, 0, 0, 25]);
    bytes.extend_from_slice(b"client_encoding\0UTF8\0");
    bytes.extend_from_slice(&[83, 0, 0, 0, 24]);
    bytes.extend_from_slice(b"server_version\012.4\0");
    bytes.extend_from_slice(&[75, 0, 0, 0, 12, 0, 1, 82, 152, 171, 183, 94, 73]);
    bytes.extend_from_slice(&[90, 0, 0, 0, 5, 73]);
    bytes
}

fn ready_session() -> ConnectionSession {
    let mut s = ConnectionSession::new();
    assert!(s.begin_startup(b"postgres", b"postgres").is_ok());
    s.supply(&handshake_bytes());
    while s.state() != SessionState::Ready {
        assert_eq!(s.step(), Ok(Progress::Advanced));
    }
    s
}

#[test]
fn new_session_is_connecting() {
    let mut s = ConnectionSession::new();
    assert_eq!(s.state(), SessionState::Connecting);
    assert_eq!(s.step(), Ok(Progress::NeedMoreData));
    assert_eq!(s.state(), SessionState::Connecting);
    assert_eq!(s.parameters().get(b"client_encoding"), None);
}

#[test]
fn handshake_runs_through_every_state() {
    let mut s = ConnectionSession::new();
    let startup = s.begin_startup(b"postgres", b"postgres").unwrap();
    assert_eq!(startup.len(), 41);
    assert_eq!(s.state(), SessionState::AwaitingAuth);
    assert_eq!(s.step(), Ok(Progress::NeedMoreData));
    s.supply(&handshake_bytes());
    assert_eq!(s.step(), Ok(Progress::Advanced));
    assert_eq!(s.state(), SessionState::AwaitingParameters);
    assert_eq!(s.step(), Ok(Progress::Advanced));
    assert_eq!(s.state(), SessionState::AwaitingParameters);
    assert_eq!(s.parameters().get(b"client_encoding"), Some(&b"UTF8".to_vec()));
    assert_eq!(s.step(), Ok(Progress::Advanced));
    assert_eq!(s.parameters().get(b"server_version"), Some(&b"12.4".to_vec()));
    assert_eq!(s.step(), Ok(Progress::Advanced));
    assert_eq!(s.state(), SessionState::AwaitingReady);
    assert_eq!(s.process_id(), 86680);
    assert_eq!(s.secret_key(), -1414046135);
    assert_eq!(s.step(), Ok(Progress::Advanced));
    assert_eq!(s.state(), SessionState::Ready);
    assert_eq!(s.status(), PgSessionStatus::Idle);
    assert_eq!(s.step(), Ok(Progress::NeedMoreData));
    assert_eq!(s.state(), SessionState::Ready);
}

#[test]
fn handshake_survives_any_fragmentation() {
    let bytes = handshake_bytes();
    for cut in 1..bytes.len() {
        let mut s = ConnectionSession::new();
        assert!(s.begin_startup(b"postgres", b"postgres").is_ok());
        s.supply(&bytes[..cut]);
        while s.step() == Ok(Progress::Advanced) {}
        assert_ne!(s.state(), SessionState::Closed);
        s.supply(&bytes[cut..]);
        while s.step() == Ok(Progress::Advanced) {}
        assert_eq!(s.state(), SessionState::Ready);
        assert_eq!(s.parameters().get(b"client_encoding"), Some(&b"UTF8".to_vec()));
        assert_eq!(s.secret_key(), -1414046135);
    }
}

#[test]
fn query_cycle_returns_rows_and_goes_back_to_ready() {
    let mut s = ready_session();
    let query = s.execute(b"SELECT 1::char;").unwrap();
    assert_eq!(&query[..5], &[81, 0, 0, 0, 20]);
    assert_eq!(s.state(), SessionState::AwaitingQueryResponse);
    let mut response = vec![84, 0, 0, 0, 6, 0, 0];
    response.extend_from_slice(&[68, 0, 0, 0, 11, 0, 1, 0, 0, 0, 1, 49]);
    response.extend_from_slice(&[67, 0, 0, 0, 13, 83, 69, 76, 69, 67, 84, 32, 49, 0]);
    response.extend_from_slice(&[90, 0, 0, 0, 5, 73]);
    s.supply(&response);
    for _ in 0..3 {
        assert_eq!(s.step(), Ok(Progress::Advanced));
        assert_eq!(s.state(), SessionState::AwaitingQueryResponse);
    }
    assert_eq!(s.step(), Ok(Progress::Advanced));
    assert_eq!(s.state(), SessionState::Ready);
    assert_eq!(s.rows(), &vec![vec![0, 1, 0, 0, 0, 1, 49]]);
    assert_eq!(s.command_tag(), &b"SELECT 1".to_vec());
    assert_eq!(
        s.row_description(),
        &Some(RowDescription { column_count: 0, descriptors: vec![] })
    );
    assert_eq!(s.server_error(), &None);
    assert_eq!(s.result(), Ok((&vec![vec![0u8, 1, 0, 0, 0, 1, 49]], &b"SELECT 1".to_vec())));
    assert_eq!(s.status(), PgSessionStatus::Idle);
    assert_eq!(s.step(), Ok(Progress::NeedMoreData));
}

#[test]
fn server_error_leaves_the_session_usable() {
    let mut s = ready_session();
    assert!(s.execute(b"SELEC 1").is_ok());
    let mut response = vec![69, 0, 0, 0, 12];
    response.extend_from_slice(b"SERROR\0\0");
    response.extend_from_slice(&[90, 0, 0, 0, 5, 69]);
    s.supply(&response);
    assert_eq!(s.step(), Ok(Progress::Advanced));
    assert_eq!(s.state(), SessionState::AwaitingQueryResponse);
    assert_eq!(s.step(), Ok(Progress::Advanced));
    assert_eq!(s.state(), SessionState::Ready);
    assert_eq!(s.server_error(), &Some(b"SERROR\0\0".to_vec()));
    assert_eq!(s.result(), Err(PgError::ServerError));
    assert_eq!(s.status(), PgSessionStatus::ErrorInTransaction);
    assert!(s.execute(b"SELECT 1").is_ok());
    assert_eq!(s.state(), SessionState::AwaitingQueryResponse);
    assert_eq!(s.server_error(), &None);
    assert_eq!(s.status(), PgSessionStatus::ErrorInTransaction);
}

#[test]
fn status_before_the_first_query_is_that_of_the_handshake() {
    let mut s = ConnectionSession::new();
    assert!(s.begin_startup(b"u", b"d").is_ok());
    s.supply(&[82, 0, 0, 0, 8, 0, 0, 0, 0]);
    s.supply(&[75, 0, 0, 0, 12, 0, 0, 0, 1, 0, 0, 0, 2]);
    s.supply(&[90, 0, 0, 0, 5, 84]);
    while s.step() == Ok(Progress::Advanced) {}
    assert_eq!(s.state(), SessionState::Ready);
    assert_eq!(s.status(), PgSessionStatus::DoingTransaction);
    assert!(s.execute(b"COMMIT").is_ok());
    assert_eq!(s.status(), PgSessionStatus::DoingTransaction);
}

#[test]
fn unsupported_auth_ends_the_session() {
    let mut s = ConnectionSession::new();
    assert!(s.begin_startup(b"postgres", b"postgres").is_ok());
    s.supply(&[82, 0, 0, 0, 8, 0, 0, 0, 5, 90]);
    assert_eq!(s.step(), Err(PgError::UnsupportedAuthMethod(5)));
    assert_eq!(s.state(), SessionState::Closed);
    assert_eq!(s.step(), Err(PgError::ConnectionClosed));
}

#[test]
fn undecodable_bytes_end_the_session() {
    let mut s = ready_session();
    s.supply(&[1, 2, 3]);
    assert_eq!(s.step(), Err(PgError::UnknownMessageType(1)));
    assert_eq!(s.state(), SessionState::Closed);
    let mut t = ConnectionSession::new();
    assert!(t.begin_startup(b"u", b"d").is_ok());
    t.supply(&[82, 0, 0, 0, 2]);
    assert_eq!(t.step(), Err(PgError::InvalidLength));
    assert_eq!(t.state(), SessionState::Closed);
}

#[test]
fn message_in_ready_state_is_a_violation() {
    let mut s = ready_session();
    s.supply(&[90, 0, 0, 0, 5, 73]);
    assert_eq!(
        s.step(),
        Err(PgError::ProtocolSequenceViolation(None, MessageType::ReadyForQuery))
    );
    assert_eq!(s.state(), SessionState::Closed);
}

#[test]
fn closed_session_drops_what_is_supplied() {
    let mut s = ready_session();
    s.supply(&[90, 0]);
    s.close();
    assert_eq!(s.state(), SessionState::Closed);
    s.supply(&[90, 0, 0, 0, 5, 73]);
    assert_eq!(s.step(), Err(PgError::ConnectionClosed));
    assert_eq!(s.state(), SessionState::Closed);
    assert_eq!(s.parameters().get(b"client_encoding"), Some(&b"UTF8".to_vec()));
}

#[test]
fn failed_execute_leaves_the_session_ready() {
    let mut s = ready_session();
    assert_eq!(s.execute(b"SELECT\0"), Err(PgError::InvalidString));
    assert_eq!(s.state(), SessionState::Ready);
    let mut t = ConnectionSession::new();
    assert_eq!(t.begin_startup(b"a\0", b"d"), Err(PgError::InvalidString));
    assert_eq!(t.state(), SessionState::Connecting);
}

#[test]
fn parameter_report_during_a_query_updates_the_table() {
    let mut s = ready_session();
    assert!(s.execute(b"SET client_encoding TO LATIN1").is_ok());
    let mut response = vec![67, 0, 0, 0, 8, 83, 69, 84, 0];
    response.extend_from_slice(&[83, 0, 0, 0, 27]);
    response.extend_from_slice(b"client_encoding\0LATIN1\0");
    response.extend_from_slice(&[90, 0, 0, 0, 5, 73]);
    s.supply(&response);
    assert_eq!(s.step(), Ok(Progress::Advanced));
    assert_eq!(s.parameters().get(b"client_encoding"), Some(&b"UTF8".to_vec()));
    assert_eq!(s.step(), Ok(Progress::Advanced));
    assert_eq!(s.state(), SessionState::AwaitingQueryResponse);
    assert_eq!(s.parameters().get(b"client_encoding"), Some(&b"LATIN1".to_vec()));
    assert_eq!(s.parameters().get(b"server_version"), Some(&b"12.4".to_vec()));
    assert_eq!(s.step(), Ok(Progress::Advanced));
    assert_eq!(s.state(), SessionState::Ready);
    assert_eq!(s.command_tag(), &b"SET".to_vec());
}

#[test]
fn malformed_parameter_report_during_a_query_ends_the_session() {
    let mut s = ready_session();
    assert!(s.execute(b"SELECT 1").is_ok());
    s.supply(&[83, 0, 0, 0, 6, 97, 0]);
    assert_eq!(s.step(), Err(PgError::UnterminatedString));
    assert_eq!(s.state(), SessionState::Closed);
}

#[test]
fn sequence_violation_during_a_query_ends_the_session() {
    let mut s = ready_session();
    assert!(s.execute(b"SELECT 1").is_ok());
    s.supply(&[82, 0, 0, 0, 8, 0, 0, 0, 0]);
    assert_eq!(
        s.step(),
        Err(PgError::ProtocolSequenceViolation(
            Some(MessageType::CloseOrCommandComplete),
            MessageType::Authentication
        ))
    );
    assert_eq!(s.state(), SessionState::Closed);
    assert_eq!(s.step(), Err(PgError::ConnectionClosed));
}

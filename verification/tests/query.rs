use pg_client::error::PgError;
use pg_client::message::{Message, MessageType};
use pg_client::query::{
    parse_command_tag, parse_row_description, query_message, QueryPhase, RowDescription,
    SimpleQueryStateMachine,
};
use pg_client::state::PgSessionStatus;

fn started() -> SimpleQueryStateMachine {
    let mut q = SimpleQueryStateMachine::new();
    assert!(q.execute(b"SELECT 1::char;").is_ok());
    q
}

#[test]
fn query_message_ends_with_one_zero_byte() {
    let m = query_message(b"SELECT 1::char;").unwrap();
    assert_eq!(m, Message::new(MessageType::SimpleQuery, b"SELECT 1::char;\0".to_vec()));
    assert_eq!(query_message(b""), Ok(Message::new(MessageType::SimpleQuery, vec![0])));
}

#[test]
fn query_text_with_zero_byte_is_refused() {
    assert_eq!(query_message(b"SELECT\0 1"), Err(PgError::InvalidString));
    let mut q = SimpleQueryStateMachine::new();
    assert_eq!(q.execute(b"SELECT 1\0"), Err(PgError::InvalidString));
    assert_eq!(q.phase, QueryPhase::Idle);
}

#[test]
fn execute_emits_the_query_and_awaits_the_response() {
    let mut q = SimpleQueryStateMachine::new();
    assert_eq!(q.phase, QueryPhase::Idle);
    assert_eq!(
        q.execute(b"SELECT 1::char;"),
        Ok(vec![
            81, 0, 0, 0, 20, 83, 69, 76, 69, 67, 84, 32, 49, 58, 58, 99, 104, 97, 114, 59, 0
        ])
    );
    assert_eq!(q.phase, QueryPhase::AwaitingResponse);
}

#[test]
fn rows_and_tag_are_gathered_until_ready() {
    let mut q = started();
    let description = Message::new(MessageType::RowDescription, vec![0, 1, 98, 112, 0]);
    assert_eq!(q.on_message(description), Ok(()));
    assert_eq!(q.phase, QueryPhase::InRows);
    let first = Message::new(MessageType::DataRowOrDescribe, vec![0, 1, 0, 0, 0, 1, 49]);
    let second = Message::new(MessageType::DataRowOrDescribe, vec![0, 1, 255, 255, 255, 255]);
    assert_eq!(q.on_message(first), Ok(()));
    assert_eq!(q.on_message(second), Ok(()));
    assert_eq!(q.phase, QueryPhase::InRows);
    let complete = Message::new(MessageType::CloseOrCommandComplete, b"SELECT 2\0".to_vec());
    assert_eq!(q.on_message(complete), Ok(()));
    assert_eq!(q.phase, QueryPhase::Completed);
    let (ready, _) = pg_client::codec::decode_one(&[90, 0, 0, 0, 5, 73], false).unwrap();
    assert_eq!(q.on_message(ready), Ok(()));
    assert_eq!(q.phase, QueryPhase::Idle);
    assert_eq!(q.status, PgSessionStatus::Idle);
    assert_eq!(
        q.description,
        Some(RowDescription { column_count: 1, descriptors: vec![98, 112, 0] })
    );
    assert_eq!(q.rows, vec![vec![0, 1, 0, 0, 0, 1, 49], vec![0, 1, 255, 255, 255, 255]]);
    assert_eq!(q.tag, b"SELECT 2".to_vec());
    assert_eq!(q.error, None);
}

#[test]
fn command_without_rows_completes() {
    let mut q = started();
    let complete = Message::new(MessageType::CloseOrCommandComplete, b"CREATE TABLE\0".to_vec());
    assert_eq!(q.on_message(complete), Ok(()));
    let ready = Message::new(MessageType::ReadyForQuery, vec![84]);
    assert_eq!(q.on_message(ready), Ok(()));
    assert_eq!(q.phase, QueryPhase::Idle);
    assert_eq!(q.status, PgSessionStatus::DoingTransaction);
    assert_eq!(q.description, None);
    assert!(q.rows.is_empty());
    assert_eq!(q.tag, b"CREATE TABLE".to_vec());
}

#[test]
fn next_query_forgets_the_last_answer() {
    let mut q = started();
    let row = Message::new(MessageType::DataRowOrDescribe, vec![0, 0]);
    assert_eq!(q.on_message(row), Ok(()));
    let complete = Message::new(MessageType::CloseOrCommandComplete, b"SELECT 1\0".to_vec());
    assert_eq!(q.on_message(complete), Ok(()));
    let ready = Message::new(MessageType::ReadyForQuery, vec![69]);
    assert_eq!(q.on_message(ready), Ok(()));
    assert!(q.execute(b"SELECT 2").is_ok());
    assert_eq!(q.phase, QueryPhase::AwaitingResponse);
    assert!(q.rows.is_empty());
    assert!(q.tag.is_empty());
    assert_eq!(q.status, PgSessionStatus::ErrorInTransaction);
}

#[test]
fn error_response_aborts_and_still_awaits_ready() {
    let mut q = started();
    let row = Message::new(MessageType::DataRowOrDescribe, vec![0, 0]);
    assert_eq!(q.on_message(row), Ok(()));
    let error = Message::new(MessageType::ErrorResponse, b"SERROR\0C42601\0\0".to_vec());
    assert_eq!(q.on_message(error), Ok(()));
    assert_eq!(q.phase, QueryPhase::Failed);
    let complete = Message::new(MessageType::CloseOrCommandComplete, b"SELECT 1\0".to_vec());
    assert_eq!(
        q.on_message(complete),
        Err(PgError::ProtocolSequenceViolation(
            Some(MessageType::ReadyForQuery),
            MessageType::CloseOrCommandComplete
        ))
    );
    assert_eq!(q.phase, QueryPhase::Failed);
    let again = Message::new(MessageType::ErrorResponse, b"SFATAL\0\0".to_vec());
    assert_eq!(q.on_message(again), Ok(()));
    let ready = Message::new(MessageType::ReadyForQuery, vec![73]);
    assert_eq!(q.on_message(ready), Ok(()));
    assert_eq!(q.phase, QueryPhase::Idle);
    assert_eq!(q.error, Some(b"SERROR\0C42601\0\0".to_vec()));
}

#[test]
fn error_response_after_command_complete_fails_the_query() {
    let mut q = started();
    let complete = Message::new(MessageType::CloseOrCommandComplete, b"INSERT 0 1\0".to_vec());
    assert_eq!(q.on_message(complete), Ok(()));
    let error = Message::new(MessageType::ErrorResponse, vec![0]);
    assert_eq!(q.on_message(error), Ok(()));
    assert_eq!(q.phase, QueryPhase::Failed);
    assert_eq!(q.error, Some(vec![0]));
}

#[test]
fn row_description_comes_first_or_not_at_all() {
    let mut q = started();
    let row = Message::new(MessageType::DataRowOrDescribe, vec![0, 0]);
    assert_eq!(q.on_message(row), Ok(()));
    let late = Message::new(MessageType::RowDescription, vec![0, 0]);
    assert_eq!(
        q.on_message(late),
        Err(PgError::ProtocolSequenceViolation(
            Some(MessageType::CloseOrCommandComplete),
            MessageType::RowDescription
        ))
    );
    assert_eq!(q.phase, QueryPhase::InRows);
    assert_eq!(q.description, None);
}

#[test]
fn ready_before_command_complete_is_a_violation() {
    let mut q = started();
    let ready = Message::new(MessageType::ReadyForQuery, vec![73]);
    assert_eq!(
        q.on_message(ready),
        Err(PgError::ProtocolSequenceViolation(
            Some(MessageType::CloseOrCommandComplete),
            MessageType::ReadyForQuery
        ))
    );
    assert_eq!(q.phase, QueryPhase::AwaitingResponse);
}

#[test]
fn rows_after_command_complete_are_a_violation() {
    let mut q = started();
    let complete = Message::new(MessageType::CloseOrCommandComplete, b"SELECT 0\0".to_vec());
    assert_eq!(q.on_message(complete), Ok(()));
    let row = Message::new(MessageType::DataRowOrDescribe, vec![0, 0]);
    assert_eq!(
        q.on_message(row),
        Err(PgError::ProtocolSequenceViolation(
            Some(MessageType::ReadyForQuery),
            MessageType::DataRowOrDescribe
        ))
    );
    assert!(q.rows.is_empty());
}

#[test]
fn idle_cycle_expects_no_message() {
    let mut q = SimpleQueryStateMachine::new();
    let ready = Message::new(MessageType::ReadyForQuery, vec![73]);
    assert_eq!(
        q.on_message(ready),
        Err(PgError::ProtocolSequenceViolation(None, MessageType::ReadyForQuery))
    );
}

#[test]
fn unknown_status_keeps_the_cycle_waiting() {
    let mut q = started();
    let complete = Message::new(MessageType::CloseOrCommandComplete, b"SELECT 0\0".to_vec());
    assert_eq!(q.on_message(complete), Ok(()));
    let odd = Message::new(MessageType::ReadyForQuery, vec![1]);
    assert_eq!(q.on_message(odd), Err(PgError::UnknownSessionStatus));
    assert_eq!(q.phase, QueryPhase::Completed);
}

#[test]
fn row_description_is_count_and_raw_descriptors() {
    assert_eq!(
        parse_row_description(&[0, 2, 9, 8, 7]),
        Ok(RowDescription { column_count: 2, descriptors: vec![9, 8, 7] })
    );
    assert_eq!(
        parse_row_description(&[1, 0]),
        Ok(RowDescription { column_count: 256, descriptors: vec![] })
    );
    assert_eq!(parse_row_description(&[0]), Err(PgError::OutOfBounds));
    assert_eq!(parse_row_description(&[]), Err(PgError::OutOfBounds));
}

#[test]
fn command_tag_ends_at_the_first_zero_byte() {
    assert_eq!(parse_command_tag(b"SELECT 1\0"), Ok(b"SELECT 1".to_vec()));
    assert_eq!(parse_command_tag(b"A\0B\0"), Ok(b"A".to_vec()));
    assert_eq!(parse_command_tag(b"\0"), Ok(Vec::new()));
    assert_eq!(parse_command_tag(b"SELECT 1"), Err(PgError::UnterminatedString));
    let mut q = started();
    let open = Message::new(MessageType::CloseOrCommandComplete, b"SELECT 1".to_vec());
    assert_eq!(q.on_message(open), Err(PgError::UnterminatedString));
    assert_eq!(q.phase, QueryPhase::AwaitingResponse);
}

#[test]
fn result_follows_the_cycle() {
    let mut q = SimpleQueryStateMachine::new();
    assert_eq!(q.result(), Ok((&Vec::new(), &Vec::new())));
    assert!(q.execute(b"SELECT 1").is_ok());
    assert_eq!(q.result(), Err(PgError::Incomplete));
    let row = Message::new(MessageType::DataRowOrDescribe, vec![0, 0]);
    assert_eq!(q.on_message(row), Ok(()));
    let complete = Message::new(MessageType::CloseOrCommandComplete, b"SELECT 1\0".to_vec());
    assert_eq!(q.on_message(complete), Ok(()));
    assert_eq!(q.result(), Err(PgError::Incomplete));
    let ready = Message::new(MessageType::ReadyForQuery, vec![73]);
    assert_eq!(q.on_message(ready), Ok(()));
    assert_eq!(q.result(), Ok((&vec![vec![0u8, 0]], &b"SELECT 1".to_vec())));
}

#[test]
fn result_of_a_failed_query_is_a_server_error() {
    let mut q = started();
    let error = Message::new(MessageType::ErrorResponse, b"SERROR\0\0".to_vec());
    assert_eq!(q.on_message(error), Ok(()));
    assert_eq!(q.result(), Err(PgError::Incomplete));
    let ready = Message::new(MessageType::ReadyForQuery, vec![73]);
    assert_eq!(q.on_message(ready), Ok(()));
    assert_eq!(q.result(), Err(PgError::ServerError));
}

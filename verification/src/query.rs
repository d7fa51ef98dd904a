//! The simple-query cycle: the query, then an optional row description, the
//! data rows, command-complete and ready-for-query.

use vstd::prelude::*;
use crate::cursor::PgRespParser;
use crate::error::PgError;
use crate::handshake::{parse_ready_for_query, ready_spec};
use crate::message::{Message, MessageType, MessageView, MAX_FRAME_LEN};
use crate::state::PgSessionStatus;
use crate::wire::{be_i16, first_nul, i16_at, lemma_first_nul, nul_free, write_cstring};
use vstd::slice::slice_subrange;
use vstd::slice::slice_to_vec;

verus! {

/// How far the response to a query has come.
#[derive(Clone, Copy, Debug, PartialEq, Eq, Structural)]
pub enum QueryPhase {
    /// No query is out.
    Idle,
    /// The query is out and nothing has come back.
    AwaitingResponse,
    /// A row description or a data row has come.
    InRows,
    /// Command-complete has come; ready-for-query is due.
    Completed,
    /// The server has reported an error; ready-for-query is due.
    Failed,
}

/// The columns of a result: their number, and their descriptors as the
/// server sent them.
#[derive(Clone, Debug, PartialEq, Eq)]
pub struct RowDescription {
    pub column_count: i16,
    pub descriptors: Vec<u8>,
}

impl View for RowDescription {
    type V = (i16, Seq<u8>);

    open spec fn view(&self) -> (i16, Seq<u8>) {
        (self.column_count, self.descriptors@)
    }
}

/// The query cycle of one session: its phase and what the server has sent
/// in answer to the last query.
pub struct SimpleQueryStateMachine {
    pub phase: QueryPhase,
    pub description: Option<RowDescription>,
    /// The bodies of the data rows, in the order of their arrival.
    pub rows: Vec<Vec<u8>>,
    /// The command tag, without its terminator.
    pub tag: Vec<u8>,
    /// The body of the error response, where the query failed.
    pub error: Option<Vec<u8>>,
    pub status: PgSessionStatus,
}

/// What a [`SimpleQueryStateMachine`] holds, as mathematical values.
pub struct QueryView {
    pub phase: QueryPhase,
    pub description: Option<(i16, Seq<u8>)>,
    pub rows: Seq<Seq<u8>>,
    pub tag: Seq<u8>,
    pub error: Option<Seq<u8>>,
    pub status: PgSessionStatus,
}

impl QueryView {
    /// A cycle with no query out and nothing gathered.
    pub open spec fn initial() -> QueryView {
        QueryView {
            phase: QueryPhase::Idle,
            description: None,
            rows: Seq::empty(),
            tag: Seq::empty(),
            error: None,
            status: PgSessionStatus::Idle,
        }
    }
}

impl View for SimpleQueryStateMachine {
    type V = QueryView;

    open spec fn view(&self) -> QueryView {
        QueryView {
            phase: self.phase,
            description: match self.description {
                Some(d) => Some(d@),
                None => None,
            },
            rows: self.rows@.map_values(|row: Vec<u8>| row@),
            tag: self.tag@,
            error: match self.error {
                Some(e) => Some(e@),
                None => None,
            },
            status: self.status,
        }
    }
}

/// The query message for `sql`: the text and one zero byte. There is none
/// where the text holds a zero byte or is too long for a frame.
pub open spec fn query_spec(sql: Seq<u8>) -> Result<MessageView, PgError> {
    if !nul_free(sql) {
        Err(PgError::InvalidString)
    } else if sql.len() + 5 > MAX_FRAME_LEN {
        Err(PgError::InvalidLength)
    } else {
        Ok(MessageView { msg_type: MessageType::SimpleQuery, body: sql.push(0u8) })
    }
}

/// The column count and the descriptor bytes in the body of a row
/// description.
pub open spec fn row_description_spec(body: Seq<u8>) -> Result<(i16, Seq<u8>), PgError> {
    if body.len() < 2 {
        Err(PgError::OutOfBounds)
    } else {
        Ok((be_i16(body.take(2)) as i16, body.skip(2)))
    }
}

/// The command tag in the body of a command-complete message: the bytes
/// before its first zero byte.
pub open spec fn command_tag_spec(body: Seq<u8>) -> Result<Seq<u8>, PgError> {
    match first_nul(body) {
        Some(i) => Ok(body.take(i)),
        None => Err(PgError::UnterminatedString),
    }
}

/// A cycle that has just sent its query: nothing of an earlier answer is
/// left but the transaction status.
pub open spec fn started(q: QueryView) -> QueryView {
    QueryView {
        phase: QueryPhase::AwaitingResponse,
        description: None,
        rows: Seq::empty(),
        tag: Seq::empty(),
        error: None,
        status: q.status,
    }
}

/// The cycle after the message `m`, or the error that `m` raises.
///
/// Before any row, a row description is taken once. Data rows are gathered
/// in order. Command-complete gives the tag, and ready-for-query after it
/// ends the cycle. An error response in any phase marks the query as failed:
/// the first one is kept, and ready-for-query is still awaited. A message of
/// any other type is a sequence violation.
pub open spec fn query_step(q: QueryView, m: MessageView) -> Result<QueryView, PgError> {
    match q.phase {
        QueryPhase::Idle => Err(PgError::ProtocolSequenceViolation(None, m.msg_type)),
        QueryPhase::AwaitingResponse | QueryPhase::InRows => if m.msg_type
            == MessageType::RowDescription && q.phase == QueryPhase::AwaitingResponse {
            match row_description_spec(m.body) {
                Ok(d) => Ok(QueryView { phase: QueryPhase::InRows, description: Some(d), ..q }),
                Err(e) => Err(e),
            }
        } else if m.msg_type == MessageType::DataRowOrDescribe {
            Ok(QueryView { phase: QueryPhase::InRows, rows: q.rows.push(m.body), ..q })
        } else if m.msg_type == MessageType::CloseOrCommandComplete {
            match command_tag_spec(m.body) {
                Ok(tag) => Ok(QueryView { phase: QueryPhase::Completed, tag, ..q }),
                Err(e) => Err(e),
            }
        } else if m.msg_type == MessageType::ErrorResponse {
            Ok(QueryView { phase: QueryPhase::Failed, error: Some(m.body), ..q })
        } else {
            Err(
                PgError::ProtocolSequenceViolation(
                    Some(MessageType::CloseOrCommandComplete),
                    m.msg_type,
                ),
            )
        },
        QueryPhase::Completed | QueryPhase::Failed => if m.msg_type == MessageType::ReadyForQuery {
            match ready_spec(m.body) {
                Ok(status) => Ok(QueryView { phase: QueryPhase::Idle, status, ..q }),
                Err(e) => Err(e),
            }
        } else if m.msg_type == MessageType::ErrorResponse {
            if q.phase == QueryPhase::Failed {
                Ok(q)
            } else {
                Ok(QueryView { phase: QueryPhase::Failed, error: Some(m.body), ..q })
            }
        } else {
            Err(PgError::ProtocolSequenceViolation(Some(MessageType::ReadyForQuery), m.msg_type))
        },
    }
}

/// What a cycle has to show for its last query: the rows and the command
/// tag once ready-for-query has come, [`PgError::ServerError`] where the
/// server reported an error, [`PgError::Incomplete`] while the response is
/// under way.
pub open spec fn result_spec(q: QueryView) -> Result<(Seq<Seq<u8>>, Seq<u8>), PgError> {
    if q.phase != QueryPhase::Idle {
        Err(PgError::Incomplete)
    } else if q.error.is_some() {
        Err(PgError::ServerError)
    } else {
        Ok((q.rows, q.tag))
    }
}

/// Builds the query message for `sql`.
pub fn query_message(sql: &[u8]) -> (r: Result<Message, PgError>)
    ensures
        match query_spec(sql@) {
            Ok(m) => r.is_ok() && r.unwrap()@ == m && m.wf(),
            Err(e) => r == Err::<Message, PgError>(e),
        },
{
    let mut body: Vec<u8> = Vec::new();
    if write_cstring(&mut body, sql).is_err() {
        return Err(PgError::InvalidString);
    }
    assert(body@ =~= sql@.push(0u8));
    if body.len() > (MAX_FRAME_LEN - 4) as usize {
        return Err(PgError::InvalidLength);
    }
    Ok(Message::new(MessageType::SimpleQuery, body))
}

/// Reads the body of a row description.
pub fn parse_row_description(body: &[u8]) -> (r: Result<RowDescription, PgError>)
    ensures
        match row_description_spec(body@) {
            Ok(d) => r.is_ok() && r.unwrap()@ == d,
            Err(e) => r.is_err() && r.unwrap_err() == e,
        },
{
    if body.len() < 2 {
        return Err(PgError::OutOfBounds);
    }
    let column_count = i16_at(body, 0);
    assert(body@.subrange(0, 2) =~= body@.take(2));
    let descriptors = slice_to_vec(slice_subrange(body, 2, body.len()));
    assert(descriptors@ =~= body@.skip(2));
    Ok(RowDescription { column_count, descriptors })
}

/// Reads the command tag of a command-complete message.
pub fn parse_command_tag(body: &[u8]) -> (r: Result<Vec<u8>, PgError>)
    ensures
        match command_tag_spec(body@) {
            Ok(tag) => r.is_ok() && r.unwrap()@ == tag,
            Err(e) => r == Err::<Vec<u8>, PgError>(e),
        },
{
    let mut fields = PgRespParser::new(slice_to_vec(body));
    assert(fields.remaining() =~= body@);
    match fields.read_a_cstr() {
        Ok(tag) => {
            proof {
                lemma_first_nul(body@, tag@.len() as int);
            }
            Ok(tag)
        },
        Err(e) => Err(e),
    }
}

impl SimpleQueryStateMachine {
    /// A cycle with no query out and nothing gathered.
    pub fn new() -> (q: Self)
        ensures
            q@ == QueryView::initial(),
    {
        let q = SimpleQueryStateMachine {
            phase: QueryPhase::Idle,
            description: None,
            rows: Vec::new(),
            tag: Vec::new(),
            error: None,
            status: PgSessionStatus::Idle,
        };
        assert(q@.rows =~= Seq::<Seq<u8>>::empty());
        q
    }

    /// Begins a cycle: returns the bytes of the query message for the caller
    /// to send, and forgets the answer to the query before. Where the message
    /// cannot be built, nothing changes.
    pub fn execute(&mut self, sql: &[u8]) -> (r: Result<Vec<u8>, PgError>)
        requires
            old(self).phase == QueryPhase::Idle,
        ensures
            match query_spec(sql@) {
                Ok(m) => r.is_ok() && r.unwrap()@ == m.encode() && final(self)@ == started(
                    old(self)@,
                ),
                Err(e) => r == Err::<Vec<u8>, PgError>(e) && final(self)@ == old(self)@,
            },
    {
        match query_message(sql) {
            Ok(message) => {
                self.phase = QueryPhase::AwaitingResponse;
                self.description = None;
                self.rows = Vec::new();
                self.tag = Vec::new();
                self.error = None;
                assert(self@.rows =~= Seq::<Seq<u8>>::empty());
                Ok(message.to_vec_u8())
            },
            Err(e) => Err(e),
        }
    }

    /// The rows and the command tag of the last query, as [`result_spec`]
    /// says.
    pub fn result(&self) -> (r: Result<(&Vec<Vec<u8>>, &Vec<u8>), PgError>)
        ensures
            match result_spec(self@) {
                Ok((rows, tag)) => r.is_ok() && r.unwrap().0@.map_values(|row: Vec<u8>| row@)
                    == rows && r.unwrap().1@ == tag,
                Err(e) => r.is_err() && r.unwrap_err() == e,
            },
    {
        match self.phase {
            QueryPhase::Idle => {},
            _ => {
                return Err(PgError::Incomplete);
            },
        }
        if self.error.is_some() {
            return Err(PgError::ServerError);
        }
        Ok((&self.rows, &self.tag))
    }

    /// Takes the next message from the server, as [`query_step`] says. A
    /// message that raises an error changes nothing.
    pub fn on_message(&mut self, message: Message) -> (r: Result<(), PgError>)
        ensures
            match query_step(old(self)@, message@) {
                Ok(next) => r.is_ok() && final(self)@ == next,
                Err(e) => r == Err::<(), PgError>(e) && final(self)@ == old(self)@,
            },
    {
        let msg_type = message.msg_type;
        match self.phase {
            QueryPhase::Idle => Err(PgError::ProtocolSequenceViolation(None, msg_type)),
            QueryPhase::AwaitingResponse | QueryPhase::InRows => match msg_type {
                MessageType::RowDescription => {
                    match self.phase {
                        QueryPhase::AwaitingResponse => {},
                        _ => {
                            return Err(
                                PgError::ProtocolSequenceViolation(
                                    Some(MessageType::CloseOrCommandComplete),
                                    msg_type,
                                ),
                            );
                        },
                    }
                    match parse_row_description(message.body.as_slice()) {
                        Ok(d) => {
                            self.description = Some(d);
                            self.phase = QueryPhase::InRows;
                            Ok(())
                        },
                        Err(e) => Err(e),
                    }
                },
                MessageType::DataRowOrDescribe => {
                    self.rows.push(message.body);
                    self.phase = QueryPhase::InRows;
                    assert(self@.rows =~= old(self)@.rows.push(message@.body));
                    Ok(())
                },
                MessageType::CloseOrCommandComplete => {
                    match parse_command_tag(message.body.as_slice()) {
                        Ok(tag) => {
                            self.tag = tag;
                            self.phase = QueryPhase::Completed;
                            Ok(())
                        },
                        Err(e) => Err(e),
                    }
                },
                MessageType::ErrorResponse => {
                    self.error = Some(message.body);
                    self.phase = QueryPhase::Failed;
                    Ok(())
                },
                other => Err(
                    PgError::ProtocolSequenceViolation(
                        Some(MessageType::CloseOrCommandComplete),
                        other,
                    ),
                ),
            },
            QueryPhase::Completed | QueryPhase::Failed => match msg_type {
                MessageType::ReadyForQuery => {
                    match parse_ready_for_query(message.body.as_slice()) {
                        Ok(status) => {
                            self.status = status;
                            self.phase = QueryPhase::Idle;
                            Ok(())
                        },
                        Err(e) => Err(e),
                    }
                },
                MessageType::ErrorResponse => {
                    match self.phase {
                        QueryPhase::Failed => {},
                        _ => {
                            self.error = Some(message.body);
                            self.phase = QueryPhase::Failed;
                        },
                    }
                    Ok(())
                },
                other => Err(
                    PgError::ProtocolSequenceViolation(Some(MessageType::ReadyForQuery), other),
                ),
            },
        }
    }
}

} // verus!

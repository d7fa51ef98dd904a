//! One connection: the bytes that have arrived, the handshake and the query
//! cycle, driven one message at a time. The caller owns the transport: it
//! sends what [`ConnectionSession::begin_startup`] and
//! [`ConnectionSession::execute`] return, and supplies what it reads.

use vstd::prelude::*;
use crate::assembler::FrameAssembler;
use crate::codec::decode_spec;
use crate::error::PgError;
use crate::handshake::{
    handshake_step,
    parameter_spec,
    parse_parameter_status,
    startup_spec,
    HandshakeStateMachine,
    HandshakeView,
};
use crate::message::{MessageType, MessageView};
use crate::params::ParameterTable;
use crate::query::{
    query_spec,
    query_step,
    result_spec,
    started,
    QueryPhase,
    QueryView,
    RowDescription,
    SimpleQueryStateMachine,
};
use crate::state::{PgSessionStatus, SessionState};

verus! {

/// What one call of [`ConnectionSession::step`] has done.
#[derive(Clone, Copy, Debug, PartialEq, Eq, Structural)]
pub enum Progress {
    /// No whole message is held: the caller reads from the transport,
    /// supplies the bytes and steps again.
    NeedMoreData,
    /// One message was taken.
    Advanced,
}

/// A session with a server.
pub struct ConnectionSession {
    closed: bool,
    queried: bool,
    assembler: FrameAssembler,
    handshake: HandshakeStateMachine,
    query: SimpleQueryStateMachine,
}

/// What a [`ConnectionSession`] holds, as mathematical values.
pub struct SessionView {
    pub closed: bool,
    /// True once a query has been sent.
    pub queried: bool,
    /// The bytes that have arrived and belong to no message taken so far.
    pub buffer: Seq<u8>,
    pub handshake: HandshakeView,
    pub query: QueryView,
}

impl SessionView {
    /// A session that has sent and received nothing.
    pub open spec fn initial() -> SessionView {
        SessionView {
            closed: false,
            queried: false,
            buffer: Seq::empty(),
            handshake: HandshakeView::initial(),
            query: QueryView::initial(),
        }
    }

    /// The state of the session.
    pub open spec fn state(self) -> SessionState {
        if self.closed {
            SessionState::Closed
        } else if self.handshake.state != SessionState::Ready {
            self.handshake.state
        } else if self.query.phase == QueryPhase::Idle {
            SessionState::Ready
        } else {
            SessionState::AwaitingQueryResponse
        }
    }

    /// The parts agree: the handshake is in a state of its own, and no query
    /// is out before it is done.
    pub open spec fn wf(self) -> bool {
        &&& self.handshake.state != SessionState::Closed
        &&& self.handshake.state != SessionState::AwaitingQueryResponse
        &&& self.handshake.state != SessionState::Ready ==> self.query.phase == QueryPhase::Idle
    }

    /// The transaction status of the last ready-for-query: that of the query
    /// cycle once a query has been sent, that of the handshake before.
    pub open spec fn status(self) -> PgSessionStatus {
        if self.queried {
            self.query.status
        } else {
            self.handshake.status
        }
    }

    /// The session after its end: closed, with no bytes held.
    pub open spec fn ended(self) -> SessionView {
        SessionView { closed: true, buffer: Seq::empty(), ..self }
    }

    /// The session after the message `m` has been taken from the front of the
    /// buffer, `taken` bytes long. While a response is awaited, a parameter
    /// report sets its entry of the table and every other message goes to
    /// the query cycle; otherwise the handshake gets the message. An error
    /// ends the session.
    pub open spec fn receive(self, m: MessageView, taken: int) -> (SessionView, Result<
        Progress,
        PgError,
    >) {
        if self.state() == SessionState::AwaitingQueryResponse && m.msg_type
            == MessageType::ParameterStatus {
            match parameter_spec(m.body) {
                Ok((name, value)) => (
                    SessionView {
                        buffer: self.buffer.skip(taken),
                        handshake: HandshakeView {
                            parameters: self.handshake.parameters.insert(name, value),
                            ..self.handshake
                        },
                        ..self
                    },
                    Ok(Progress::Advanced),
                ),
                Err(e) => (self.ended(), Err(e)),
            }
        } else if self.state() == SessionState::AwaitingQueryResponse {
            match query_step(self.query, m) {
                Ok(query) => (
                    SessionView { buffer: self.buffer.skip(taken), query, ..self },
                    Ok(Progress::Advanced),
                ),
                Err(e) => (self.ended(), Err(e)),
            }
        } else {
            match handshake_step(self.handshake, m) {
                Ok(handshake) => (
                    SessionView { buffer: self.buffer.skip(taken), handshake, ..self },
                    Ok(Progress::Advanced),
                ),
                Err(e) => (self.ended(), Err(e)),
            }
        }
    }

    /// The session after one step, and what the step reports.
    ///
    /// A closed session reports [`PgError::ConnectionClosed`]. Where the
    /// buffer holds no whole message, nothing changes and more data is asked
    /// for. A whole message is taken, once, and handed on. Bytes that cannot
    /// be decoded end the session.
    pub open spec fn step(self) -> (SessionView, Result<Progress, PgError>) {
        if self.closed {
            (self, Err(PgError::ConnectionClosed))
        } else {
            match decode_spec(self.buffer, false) {
                Ok((m, taken)) => self.receive(m, taken),
                Err(PgError::Incomplete) => (self, Ok(Progress::NeedMoreData)),
                Err(e) => (self.ended(), Err(e)),
            }
        }
    }
}

impl View for ConnectionSession {
    type V = SessionView;

    closed spec fn view(&self) -> SessionView {
        SessionView {
            closed: self.closed,
            queried: self.queried,
            buffer: self.assembler@,
            handshake: self.handshake@,
            query: self.query@,
        }
    }
}

impl ConnectionSession {
    /// The parts agree.
    pub open spec fn wf(&self) -> bool {
        self@.wf()
    }

    /// A session that has sent and received nothing.
    pub fn new() -> (s: Self)
        ensures
            s.wf(),
            s@ == SessionView::initial(),
            s@.state() == SessionState::Connecting,
    {
        ConnectionSession {
            closed: false,
            queried: false,
            assembler: FrameAssembler::new(),
            handshake: HandshakeStateMachine::new(),
            query: SimpleQueryStateMachine::new(),
        }
    }

    /// The state of the session.
    pub fn state(&self) -> (r: SessionState)
        ensures
            r == self@.state(),
    {
        if self.closed {
            SessionState::Closed
        } else {
            match self.handshake.state {
                SessionState::Ready => match self.query.phase {
                    QueryPhase::Idle => SessionState::Ready,
                    _ => SessionState::AwaitingQueryResponse,
                },
                other => other,
            }
        }
    }

    /// The parameters that the server has reported.
    pub fn parameters(&self) -> (r: &ParameterTable)
        ensures
            r@ == self@.handshake.parameters,
    {
        &self.handshake.parameters
    }

    /// The process id of the backend, as its key data gave it.
    pub fn process_id(&self) -> (r: i32)
        ensures
            r == self@.handshake.process_id,
    {
        self.handshake.process_id
    }

    /// The secret key of the backend, as its key data gave it.
    pub fn secret_key(&self) -> (r: i32)
        ensures
            r == self@.handshake.secret_key,
    {
        self.handshake.secret_key
    }

    /// The transaction status of the last ready-for-query.
    pub fn status(&self) -> (r: PgSessionStatus)
        ensures
            r == self@.status(),
    {
        if self.queried {
            self.query.status
        } else {
            self.handshake.status
        }
    }

    /// The rows and the command tag of the last query, as [`result_spec`]
    /// says.
    pub fn result(&self) -> (r: Result<(&Vec<Vec<u8>>, &Vec<u8>), PgError>)
        ensures
            match result_spec(self@.query) {
                Ok((rows, tag)) => r.is_ok() && r.unwrap().0@.map_values(|row: Vec<u8>| row@)
                    == rows && r.unwrap().1@ == tag,
                Err(e) => r.is_err() && r.unwrap_err() == e,
            },
    {
        self.query.result()
    }

    /// The description of the rows of the last query, if one came.
    pub fn row_description(&self) -> (r: &Option<RowDescription>)
        ensures
            match *r {
                Some(d) => self@.query.description == Some(d@),
                None => self@.query.description.is_none(),
            },
    {
        &self.query.description
    }

    /// The bodies of the data rows of the last query, in their order.
    pub fn rows(&self) -> (r: &Vec<Vec<u8>>)
        ensures
            r@.map_values(|row: Vec<u8>| row@) == self@.query.rows,
    {
        &self.query.rows
    }

    /// The command tag of the last query.
    pub fn command_tag(&self) -> (r: &Vec<u8>)
        ensures
            r@ == self@.query.tag,
    {
        &self.query.tag
    }

    /// The body of the server's error response to the last query, if it
    /// failed.
    pub fn server_error(&self) -> (r: &Option<Vec<u8>>)
        ensures
            match *r {
                Some(e) => self@.query.error == Some(e@),
                None => self@.query.error.is_none(),
            },
    {
        &self.query.error
    }

    /// Begins the handshake: returns the bytes of the startup message for the
    /// caller to send. Where the message cannot be built, nothing changes.
    pub fn begin_startup(&mut self, user: &[u8], database: &[u8]) -> (r: Result<Vec<u8>, PgError>)
        requires
            old(self).wf(),
            old(self)@.state() == SessionState::Connecting,
        ensures
            final(self).wf(),
            match startup_spec(user@, database@) {
                Ok(m) => r.is_ok() && r.unwrap()@ == m.encode() && final(self)@ == (SessionView {
                    handshake: HandshakeView {
                        state: SessionState::AwaitingAuth,
                        ..old(self)@.handshake
                    },
                    ..old(self)@
                }) && final(self)@.state() == SessionState::AwaitingAuth,
                Err(e) => r == Err::<Vec<u8>, PgError>(e) && final(self)@ == old(self)@,
            },
    {
        self.handshake.begin_startup(user, database)
    }

    /// Begins a query: returns the bytes of the query message for the caller
    /// to send, and forgets the answer to the query before. Where the message
    /// cannot be built, nothing changes.
    pub fn execute(&mut self, sql: &[u8]) -> (r: Result<Vec<u8>, PgError>)
        requires
            old(self).wf(),
            old(self)@.state() == SessionState::Ready,
        ensures
            final(self).wf(),
            match query_spec(sql@) {
                Ok(m) => r.is_ok() && r.unwrap()@ == m.encode() && final(self)@ == (SessionView {
                    queried: true,
                    query: started(QueryView { status: old(self)@.status(), ..old(self)@.query }),
                    ..old(self)@
                }) && final(self)@.state() == SessionState::AwaitingQueryResponse,
                Err(e) => r == Err::<Vec<u8>, PgError>(e) && final(self)@ == old(self)@,
            },
    {
        let bytes = self.query.execute(sql)?;
        if !self.queried {
            self.query.status = self.handshake.status;
            self.queried = true;
        }
        Ok(bytes)
    }

    /// Takes in the bytes of one read. A closed session drops them.
    pub fn supply(&mut self, new_bytes: &[u8])
        requires
            old(self).wf(),
        ensures
            final(self).wf(),
            final(self)@ == if old(self)@.closed {
                old(self)@
            } else {
                SessionView { buffer: old(self)@.buffer + new_bytes@, ..old(self)@ }
            },
    {
        if !self.closed {
            self.assembler.supply(new_bytes);
        }
    }

    /// Ends the session and drops the bytes held.
    pub fn close(&mut self)
        requires
            old(self).wf(),
        ensures
            final(self).wf(),
            final(self)@ == old(self)@.ended(),
            final(self)@.state() == SessionState::Closed,
    {
        self.closed = true;
        self.assembler.clear();
    }

    /// Takes the next message out of the bytes held, if a whole one is there,
    /// and moves the handshake or the query cycle by it, as
    /// [`SessionView::step`] says.
    pub fn step(&mut self) -> (r: Result<Progress, PgError>)
        requires
            old(self).wf(),
        ensures
            final(self).wf(),
            final(self)@ == old(self)@.step().0,
            r == old(self)@.step().1,
    {
        if self.closed {
            return Err(PgError::ConnectionClosed);
        }
        let in_query = match self.state() {
            SessionState::AwaitingQueryResponse => true,
            _ => false,
        };
        match self.assembler.next_frame(false) {
            Ok(message) => {
                let taken = if in_query {
                    match message.msg_type {
                        MessageType::ParameterStatus => {
                            match parse_parameter_status(message.body.as_slice()) {
                                Ok((name, value)) => {
                                    self.handshake.parameters.upsert(name, value);
                                    Ok(())
                                },
                                Err(e) => Err(e),
                            }
                        },
                        _ => self.query.on_message(message),
                    }
                } else {
                    self.handshake.on_message(&message)
                };
                match taken {
                    Ok(_) => Ok(Progress::Advanced),
                    Err(e) => {
                        self.close();
                        Err(e)
                    },
                }
            },
            Err(PgError::Incomplete) => Ok(Progress::NeedMoreData),
            Err(e) => {
                self.close();
                Err(e)
            },
        }
    }
}

/// How far a state lies along the life of a session. `Ready` and
/// `AwaitingQueryResponse` lie equally far: they alternate with each query.
pub open spec fn rank(state: SessionState) -> int {
    match state {
        SessionState::Connecting => 0,
        SessionState::AwaitingAuth => 1,
        SessionState::AwaitingParameters => 2,
        SessionState::AwaitingReady => 3,
        SessionState::Ready => 4,
        SessionState::AwaitingQueryResponse => 4,
        SessionState::Closed => 5,
    }
}

/// A step never moves a session backwards, and moves it by one state at
/// most. A step that asks for more data changes nothing, so stepping again
/// on the same bytes asks again. A step that fails closes the session. A step
/// that advances takes the first message off the buffer, and only that.
pub proof fn lemma_step_moves_forward(s: SessionView)
    requires
        s.wf(),
    ensures
        s.step().0.wf(),
        rank(s.step().0.state()) >= rank(s.state()),
        s.step().1.is_ok() ==> rank(s.step().0.state()) <= rank(s.state()) + 1,
        s.step().1 == Ok::<Progress, PgError>(Progress::NeedMoreData) ==> s.step().0 == s,
        s.step().1.is_err() ==> s.step().0.state() == SessionState::Closed,
        s.step().1 == Ok::<Progress, PgError>(Progress::Advanced) ==> decode_spec(
            s.buffer,
            false,
        ).is_ok() && s.step().0.buffer == s.buffer.skip(decode_spec(s.buffer, false).unwrap().1),
{
}

} // verus!

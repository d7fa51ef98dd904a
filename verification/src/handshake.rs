//! The startup handshake: the client's startup message, then authentication,
//! parameter reports, the backend's key data and the first ready-for-query.

use vstd::prelude::*;
use crate::cursor::PgRespParser;
use crate::error::PgError;
use crate::message::{Message, MessageType, MessageView, MAX_FRAME_LEN};
use crate::params::ParameterTable;
use crate::state::{PgSessionStatus, SessionState};
use crate::wire::{
    be_i32,
    first_nul,
    i32_at,
    i32_be,
    lemma_first_nul,
    lemma_first_nul_some,
    nul_free,
    write_bytes,
    write_cstring,
    write_i32_be,
};
use vstd::slice::slice_to_vec;

verus! {

/// Version 3.0 of the protocol, as the startup message names it.
pub const PG_PROTOCOL_VERSION_3: i32 = 0x0003_0000;

/// The one authentication code that this crate accepts: the server asks for
/// nothing more.
pub const AUTHENTICATION_OK: i32 = 0;

/// The bytes of `user`, the first parameter name of a startup message.
pub open spec fn user_key() -> Seq<u8> {
    seq![117u8, 115u8, 101u8, 114u8]
}

/// The bytes of `database`, the second parameter name of a startup message.
pub open spec fn database_key() -> Seq<u8> {
    seq![100u8, 97u8, 116u8, 97u8, 98u8, 97u8, 115u8, 101u8]
}

/// The body of the startup message for a user and a database: the protocol
/// version, each name and value with a zero byte behind it, and one more zero
/// byte.
pub open spec fn startup_body(user: Seq<u8>, database: Seq<u8>) -> Seq<u8> {
    i32_be(PG_PROTOCOL_VERSION_3 as int) + user_key().push(0u8) + user.push(0u8)
        + database_key().push(0u8) + database.push(0u8) + seq![0u8]
}

/// The startup message for a user and a database, or why there is none: a
/// zero byte inside either string, or a body over the frame limit.
pub open spec fn startup_spec(user: Seq<u8>, database: Seq<u8>) -> Result<MessageView, PgError> {
    if !nul_free(user) || !nul_free(database) {
        Err(PgError::InvalidString)
    } else if user.len() + database.len() + 25 > MAX_FRAME_LEN {
        Err(PgError::InvalidLength)
    } else {
        Ok(MessageView { msg_type: MessageType::Startup, body: startup_body(user, database) })
    }
}

/// What the body of an authentication message says.
pub open spec fn authentication_spec(body: Seq<u8>) -> Result<(), PgError> {
    if body.len() != 4 {
        Err(PgError::InvalidLength)
    } else if be_i32(body) != AUTHENTICATION_OK {
        Err(PgError::UnsupportedAuthMethod(be_i32(body) as i32))
    } else {
        Ok(())
    }
}

/// The name and the value at the front of a parameter report: the bytes
/// before the first zero byte, and those between it and the next one.
pub open spec fn parameter_spec(body: Seq<u8>) -> Result<(Seq<u8>, Seq<u8>), PgError> {
    match first_nul(body) {
        None => Err(PgError::UnterminatedString),
        Some(i) => match first_nul(body.skip(i + 1)) {
            None => Err(PgError::UnterminatedString),
            Some(j) => Ok((body.take(i), body.skip(i + 1).take(j))),
        },
    }
}

/// A parameter report that can be read begins with the name, a zero byte,
/// the value and a zero byte, and neither the name nor the value holds a
/// zero byte.
pub proof fn lemma_parameter_layout(body: Seq<u8>)
    requires
        parameter_spec(body).is_ok(),
    ensures
        ({
            let (name, value) = parameter_spec(body).unwrap();
            &&& nul_free(name)
            &&& nul_free(value)
            &&& name.len() + value.len() + 2 <= body.len()
            &&& body.take(name.len() as int + value.len() + 2) == name.push(0u8) + value.push(0u8)
        }),
{
    let (name, value) = parameter_spec(body).unwrap();
    lemma_first_nul_some(body);
    let i = first_nul(body).unwrap();
    let rest = body.skip(i + 1);
    lemma_first_nul_some(rest);
    let j = first_nul(rest).unwrap();
    assert(rest[j] == body[i + 1 + j]);
    assert(body.take(i + j + 2) =~= name.push(0u8) + value.push(0u8));
}

/// The process id and the secret key in the body of a key-data message.
pub open spec fn backend_key_spec(body: Seq<u8>) -> Result<(i32, i32), PgError> {
    if body.len() != 8 {
        Err(PgError::InvalidLength)
    } else {
        Ok((be_i32(body.subrange(0, 4)) as i32, be_i32(body.subrange(4, 8)) as i32))
    }
}

/// The transaction status in the body of a ready-for-query message.
pub open spec fn ready_spec(body: Seq<u8>) -> Result<PgSessionStatus, PgError> {
    if body.len() != 1 {
        Err(PgError::InvalidLength)
    } else if body[0] == 73 {
        Ok(PgSessionStatus::Idle)
    } else if body[0] == 84 {
        Ok(PgSessionStatus::DoingTransaction)
    } else if body[0] == 69 {
        Ok(PgSessionStatus::ErrorInTransaction)
    } else {
        Err(PgError::UnknownSessionStatus)
    }
}

/// Builds the startup message for a user and a database.
pub fn startup_message(user: &[u8], database: &[u8]) -> (r: Result<Message, PgError>)
    ensures
        match startup_spec(user@, database@) {
            Ok(m) => r.is_ok() && r.unwrap()@ == m && m.wf(),
            Err(e) => r == Err::<Message, PgError>(e),
        },
{
    let mut body: Vec<u8> = Vec::new();
    write_i32_be(&mut body, PG_PROTOCOL_VERSION_3);
    let user_name: [u8; 4] = [117, 115, 101, 114];
    let database_name: [u8; 8] = [100, 97, 116, 97, 98, 97, 115, 101];
    write_bytes(&mut body, user_name.as_slice());
    body.push(0u8);
    assert(user_name@ =~= user_key());
    assert(database_name@ =~= database_key());
    if write_cstring(&mut body, user).is_err() {
        return Err(PgError::InvalidString);
    }
    write_bytes(&mut body, database_name.as_slice());
    body.push(0u8);
    if write_cstring(&mut body, database).is_err() {
        return Err(PgError::InvalidString);
    }
    // only the startup message ends with a terminator of its own
    body.push(0u8);
    assert(body@ =~= startup_body(user@, database@));
    if body.len() > (MAX_FRAME_LEN - 4) as usize {
        return Err(PgError::InvalidLength);
    }
    Ok(Message::new(MessageType::Startup, body))
}

/// Reads the body of an authentication message.
pub fn parse_authentication(body: &[u8]) -> (r: Result<(), PgError>)
    ensures
        r == authentication_spec(body@),
{
    if body.len() != 4 {
        return Err(PgError::InvalidLength);
    }
    let code = i32_at(body, 0);
    assert(body@.subrange(0, 4) =~= body@);
    if code != AUTHENTICATION_OK {
        return Err(PgError::UnsupportedAuthMethod(code));
    }
    Ok(())
}

/// Reads the name and the value of a parameter report.
pub fn parse_parameter_status(body: &[u8]) -> (r: Result<(Vec<u8>, Vec<u8>), PgError>)
    ensures
        match parameter_spec(body@) {
            Ok((name, value)) => r.is_ok() && r.unwrap().0@ == name && r.unwrap().1@ == value,
            Err(e) => r == Err::<(Vec<u8>, Vec<u8>), PgError>(e),
        },
{
    let mut fields = PgRespParser::new(slice_to_vec(body));
    let ghost all = fields.remaining();
    assert(all =~= body@);
    let name = match fields.read_a_cstr() {
        Ok(s) => s,
        Err(e) => {
            return Err(e);
        },
    };
    proof {
        lemma_first_nul(body@, name@.len() as int);
    }
    let ghost rest = fields.remaining();
    assert(rest =~= body@.skip(name@.len() as int + 1));
    let value = match fields.read_a_cstr() {
        Ok(s) => s,
        Err(e) => {
            return Err(e);
        },
    };
    proof {
        lemma_first_nul(rest, value@.len() as int);
    }
    Ok((name, value))
}

/// Reads the process id and the secret key of a key-data message.
pub fn parse_backend_key_data(body: &[u8]) -> (r: Result<(i32, i32), PgError>)
    ensures
        r == backend_key_spec(body@),
{
    if body.len() != 8 {
        return Err(PgError::InvalidLength);
    }
    let process_id = i32_at(body, 0);
    let secret_key = i32_at(body, 4);
    Ok((process_id, secret_key))
}

/// Reads the transaction status of a ready-for-query message.
pub fn parse_ready_for_query(body: &[u8]) -> (r: Result<PgSessionStatus, PgError>)
    ensures
        r == ready_spec(body@),
{
    if body.len() != 1 {
        return Err(PgError::InvalidLength);
    }
    let status = body[0];
    if status == 73 {
        Ok(PgSessionStatus::Idle)
    } else if status == 84 {
        Ok(PgSessionStatus::DoingTransaction)
    } else if status == 69 {
        Ok(PgSessionStatus::ErrorInTransaction)
    } else {
        Err(PgError::UnknownSessionStatus)
    }
}

/// The handshake of one session: where it stands and what the server has
/// told so far.
pub struct HandshakeStateMachine {
    pub state: SessionState,
    pub parameters: ParameterTable,
    pub process_id: i32,
    pub secret_key: i32,
    pub status: PgSessionStatus,
}

/// What a [`HandshakeStateMachine`] holds, as mathematical values.
pub struct HandshakeView {
    pub state: SessionState,
    pub parameters: Map<Seq<u8>, Seq<u8>>,
    pub process_id: i32,
    pub secret_key: i32,
    pub status: PgSessionStatus,
}

impl HandshakeView {
    /// A handshake that has not begun: no parameter is known, and the key
    /// data is zero until the server sends it.
    pub open spec fn initial() -> HandshakeView {
        HandshakeView {
            state: SessionState::Connecting,
            parameters: Map::empty(),
            process_id: 0,
            secret_key: 0,
            status: PgSessionStatus::Idle,
        }
    }
}

impl View for HandshakeStateMachine {
    type V = HandshakeView;

    open spec fn view(&self) -> HandshakeView {
        HandshakeView {
            state: self.state,
            parameters: self.parameters@,
            process_id: self.process_id,
            secret_key: self.secret_key,
            status: self.status,
        }
    }
}

/// The message type that lets a handshake in state `state` move on; `None`
/// where the state takes no message.
pub open spec fn awaited(state: SessionState) -> Option<MessageType> {
    match state {
        SessionState::AwaitingAuth => Some(MessageType::Authentication),
        SessionState::AwaitingParameters => Some(MessageType::BackendKeyData),
        SessionState::AwaitingReady => Some(MessageType::ReadyForQuery),
        _ => None,
    }
}

/// The handshake after the message `m`, or the error that `m` raises.
///
/// An authentication outcome leads from `AwaitingAuth` to
/// `AwaitingParameters`. There each parameter report sets one entry of the
/// table, as often as the server pleases, and the key data leads on to
/// `AwaitingReady`, where ready-for-query ends the handshake in `Ready`. A
/// message of any other type is a sequence violation, and a closed handshake
/// takes none.
pub open spec fn handshake_step(h: HandshakeView, m: MessageView) -> Result<HandshakeView, PgError> {
    let violation = Err::<HandshakeView, PgError>(
        PgError::ProtocolSequenceViolation(awaited(h.state), m.msg_type),
    );
    match h.state {
        SessionState::Closed => Err(PgError::ConnectionClosed),
        SessionState::AwaitingAuth => if m.msg_type == MessageType::Authentication {
            match authentication_spec(m.body) {
                Ok(_) => Ok(HandshakeView { state: SessionState::AwaitingParameters, ..h }),
                Err(e) => Err(e),
            }
        } else {
            violation
        },
        SessionState::AwaitingParameters => if m.msg_type == MessageType::ParameterStatus {
            match parameter_spec(m.body) {
                Ok((name, value)) => Ok(
                    HandshakeView { parameters: h.parameters.insert(name, value), ..h },
                ),
                Err(e) => Err(e),
            }
        } else if m.msg_type == MessageType::BackendKeyData {
            match backend_key_spec(m.body) {
                Ok((process_id, secret_key)) => Ok(
                    HandshakeView {
                        state: SessionState::AwaitingReady,
                        process_id,
                        secret_key,
                        ..h
                    },
                ),
                Err(e) => Err(e),
            }
        } else {
            violation
        },
        SessionState::AwaitingReady => if m.msg_type == MessageType::ReadyForQuery {
            match ready_spec(m.body) {
                Ok(status) => Ok(HandshakeView { state: SessionState::Ready, status, ..h }),
                Err(e) => Err(e),
            }
        } else {
            violation
        },
        _ => violation,
    }
}

impl HandshakeStateMachine {
    /// A handshake that has not begun.
    pub fn new() -> (h: Self)
        ensures
            h@ == HandshakeView::initial(),
    {
        HandshakeStateMachine {
            state: SessionState::Connecting,
            parameters: ParameterTable::new(),
            process_id: 0,
            secret_key: 0,
            status: PgSessionStatus::Idle,
        }
    }

    /// Begins the handshake: returns the bytes of the startup message for the
    /// caller to send, and awaits the authentication outcome. Where the
    /// message cannot be built, nothing changes.
    pub fn begin_startup(&mut self, user: &[u8], database: &[u8]) -> (r: Result<Vec<u8>, PgError>)
        requires
            old(self).state == SessionState::Connecting,
        ensures
            match startup_spec(user@, database@) {
                Ok(m) => r.is_ok() && r.unwrap()@ == m.encode() && final(self)@ == (HandshakeView {
                    state: SessionState::AwaitingAuth,
                    ..old(self)@
                }),
                Err(e) => r == Err::<Vec<u8>, PgError>(e) && final(self)@ == old(self)@,
            },
    {
        match startup_message(user, database) {
            Ok(message) => {
                self.state = SessionState::AwaitingAuth;
                Ok(message.to_vec_u8())
            },
            Err(e) => Err(e),
        }
    }

    /// Takes the next message from the server, as [`handshake_step`] says. A
    /// message that raises an error changes nothing.
    pub fn on_message(&mut self, message: &Message) -> (r: Result<(), PgError>)
        ensures
            match handshake_step(old(self)@, message@) {
                Ok(next) => r.is_ok() && final(self)@ == next,
                Err(e) => r == Err::<(), PgError>(e) && final(self)@ == old(self)@,
            },
    {
        let body = message.body.as_slice();
        match self.state {
            SessionState::Closed => Err(PgError::ConnectionClosed),
            SessionState::AwaitingAuth => match message.msg_type {
                MessageType::Authentication => {
                    match parse_authentication(body) {
                        Ok(_) => {
                            self.state = SessionState::AwaitingParameters;
                            Ok(())
                        },
                        Err(e) => Err(e),
                    }
                },
                other => Err(
                    PgError::ProtocolSequenceViolation(Some(MessageType::Authentication), other),
                ),
            },
            SessionState::AwaitingParameters => match message.msg_type {
                MessageType::ParameterStatus => {
                    match parse_parameter_status(body) {
                        Ok((name, value)) => {
                            self.parameters.upsert(name, value);
                            Ok(())
                        },
                        Err(e) => Err(e),
                    }
                },
                MessageType::BackendKeyData => {
                    match parse_backend_key_data(body) {
                        Ok((process_id, secret_key)) => {
                            self.process_id = process_id;
                            self.secret_key = secret_key;
                            self.state = SessionState::AwaitingReady;
                            Ok(())
                        },
                        Err(e) => Err(e),
                    }
                },
                other => Err(
                    PgError::ProtocolSequenceViolation(Some(MessageType::BackendKeyData), other),
                ),
            },
            SessionState::AwaitingReady => match message.msg_type {
                MessageType::ReadyForQuery => {
                    match parse_ready_for_query(body) {
                        Ok(status) => {
                            self.status = status;
                            self.state = SessionState::Ready;
                            Ok(())
                        },
                        Err(e) => Err(e),
                    }
                },
                other => Err(
                    PgError::ProtocolSequenceViolation(Some(MessageType::ReadyForQuery), other),
                ),
            },
            _ => Err(PgError::ProtocolSequenceViolation(None, message.msg_type)),
        }
    }
}

} // verus!

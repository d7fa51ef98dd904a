//! Messages, their types, and how a message is laid out on the wire.

use vstd::prelude::*;
use crate::error::PgError;
use crate::wire::{i32_be, write_bytes, write_i32_be};

verus! {

/// The largest value that a message's length field may hold. The field counts
/// itself and the body, not the tag byte.
pub const MAX_FRAME_LEN: i32 = 0x4000_0000;

/// The kinds of message that this crate frames.
#[derive(Clone, Copy, Debug, PartialEq, Eq, Structural)]
pub enum MessageType {
    /// `C`: command-complete from the server, close from the client.
    CloseOrCommandComplete,
    /// `D`: data-row from the server, describe from the client.
    DataRowOrDescribe,
    /// `E`: error-response from the server.
    ErrorResponse,
    /// `K`: the server's process id and cancellation key.
    BackendKeyData,
    /// `Q`: a simple query.
    SimpleQuery,
    /// `R`: an authentication request or outcome.
    Authentication,
    /// `S`: the value of one run-time parameter.
    ParameterStatus,
    /// `T`: the columns of the rows that follow.
    RowDescription,
    /// `Z`: the server is ready for the next query.
    ReadyForQuery,
    /// The first message of a client, the only one without a tag byte.
    Startup,
}

/// The tag byte that precedes a message of type `t`; `None` for the startup
/// message, which has none.
pub open spec fn tag_of(t: MessageType) -> Option<u8> {
    match t {
        MessageType::CloseOrCommandComplete => Some(67u8),
        MessageType::DataRowOrDescribe => Some(68u8),
        MessageType::ErrorResponse => Some(69u8),
        MessageType::BackendKeyData => Some(75u8),
        MessageType::SimpleQuery => Some(81u8),
        MessageType::Authentication => Some(82u8),
        MessageType::ParameterStatus => Some(83u8),
        MessageType::RowDescription => Some(84u8),
        MessageType::ReadyForQuery => Some(90u8),
        MessageType::Startup => None,
    }
}

/// The message type that a tag byte names, if any.
pub open spec fn type_of_tag(tag: u8) -> Option<MessageType> {
    if tag == 67 {
        Some(MessageType::CloseOrCommandComplete)
    } else if tag == 68 {
        Some(MessageType::DataRowOrDescribe)
    } else if tag == 69 {
        Some(MessageType::ErrorResponse)
    } else if tag == 75 {
        Some(MessageType::BackendKeyData)
    } else if tag == 81 {
        Some(MessageType::SimpleQuery)
    } else if tag == 82 {
        Some(MessageType::Authentication)
    } else if tag == 83 {
        Some(MessageType::ParameterStatus)
    } else if tag == 84 {
        Some(MessageType::RowDescription)
    } else if tag == 90 {
        Some(MessageType::ReadyForQuery)
    } else {
        None
    }
}

/// A tag names the type whose tag it is, and no other byte does.
pub proof fn lemma_tag_round_trip(t: MessageType, tag: u8)
    ensures
        tag_of(t) == Some(tag) <==> type_of_tag(tag) == Some(t),
{
}

impl MessageType {
    /// The type that the tag byte `tag` names.
    pub fn from(tag: u8) -> (r: Result<MessageType, PgError>)
        ensures
            match type_of_tag(tag) {
                Some(t) => r == Ok::<MessageType, PgError>(t),
                None => r == Err::<MessageType, PgError>(PgError::UnknownMessageType(tag)),
            },
    {
        if tag == 67 {
            Ok(MessageType::CloseOrCommandComplete)
        } else if tag == 68 {
            Ok(MessageType::DataRowOrDescribe)
        } else if tag == 69 {
            Ok(MessageType::ErrorResponse)
        } else if tag == 75 {
            Ok(MessageType::BackendKeyData)
        } else if tag == 81 {
            Ok(MessageType::SimpleQuery)
        } else if tag == 82 {
            Ok(MessageType::Authentication)
        } else if tag == 83 {
            Ok(MessageType::ParameterStatus)
        } else if tag == 84 {
            Ok(MessageType::RowDescription)
        } else if tag == 90 {
            Ok(MessageType::ReadyForQuery)
        } else {
            Err(PgError::UnknownMessageType(tag))
        }
    }

    /// The tag byte of this type, `None` for the startup message.
    pub fn tag(self) -> (r: Option<u8>)
        ensures
            r == tag_of(self),
    {
        match self {
            MessageType::CloseOrCommandComplete => Some(67u8),
            MessageType::DataRowOrDescribe => Some(68u8),
            MessageType::ErrorResponse => Some(69u8),
            MessageType::BackendKeyData => Some(75u8),
            MessageType::SimpleQuery => Some(81u8),
            MessageType::Authentication => Some(82u8),
            MessageType::ParameterStatus => Some(83u8),
            MessageType::RowDescription => Some(84u8),
            MessageType::ReadyForQuery => Some(90u8),
            MessageType::Startup => None,
        }
    }
}

/// One protocol message: its type and its body, the bytes after the length
/// field. The body of a startup message begins with the protocol version.
#[derive(Clone, Debug, PartialEq, Eq)]
pub struct Message {
    pub msg_type: MessageType,
    pub body: Vec<u8>,
}

/// What a [`Message`] holds, as mathematical values.
pub struct MessageView {
    pub msg_type: MessageType,
    pub body: Seq<u8>,
}

impl View for Message {
    type V = MessageView;

    open spec fn view(&self) -> MessageView {
        MessageView { msg_type: self.msg_type, body: self.body@ }
    }
}

impl MessageView {
    /// The body, with the four bytes of the length field, fits the limit.
    pub open spec fn wf(self) -> bool {
        self.body.len() + 4 <= MAX_FRAME_LEN
    }

    /// True for the one message that is framed without a tag byte.
    pub open spec fn is_startup(self) -> bool {
        self.msg_type == MessageType::Startup
    }

    /// The bytes of the message on the wire: the tag byte where the type has
    /// one, the length of the body plus four as a big-endian 32-bit integer,
    /// and the body.
    pub open spec fn encode(self) -> Seq<u8> {
        match tag_of(self.msg_type) {
            Some(tag) => seq![tag] + i32_be(self.body.len() as int + 4) + self.body,
            None => i32_be(self.body.len() as int + 4) + self.body,
        }
    }
}

impl Message {
    /// A message of the given type and body.
    pub fn new(msg_type: MessageType, body: Vec<u8>) -> (m: Self)
        requires
            body@.len() + 4 <= MAX_FRAME_LEN,
        ensures
            m@ == (MessageView { msg_type, body: body@ }),
            m@.wf(),
    {
        Self { msg_type, body }
    }

    /// The wire bytes of the message.
    pub fn to_vec_u8(&self) -> (bytes: Vec<u8>)
        requires
            self@.wf(),
        ensures
            bytes@ == self@.encode(),
    {
        let body_len = self.body.len();
        let mut bytes: Vec<u8> = Vec::with_capacity(1 + 4 + body_len);
        match self.msg_type.tag() {
            Some(tag) => {
                bytes.push(tag);
            },
            None => {},
        }
        // the length field counts itself, never the tag byte
        write_i32_be(&mut bytes, (body_len + 4) as i32);
        write_bytes(&mut bytes, self.body.as_slice());
        assert(bytes@ =~= self@.encode());
        bytes
    }
}

} // verus!

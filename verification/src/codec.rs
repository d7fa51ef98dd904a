//! Decoding one message from the front of a buffer, and the laws that tie
//! decoding to encoding.

use vstd::prelude::*;
use vstd::slice::slice_subrange;
use vstd::slice::slice_to_vec;
use crate::error::PgError;
use crate::message::{tag_of, type_of_tag, Message, MessageType, MessageView, MAX_FRAME_LEN};
use crate::wire::{be_i32, i32_at, i32_be, lemma_be_i32_of_i32_be};

verus! {

/// The number of bytes before the body: the length field, and the tag byte
/// where there is one.
pub open spec fn header_len(is_startup: bool) -> int {
    if is_startup {
        4
    } else {
        5
    }
}

/// What decoding the front of `buf` gives: a message and the number of bytes
/// it took, or the reason why there is none.
///
/// The tag is judged as soon as one byte is there and the length as soon as
/// the length field is whole, so a stream that cannot be decoded is refused
/// without waiting for bytes that would not help.
pub open spec fn decode_spec(buf: Seq<u8>, is_startup: bool) -> Result<(MessageView, int), PgError> {
    let h = header_len(is_startup);
    if !is_startup && buf.len() >= 1 && type_of_tag(buf[0]).is_none() {
        Err(PgError::UnknownMessageType(buf[0]))
    } else if buf.len() < h {
        Err(PgError::Incomplete)
    } else {
        let declared = be_i32(buf.subrange(h - 4, h));
        let msg_type = if is_startup {
            MessageType::Startup
        } else {
            type_of_tag(buf[0]).unwrap()
        };
        if declared < 4 || declared > MAX_FRAME_LEN {
            Err(PgError::InvalidLength)
        } else if buf.len() < h - 4 + declared {
            Err(PgError::Incomplete)
        } else {
            Ok((MessageView { msg_type, body: buf.subrange(h, h - 4 + declared) }, h - 4 + declared))
        }
    }
}

/// Decodes the message at the front of `buffer`. In the startup context the
/// message has no tag byte and is of type [`MessageType::Startup`].
///
/// Returns the message and the number of bytes it occupies, or
/// [`PgError::Incomplete`] where the buffer ends before the message does,
/// [`PgError::UnknownMessageType`] for a tag that names no type, and
/// [`PgError::InvalidLength`] for a length field under four or over
/// [`MAX_FRAME_LEN`].
pub fn decode_one(buffer: &[u8], is_startup: bool) -> (r: Result<(Message, usize), PgError>)
    ensures
        match decode_spec(buffer@, is_startup) {
            Ok((m, n)) => r.is_ok() && r.unwrap().0@ == m && r.unwrap().1 == n && m.wf(),
            Err(e) => r == Err::<(Message, usize), PgError>(e),
        },
{
    let mut msg_type = MessageType::Startup;
    let mut header: usize = 4;
    if !is_startup {
        if buffer.len() >= 1 {
            match MessageType::from(buffer[0]) {
                Ok(t) => {
                    msg_type = t;
                },
                Err(e) => {
                    return Err(e);
                },
            }
        }
        header = 5;
    }
    if buffer.len() < header {
        return Err(PgError::Incomplete);
    }
    let declared: i32 = i32_at(buffer, header - 4);
    if declared < 4 || declared > MAX_FRAME_LEN {
        return Err(PgError::InvalidLength);
    }
    let end: usize = header - 4 + declared as usize;
    if buffer.len() < end {
        return Err(PgError::Incomplete);
    }
    let body = slice_to_vec(slice_subrange(buffer, header, end));
    Ok((Message { msg_type, body }, end))
}

/// Round trip: decoding the encoding of a message gives the message back,
/// and takes exactly the bytes of the encoding.
pub proof fn lemma_round_trip(m: MessageView)
    requires
        m.wf(),
    ensures
        decode_spec(m.encode(), m.is_startup()) == Ok::<(MessageView, int), PgError>(
            (m, m.encode().len() as int),
        ),
{
    lemma_decode_encode(m, Seq::<u8>::empty());
    assert(m.encode() + Seq::<u8>::empty() =~= m.encode());
}

/// Decoding the encoding of a message gives the message back, with the length
/// of the encoding as the number of bytes taken, whatever follows it in the
/// buffer.
pub proof fn lemma_decode_encode(m: MessageView, rest: Seq<u8>)
    requires
        m.wf(),
    ensures
        decode_spec(m.encode() + rest, m.is_startup()) == Ok::<(MessageView, int), PgError>(
            (m, m.encode().len() as int),
        ),
        m.encode().len() == header_len(m.is_startup()) + m.body.len(),
{
    let h = header_len(m.is_startup());
    let len = m.body.len() as int + 4;
    let buf = m.encode() + rest;
    lemma_be_i32_of_i32_be(len);
    assert(buf.subrange(h - 4, h) =~= i32_be(len));
    assert(buf.subrange(h, h - 4 + len) =~= m.body);
    if !m.is_startup() {
        assert(buf[0] == tag_of(m.msg_type).unwrap());
        crate::message::lemma_tag_round_trip(m.msg_type, buf[0]);
    }
}

/// Every proper prefix of the encoding of a message decodes to
/// [`PgError::Incomplete`]: a message is never delivered, and never refused,
/// before its last byte has arrived.
pub proof fn lemma_prefix_incomplete(m: MessageView, n: int)
    requires
        m.wf(),
        0 <= n < m.encode().len(),
    ensures
        decode_spec(m.encode().take(n), m.is_startup()) == Err::<(MessageView, int), PgError>(
            PgError::Incomplete,
        ),
{
    let h = header_len(m.is_startup());
    let len = m.body.len() as int + 4;
    let buf = m.encode().take(n);
    lemma_be_i32_of_i32_be(len);
    if !m.is_startup() && n >= 1 {
        assert(buf[0] == tag_of(m.msg_type).unwrap());
        crate::message::lemma_tag_round_trip(m.msg_type, buf[0]);
    }
    if n >= h {
        assert(buf.subrange(h - 4, h) =~= i32_be(len));
    }
}

/// A result other than [`PgError::Incomplete`] is final: more bytes behind
/// the buffer change neither the message, nor the count, nor the error.
pub proof fn lemma_decode_stable(buf: Seq<u8>, more: Seq<u8>, is_startup: bool)
    requires
        decode_spec(buf, is_startup) != Err::<(MessageView, int), PgError>(PgError::Incomplete),
    ensures
        decode_spec(buf + more, is_startup) == decode_spec(buf, is_startup),
{
    let h = header_len(is_startup);
    let all = buf + more;
    if buf.len() >= 1 {
        assert(all[0] == buf[0]);
    }
    if buf.len() >= h {
        assert(all.subrange(h - 4, h) =~= buf.subrange(h - 4, h));
        let declared = be_i32(buf.subrange(h - 4, h));
        if 4 <= declared <= MAX_FRAME_LEN && buf.len() >= h - 4 + declared {
            assert(all.subrange(h, h - 4 + declared) =~= buf.subrange(h, h - 4 + declared));
        }
    }
}

/// A decoded message, encoded again, is the front of the buffer it came from.
pub proof fn lemma_encode_decode(buf: Seq<u8>, is_startup: bool)
    requires
        decode_spec(buf, is_startup).is_ok(),
    ensures
        ({
            let (m, n) = decode_spec(buf, is_startup).unwrap();
            m.wf() && m.is_startup() == is_startup && 0 < n <= buf.len() && m.encode() == buf.take(n)
        }),
{
    let h = header_len(is_startup);
    let (m, n) = decode_spec(buf, is_startup).unwrap();
    let field = buf.subrange(h - 4, h);
    crate::wire::lemma_i32_be_of_be_i32(field);
    if !is_startup {
        crate::message::lemma_tag_round_trip(m.msg_type, buf[0]);
    }
    assert(m.encode() =~= buf.take(n));
}

} // verus!

//! A read position that moves forward through a buffer, field by field.

use vstd::prelude::*;
use vstd::slice::slice_subrange;
use vstd::slice::slice_to_vec;
use crate::codec::{decode_one, decode_spec};
use crate::error::PgError;
use crate::message::Message;
use crate::wire::{be_i16, be_i32, find_nul, i16_at, i32_at, nul_free};

verus! {

/// A buffer of response bytes and the position of the next byte to read.
///
/// A read that succeeds moves the position past what it read; one that fails
/// leaves it where it was. The buffer itself never changes.
pub struct PgRespParser {
    cursor: usize,
    data: Vec<u8>,
}

impl PgRespParser {
    /// The bytes of the buffer.
    pub closed spec fn data(&self) -> Seq<u8> {
        self.data@
    }

    /// The position of the next byte to read.
    pub closed spec fn position(&self) -> int {
        self.cursor as int
    }

    /// The position lies within the buffer or at its end.
    #[verifier::type_invariant]
    closed spec fn within(&self) -> bool {
        self.cursor <= self.data@.len()
    }

    /// The bytes from the position to the end.
    pub open spec fn remaining(&self) -> Seq<u8> {
        self.data().skip(self.position())
    }

    /// A cursor at the start of `data`.
    pub fn new(data: Vec<u8>) -> (p: Self)
        ensures
            p.position() == 0,
            p.data() == data@,
    {
        PgRespParser { cursor: 0, data }
    }

    /// The position of the next byte to read.
    pub fn cursor(&self) -> (n: usize)
        ensures
            n == self.position(),
            n <= self.data().len(),
    {
        proof {
            use_type_invariant(&*self);
        }
        self.cursor
    }

    /// The number of bytes from the position to the end.
    pub fn remaining_len(&self) -> (n: usize)
        ensures
            n == self.remaining().len(),
    {
        proof {
            use_type_invariant(&*self);
        }
        self.data.len() - self.cursor
    }

    /// Reads one byte, or fails with [`PgError::OutOfBounds`] at the end of
    /// the buffer.
    pub fn read_a_u8(&mut self) -> (r: Result<u8, PgError>)
        ensures
            final(self).data() == old(self).data(),
            old(self).remaining().len() >= 1 ==> r == Ok::<u8, PgError>(old(self).remaining()[0])
                && final(self).position() == old(self).position() + 1,
            old(self).remaining().len() < 1 ==> r == Err::<u8, PgError>(PgError::OutOfBounds)
                && final(self).position() == old(self).position(),
    {
        proof {
            use_type_invariant(&*self);
        }
        if self.data.len() - self.cursor < 1 {
            return Err(PgError::OutOfBounds);
        }
        let res = self.data[self.cursor];
        self.cursor += 1;
        Ok(res)
    }

    /// Reads a big-endian signed 16-bit integer, or fails with
    /// [`PgError::OutOfBounds`] where fewer than two bytes are left.
    pub fn read_a_i16(&mut self) -> (r: Result<i16, PgError>)
        ensures
            final(self).data() == old(self).data(),
            old(self).remaining().len() >= 2 ==> r.is_ok() && r.unwrap() == be_i16(
                old(self).remaining().take(2),
            ) && final(self).position() == old(self).position() + 2,
            old(self).remaining().len() < 2 ==> r == Err::<i16, PgError>(PgError::OutOfBounds)
                && final(self).position() == old(self).position(),
    {
        proof {
            use_type_invariant(&*self);
        }
        if self.data.len() - self.cursor < 2 {
            return Err(PgError::OutOfBounds);
        }
        let res = i16_at(self.data.as_slice(), self.cursor);
        assert(self.data@.subrange(self.cursor as int, self.cursor + 2) =~= self.remaining().take(
            2,
        ));
        self.cursor += 2;
        Ok(res)
    }

    /// Reads a big-endian signed 32-bit integer, or fails with
    /// [`PgError::OutOfBounds`] where fewer than four bytes are left.
    pub fn read_a_i32(&mut self) -> (r: Result<i32, PgError>)
        ensures
            final(self).data() == old(self).data(),
            old(self).remaining().len() >= 4 ==> r.is_ok() && r.unwrap() == be_i32(
                old(self).remaining().take(4),
            ) && final(self).position() == old(self).position() + 4,
            old(self).remaining().len() < 4 ==> r == Err::<i32, PgError>(PgError::OutOfBounds)
                && final(self).position() == old(self).position(),
    {
        proof {
            use_type_invariant(&*self);
        }
        if self.data.len() - self.cursor < 4 {
            return Err(PgError::OutOfBounds);
        }
        let res = i32_at(self.data.as_slice(), self.cursor);
        assert(self.data@.subrange(self.cursor as int, self.cursor + 4) =~= self.remaining().take(
            4,
        ));
        self.cursor += 4;
        Ok(res)
    }

    /// Reads the bytes up to the first zero byte and steps over that byte.
    /// Fails with [`PgError::UnterminatedString`] where no zero byte is left.
    pub fn read_a_cstr(&mut self) -> (r: Result<Vec<u8>, PgError>)
        ensures
            final(self).data() == old(self).data(),
            match r {
                Ok(s) => {
                    &&& s@.len() < old(self).remaining().len()
                    &&& s@ == old(self).remaining().take(s@.len() as int)
                    &&& nul_free(s@)
                    &&& old(self).remaining()[s@.len() as int] == 0
                    &&& final(self).position() == old(self).position() + s@.len() + 1
                },
                Err(e) => {
                    &&& e == PgError::UnterminatedString
                    &&& nul_free(old(self).remaining())
                    &&& final(self).position() == old(self).position()
                },
            },
    {
        proof {
            use_type_invariant(&*self);
        }
        match find_nul(self.data.as_slice(), self.cursor) {
            Some(nul_terminator) => {
                let s = slice_to_vec(
                    slice_subrange(self.data.as_slice(), self.cursor, nul_terminator),
                );
                assert(s@ =~= self.remaining().take(s@.len() as int));
                assert(nul_terminator < self.data.len());
                self.cursor = nul_terminator + 1;
                Ok(s)
            },
            None => {
                assert(self.data@.subrange(self.cursor as int, self.data@.len() as int)
                    =~= self.remaining());
                Err(PgError::UnterminatedString)
            },
        }
    }

    /// Reads the tagged message that starts at the position, as
    /// [`decode_one`] does on the bytes that are left.
    pub fn read_a_message(&mut self) -> (r: Result<Message, PgError>)
        ensures
            final(self).data() == old(self).data(),
            match decode_spec(old(self).remaining(), false) {
                Ok((m, n)) => r.is_ok() && r.unwrap()@ == m && m.wf() && final(self).position()
                    == old(self).position() + n,
                Err(e) => r == Err::<Message, PgError>(e) && final(self).position() == old(
                    self,
                ).position(),
            },
    {
        proof {
            use_type_invariant(&*self);
        }
        let rest = slice_subrange(self.data.as_slice(), self.cursor, self.data.len());
        assert(rest@ =~= self.remaining());
        match decode_one(rest, false) {
            Ok((message, consumed)) => {
                self.cursor += consumed;
                Ok(message)
            },
            Err(e) => Err(e),
        }
    }
}

} // verus!

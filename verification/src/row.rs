//! The columns of one data row.

use vstd::prelude::*;
use crate::error::PgError;
use crate::wire::{be_i16, be_i32, i16_at, i32_at};
use vstd::slice::slice_subrange;
use vstd::slice::slice_to_vec;

verus! {

/// The first `count` column values laid out in `s`: for each a 32-bit length
/// and that many bytes, or the length -1 and nothing for a null value.
pub open spec fn columns_spec(s: Seq<u8>, count: nat) -> Result<Seq<Option<Seq<u8>>>, PgError>
    decreases count,
{
    if count == 0 {
        Ok(Seq::empty())
    } else if s.len() < 4 {
        Err(PgError::OutOfBounds)
    } else {
        let len = be_i32(s.take(4));
        if len < -1 {
            Err(PgError::InvalidLength)
        } else if len == -1 {
            match columns_spec(s.skip(4), (count - 1) as nat) {
                Ok(tail) => Ok(seq![None::<Seq<u8>>] + tail),
                Err(e) => Err(e),
            }
        } else if s.len() < 4 + len {
            Err(PgError::OutOfBounds)
        } else {
            match columns_spec(s.skip(4 + len), (count - 1) as nat) {
                Ok(tail) => Ok(seq![Some(s.subrange(4, 4 + len))] + tail),
                Err(e) => Err(e),
            }
        }
    }
}

/// The column values in the body of a data row: a 16-bit count, then that
/// many values. A count or a length below what can be is
/// [`PgError::InvalidLength`]; a body that ends early is
/// [`PgError::OutOfBounds`].
pub open spec fn data_row_spec(body: Seq<u8>) -> Result<Seq<Option<Seq<u8>>>, PgError> {
    if body.len() < 2 {
        Err(PgError::OutOfBounds)
    } else if be_i16(body.take(2)) < 0 {
        Err(PgError::InvalidLength)
    } else {
        columns_spec(body.skip(2), be_i16(body.take(2)) as nat)
    }
}

/// The column values of `columns`, as mathematical values.
pub open spec fn columns_view(columns: Seq<Option<Vec<u8>>>) -> Seq<Option<Seq<u8>>> {
    columns.map_values(
        |c: Option<Vec<u8>>|
            match c {
                Some(bytes) => Some(bytes@),
                None => None,
            },
    )
}

/// Puts `head` in front of the columns that `tail` holds.
spec fn after(head: Seq<Option<Seq<u8>>>, tail: Result<Seq<Option<Seq<u8>>>, PgError>)
    -> Result<Seq<Option<Seq<u8>>>, PgError> {
    match tail {
        Ok(t) => Ok(head + t),
        Err(e) => Err(e),
    }
}

/// Reads the column values of a data row; `None` stands for a null value.
pub fn parse_data_row(body: &[u8]) -> (r: Result<Vec<Option<Vec<u8>>>, PgError>)
    ensures
        match data_row_spec(body@) {
            Ok(columns) => r.is_ok() && columns_view(r.unwrap()@) == columns,
            Err(e) => r.is_err() && r.unwrap_err() == e,
        },
{
    if body.len() < 2 {
        return Err(PgError::OutOfBounds);
    }
    let count = i16_at(body, 0);
    assert(body@.subrange(0, 2) =~= body@.take(2));
    if count < 0 {
        return Err(PgError::InvalidLength);
    }
    let mut columns: Vec<Option<Vec<u8>>> = Vec::new();
    let mut at: usize = 2;
    let mut done: i16 = 0;
    assert(body@.skip(2) =~= body@.skip(at as int));
    assert(columns_view(columns@) + Seq::<Option<Seq<u8>>>::empty() =~= columns_view(columns@));
    while done < count
        invariant
            0 <= done <= count,
            2 <= at <= body@.len(),
            data_row_spec(body@) == after(
                columns_view(columns@),
                columns_spec(body@.skip(at as int), (count - done) as nat),
            ),
        decreases count - done,
    {
        let ghost rest = body@.skip(at as int);
        let ghost before = columns_view(columns@);
        if body.len() - at < 4 {
            return Err(PgError::OutOfBounds);
        }
        let len = i32_at(body, at);
        assert(body@.subrange(at as int, at + 4) =~= rest.take(4));
        if len < -1 {
            return Err(PgError::InvalidLength);
        }
        if len == -1 {
            columns.push(None);
            at += 4;
            proof {
                assert(rest.skip(4) =~= body@.skip(at as int));
                assert(columns_view(columns@) =~= before + seq![None::<Seq<u8>>]);
            }
        } else {
            let size = len as usize;
            if body.len() - at - 4 < size {
                return Err(PgError::OutOfBounds);
            }
            let value = slice_to_vec(slice_subrange(body, at + 4, at + 4 + size));
            proof {
                assert(value@ =~= rest.subrange(4, 4 + len));
                assert(rest.skip(4 + len) =~= body@.skip(at + 4 + size));
            }
            columns.push(Some(value));
            at += 4 + size;
            proof {
                assert(columns_view(columns@) =~= before + seq![Some(rest.subrange(4, 4 + len))]);
            }
        }
        done += 1;
        proof {
            let tail = columns_spec(body@.skip(at as int), (count - done) as nat);
            if tail.is_ok() {
                let t = tail.unwrap();
                assert(columns_view(columns@) + t =~= before + (seq![
                    columns_view(columns@).last(),
                ] + t));
            }
        }
    }
    assert(columns_view(columns@) + Seq::<Option<Seq<u8>>>::empty() =~= columns_view(columns@));
    Ok(columns)
}

} // verus!

//! The fields of an error response.

use vstd::prelude::*;
use crate::error::PgError;
use crate::wire::{find_nul, first_nul, lemma_first_nul};
use vstd::slice::slice_subrange;
use vstd::slice::slice_to_vec;

verus! {

/// The fields laid out in `s`: for each a code byte other than zero and a
/// value with a zero byte behind it, and one zero byte after the last field.
pub open spec fn error_fields_spec(s: Seq<u8>) -> Result<Seq<(u8, Seq<u8>)>, PgError>
    decreases s.len(),
{
    if s.len() == 0 {
        Err(PgError::OutOfBounds)
    } else if s[0] == 0 {
        Ok(Seq::empty())
    } else {
        let end = first_nul(s.skip(1));
        if end.is_some() && 0 <= end.unwrap() < s.len() - 1 {
            match error_fields_spec(s.skip(end.unwrap() + 2)) {
                Ok(tail) => Ok(seq![(s[0], s.skip(1).take(end.unwrap()))] + tail),
                Err(e) => Err(e),
            }
        } else {
            Err(PgError::UnterminatedString)
        }
    }
}

/// The fields of `fields`, as mathematical values.
pub open spec fn fields_view(fields: Seq<(u8, Vec<u8>)>) -> Seq<(u8, Seq<u8>)> {
    fields.map_values(|f: (u8, Vec<u8>)| (f.0, f.1@))
}

/// Puts `head` in front of the fields that `tail` holds.
spec fn fields_after(
    head: Seq<(u8, Seq<u8>)>,
    tail: Result<Seq<(u8, Seq<u8>)>, PgError>,
) -> Result<Seq<(u8, Seq<u8>)>, PgError> {
    match tail {
        Ok(t) => Ok(head + t),
        Err(e) => Err(e),
    }
}

/// Reads the fields of an error response, each with its code byte. A body
/// without the closing zero byte is [`PgError::OutOfBounds`]; a value without
/// its terminator is [`PgError::UnterminatedString`].
pub fn parse_error_fields(body: &[u8]) -> (r: Result<Vec<(u8, Vec<u8>)>, PgError>)
    ensures
        match error_fields_spec(body@) {
            Ok(fields) => r.is_ok() && fields_view(r.unwrap()@) == fields,
            Err(e) => r.is_err() && r.unwrap_err() == e,
        },
{
    let mut fields: Vec<(u8, Vec<u8>)> = Vec::new();
    let mut at: usize = 0;
    assert(body@.skip(0) =~= body@);
    assert(fields_view(fields@) + Seq::<(u8, Seq<u8>)>::empty() =~= fields_view(fields@));
    while at < body.len()
        invariant
            0 <= at <= body@.len(),
            error_fields_spec(body@) == fields_after(
                fields_view(fields@),
                error_fields_spec(body@.skip(at as int)),
            ),
        decreases body@.len() - at,
    {
        let ghost rest = body@.skip(at as int);
        let ghost before = fields_view(fields@);
        let code = body[at];
        if code == 0 {
            assert(before + Seq::<(u8, Seq<u8>)>::empty() =~= before);
            return Ok(fields);
        }
        assert(rest.skip(1) =~= body@.subrange(at + 1, body@.len() as int));
        match find_nul(body, at + 1) {
            None => {
                return Err(PgError::UnterminatedString);
            },
            Some(end) => {
                let value = slice_to_vec(slice_subrange(body, at + 1, end));
                proof {
                    assert(value@ =~= rest.skip(1).take(end - at - 1));
                    lemma_first_nul(rest.skip(1), end - at - 1);
                    assert(rest.skip(end - at + 1) =~= body@.skip(end + 1));
                }
                fields.push((code, value));
                at = end + 1;
                proof {
                    assert(fields_view(fields@) =~= before + seq![(code, value@)]);
                    let tail = error_fields_spec(body@.skip(at as int));
                    if tail.is_ok() {
                        let t = tail.unwrap();
                        assert(fields_view(fields@) + t =~= before + (seq![(code, value@)] + t));
                    }
                }
            },
        }
    }
    assert(body@.skip(at as int).len() == 0);
    Err(PgError::OutOfBounds)
}

} // verus!

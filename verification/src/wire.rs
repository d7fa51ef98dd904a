//! Big-endian, two's-complement integers as they stand on the wire.

use vstd::prelude::*;
use vstd::arithmetic::div_mod::lemma_fundamental_div_mod_converse;

verus! {

/// The signed 32-bit integer that four big-endian bytes stand for.
pub open spec fn be_i32(b: Seq<u8>) -> int
    recommends
        b.len() == 4,
{
    let u = b[0] as int * 0x100_0000 + b[1] as int * 0x1_0000 + b[2] as int * 0x100 + b[3] as int;
    if u >= 0x8000_0000 {
        u - 0x1_0000_0000
    } else {
        u
    }
}

/// The four big-endian bytes of a signed 32-bit integer.
pub open spec fn i32_be(v: int) -> Seq<u8>
    recommends
        i32::MIN <= v <= i32::MAX,
{
    let u = if v < 0 {
        v + 0x1_0000_0000
    } else {
        v
    };
    seq![
        (u / 0x100_0000) as u8,
        ((u / 0x1_0000) % 0x100) as u8,
        ((u / 0x100) % 0x100) as u8,
        (u % 0x100) as u8,
    ]
}

/// The signed 16-bit integer that two big-endian bytes stand for.
pub open spec fn be_i16(b: Seq<u8>) -> int
    recommends
        b.len() == 2,
{
    let u = b[0] as int * 0x100 + b[1] as int;
    if u >= 0x8000 {
        u - 0x1_0000
    } else {
        u
    }
}

/// The two big-endian bytes of a signed 16-bit integer.
pub open spec fn i16_be(v: int) -> Seq<u8>
    recommends
        i16::MIN <= v <= i16::MAX,
{
    let u = if v < 0 {
        v + 0x1_0000
    } else {
        v
    };
    seq![(u / 0x100) as u8, (u % 0x100) as u8]
}

/// Decoding undoes encoding, for every 32-bit value.
pub proof fn lemma_be_i32_of_i32_be(v: int)
    requires
        i32::MIN <= v <= i32::MAX,
    ensures
        i32_be(v).len() == 4,
        be_i32(i32_be(v)) == v,
{
}

/// Encoding undoes decoding, for every four bytes.
pub proof fn lemma_i32_be_of_be_i32(b: Seq<u8>)
    requires
        b.len() == 4,
    ensures
        i32::MIN <= be_i32(b) <= i32::MAX,
        i32_be(be_i32(b)) == b,
{
    let (b0, b1, b2, b3) = (b[0] as int, b[1] as int, b[2] as int, b[3] as int);
    let u = b0 * 0x100_0000 + b1 * 0x1_0000 + b2 * 0x100 + b3;
    let v = be_i32(b);
    lemma_fundamental_div_mod_converse(u, 0x100_0000, b0, b1 * 0x1_0000 + b2 * 0x100 + b3);
    lemma_fundamental_div_mod_converse(u, 0x1_0000, b0 * 0x100 + b1, b2 * 0x100 + b3);
    lemma_fundamental_div_mod_converse(b0 * 0x100 + b1, 0x100, b0, b1);
    lemma_fundamental_div_mod_converse(u, 0x100, b0 * 0x1_0000 + b1 * 0x100 + b2, b3);
    lemma_fundamental_div_mod_converse(b0 * 0x1_0000 + b1 * 0x100 + b2, 0x100, b0 * 0x100 + b1, b2);
    assert(i32_be(v) =~= b);
}

/// Decoding undoes encoding, for every 16-bit value.
pub proof fn lemma_be_i16_of_i16_be(v: int)
    requires
        i16::MIN <= v <= i16::MAX,
    ensures
        i16_be(v).len() == 2,
        be_i16(i16_be(v)) == v,
{
}

/// Reads the big-endian signed 32-bit integer at `at`.
pub(crate) fn i32_at(data: &[u8], at: usize) -> (v: i32)
    requires
        at + 4 <= data@.len(),
    ensures
        v == be_i32(data@.subrange(at as int, at + 4)),
{
    let u: i64 = (data[at] as i64) * 0x100_0000 + (data[at + 1] as i64) * 0x1_0000 + (data[at
        + 2] as i64) * 0x100 + (data[at + 3] as i64);
    if u >= 0x8000_0000 {
        (u - 0x1_0000_0000) as i32
    } else {
        u as i32
    }
}

/// Reads the big-endian signed 16-bit integer at `at`.
pub(crate) fn i16_at(data: &[u8], at: usize) -> (v: i16)
    requires
        at + 2 <= data@.len(),
    ensures
        v == be_i16(data@.subrange(at as int, at + 2)),
{
    let u: i32 = (data[at] as i32) * 0x100 + (data[at + 1] as i32);
    if u >= 0x8000 {
        (u - 0x1_0000) as i16
    } else {
        u as i16
    }
}

/// Appends one byte.
pub fn write_u8(out: &mut Vec<u8>, v: u8)
    ensures
        final(out)@ == old(out)@.push(v),
{
    out.push(v);
}

/// Appends a signed 32-bit integer, big-endian.
pub fn write_i32_be(out: &mut Vec<u8>, v: i32)
    ensures
        final(out)@ == old(out)@ + i32_be(v as int),
{
    let w: i64 = v as i64;
    let u: i64 = if w < 0 {
        w + 0x1_0000_0000
    } else {
        w
    };
    out.push((u / 0x100_0000) as u8);
    out.push(((u / 0x1_0000) % 0x100) as u8);
    out.push(((u / 0x100) % 0x100) as u8);
    out.push((u % 0x100) as u8);
    assert(out@ =~= old(out)@ + i32_be(v as int));
}

/// Appends a signed 16-bit integer, big-endian.
pub fn write_i16_be(out: &mut Vec<u8>, v: i16)
    ensures
        final(out)@ == old(out)@ + i16_be(v as int),
{
    let w: i32 = v as i32;
    let u: i32 = if w < 0 {
        w + 0x1_0000
    } else {
        w
    };
    out.push((u / 0x100) as u8);
    out.push((u % 0x100) as u8);
    assert(out@ =~= old(out)@ + i16_be(v as int));
}

/// Appends all of `src`.
pub fn write_bytes(out: &mut Vec<u8>, src: &[u8])
    ensures
        final(out)@ == old(out)@ + src@,
{
    out.extend_from_slice(src);
    assert(out@ =~= old(out)@ + src@);
}

/// True where `s` holds no zero byte.
pub open spec fn nul_free(s: Seq<u8>) -> bool {
    forall|i: int| 0 <= i < s.len() ==> s[i] != 0
}

/// The place of the first zero byte of `s`, `None` where it has none.
pub open spec fn first_nul(s: Seq<u8>) -> Option<int> {
    if nul_free(s) {
        None
    } else {
        Some(choose|i: int| 0 <= i < s.len() && s[i] == 0 && nul_free(s.take(i)))
    }
}

/// A zero byte with none before it is the first one.
pub proof fn lemma_first_nul(s: Seq<u8>, i: int)
    requires
        0 <= i < s.len(),
        s[i] == 0,
        nul_free(s.take(i)),
    ensures
        first_nul(s) == Some(i),
{
    let j = choose|j: int| 0 <= j < s.len() && s[j] == 0 && nul_free(s.take(j));
    if j < i {
        assert(s.take(i)[j] == s[j]);
    }
    if i < j {
        assert(s.take(j)[i] == s[i]);
    }
}

/// Before a zero byte at `j` there is a first zero byte.
proof fn lemma_least_nul(s: Seq<u8>, j: int) -> (i: int)
    requires
        0 <= j < s.len(),
        s[j] == 0,
    ensures
        0 <= i <= j,
        s[i] == 0,
        nul_free(s.take(i)),
    decreases j,
{
    if nul_free(s.take(j)) {
        j
    } else {
        let k = choose|k: int| 0 <= k < s.take(j).len() && s.take(j)[k] == 0;
        lemma_least_nul(s, k)
    }
}

/// A sequence with a zero byte has a first one: it is a zero byte, and none
/// stands before it.
pub proof fn lemma_first_nul_some(s: Seq<u8>)
    requires
        !nul_free(s),
    ensures
        first_nul(s).is_some(),
        0 <= first_nul(s).unwrap() < s.len(),
        s[first_nul(s).unwrap()] == 0,
        nul_free(s.take(first_nul(s).unwrap())),
{
    let j = choose|j: int| 0 <= j < s.len() && s[j] == 0;
    let i = lemma_least_nul(s, j);
    lemma_first_nul(s, i);
}

/// Finds the first zero byte of `data` at or after `from`.
pub(crate) fn find_nul(data: &[u8], from: usize) -> (r: Option<usize>)
    requires
        from <= data@.len(),
    ensures
        match r {
            Some(i) => from <= i < data@.len() && data@[i as int] == 0 && nul_free(
                data@.subrange(from as int, i as int),
            ),
            None => nul_free(data@.subrange(from as int, data@.len() as int)),
        },
{
    let mut i: usize = from;
    while i < data.len()
        invariant
            from <= i <= data@.len(),
            nul_free(data@.subrange(from as int, i as int)),
        decreases data@.len() - i,
    {
        if data[i] == 0 {
            return Some(i);
        }
        proof {
            let s = data@.subrange(from as int, i + 1);
            assert forall|j: int| 0 <= j < s.len() implies s[j] != 0 by {
                if j < i - from {
                    assert(data@.subrange(from as int, i as int)[j] == s[j]);
                }
            }
        }
        i += 1;
    }
    None
}

/// Appends `s` and one zero byte, or fails and appends nothing where `s`
/// holds a zero byte of its own.
pub fn write_cstring(out: &mut Vec<u8>, s: &[u8]) -> (r: Result<(), crate::error::PgError>)
    ensures
        nul_free(s@) ==> r.is_ok() && final(out)@ == (old(out)@ + s@).push(0u8),
        !nul_free(s@) ==> r == Err::<(), crate::error::PgError>(
            crate::error::PgError::InvalidString,
        ) && final(out)@ == old(out)@,
{
    match find_nul(s, 0) {
        Some(i) => {
            proof {
                assert(s@[i as int] == 0);
            }
            Err(crate::error::PgError::InvalidString)
        },
        None => {
            proof {
                assert(s@.subrange(0, s@.len() as int) =~= s@);
            }
            write_bytes(out, s);
            out.push(0u8);
            Ok(())
        },
    }
}

} // verus!

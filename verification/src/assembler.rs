//! Gathering the bytes of successive reads into whole messages.

use vstd::prelude::*;
use crate::codec::{
    decode_one,
    decode_spec,
    lemma_decode_encode,
    lemma_prefix_incomplete,
    lemma_round_trip,
};
use crate::error::PgError;
use crate::message::{Message, MessageView};
use crate::wire::write_bytes;

verus! {

/// What taking the next frame does to the bytes held: the message at their
/// front and the bytes behind it, or the reason why there is no message and
/// the bytes as they were.
pub open spec fn next_frame_spec(held: Seq<u8>, is_startup: bool) -> (
    Result<MessageView, PgError>,
    Seq<u8>,
) {
    match decode_spec(held, is_startup) {
        Ok((m, n)) => (Ok(m), held.skip(n)),
        Err(e) => (Err(e), held),
    }
}

/// The bytes that have arrived and belong to no message delivered so far.
pub struct FrameAssembler {
    buffer: Vec<u8>,
}

impl View for FrameAssembler {
    type V = Seq<u8>;

    closed spec fn view(&self) -> Seq<u8> {
        self.buffer@
    }
}

impl FrameAssembler {
    /// An assembler that holds no bytes.
    pub fn new() -> (a: Self)
        ensures
            a@ == Seq::<u8>::empty(),
    {
        FrameAssembler { buffer: Vec::new() }
    }

    /// The number of bytes held.
    pub fn pending(&self) -> (n: usize)
        ensures
            n == self@.len(),
    {
        self.buffer.len()
    }

    /// Takes in the bytes of one read, behind those already held.
    pub fn supply(&mut self, new_bytes: &[u8])
        ensures
            final(self)@ == old(self)@ + new_bytes@,
    {
        write_bytes(&mut self.buffer, new_bytes);
    }

    /// Drops every byte held.
    pub fn clear(&mut self)
        ensures
            final(self)@ == Seq::<u8>::empty(),
    {
        self.buffer.clear();
    }

    /// Hands out the message at the front of the held bytes and keeps what
    /// follows it. Where there is no whole message yet, or the bytes cannot be
    /// decoded, returns the reason and keeps every byte.
    pub fn next_frame(&mut self, is_startup: bool) -> (r: Result<Message, PgError>)
        ensures
            final(self)@ == next_frame_spec(old(self)@, is_startup).1,
            match next_frame_spec(old(self)@, is_startup).0 {
                Ok(m) => r.is_ok() && r.unwrap()@ == m && m.wf(),
                Err(e) => r == Err::<Message, PgError>(e),
            },
    {
        match decode_one(self.buffer.as_slice(), is_startup) {
            Ok((message, consumed)) => {
                let rest = self.buffer.split_off(consumed);
                self.buffer = rest;
                assert(self.buffer@ =~= old(self)@.skip(consumed as int));
                Ok(message)
            },
            Err(e) => Err(e),
        }
    }
}

/// The chunks of `chunks`, one behind the other.
pub open spec fn joined(chunks: Seq<Seq<u8>>) -> Seq<u8>
    decreases chunks.len(),
{
    if chunks.len() == 0 {
        Seq::<u8>::empty()
    } else {
        joined(chunks.drop_last()) + chunks.last()
    }
}

/// The encodings of `msgs`, one behind the other.
pub open spec fn encode_all(msgs: Seq<MessageView>) -> Seq<u8>
    decreases msgs.len(),
{
    if msgs.len() == 0 {
        Seq::<u8>::empty()
    } else {
        msgs.first().encode() + encode_all(msgs.drop_first())
    }
}

/// The first `k` chunks, joined, are the front of all chunks joined, and
/// shorter than the whole where a chunk is left and no chunk is empty.
proof fn lemma_joined_prefix(chunks: Seq<Seq<u8>>, k: int)
    requires
        0 <= k <= chunks.len(),
        forall|i: int| 0 <= i < chunks.len() ==> (#[trigger] chunks[i]).len() > 0,
    ensures
        joined(chunks.take(k)).len() <= joined(chunks).len(),
        joined(chunks.take(k)) == joined(chunks).take(joined(chunks.take(k)).len() as int),
        k < chunks.len() ==> joined(chunks.take(k)).len() < joined(chunks).len(),
    decreases chunks.len(),
{
    if k == chunks.len() {
        assert(chunks.take(k) =~= chunks);
        assert(joined(chunks).take(joined(chunks).len() as int) =~= joined(chunks));
    } else {
        let front = chunks.drop_last();
        assert(front.take(k) =~= chunks.take(k));
        lemma_joined_prefix(front, k);
        let n = joined(chunks.take(k)).len() as int;
        assert(joined(chunks).take(n) =~= joined(front).take(n));
    }
}

/// The bytes held by an assembler that was empty, after each of the first
/// `k` chunks has been supplied and a frame has been asked for.
pub open spec fn held_after_chunks(chunks: Seq<Seq<u8>>, k: nat, is_startup: bool) -> Seq<u8>
    decreases k,
{
    if k == 0 {
        Seq::<u8>::empty()
    } else {
        next_frame_spec(
            held_after_chunks(chunks, (k - 1) as nat, is_startup) + chunks[k - 1],
            is_startup,
        ).1
    }
}

/// What asking for a frame gives, right after the `k`-th chunk has been
/// supplied in that way.
pub open spec fn frame_after_chunk(chunks: Seq<Seq<u8>>, k: nat, is_startup: bool) -> Result<
    MessageView,
    PgError,
>
    recommends
        k >= 1,
{
    next_frame_spec(
        held_after_chunks(chunks, (k - 1) as nat, is_startup) + chunks[k - 1],
        is_startup,
    ).0
}

/// The bytes held after `i` frames have been asked for, starting from `held`.
pub open spec fn held_after_frames(held: Seq<u8>, i: nat, is_startup: bool) -> Seq<u8>
    decreases i,
{
    if i == 0 {
        held
    } else {
        next_frame_spec(held_after_frames(held, (i - 1) as nat, is_startup), is_startup).1
    }
}

/// Fragmentation invariance. Let the encoding of a message arrive in any
/// number of non-empty chunks, at any split points, and let each chunk be
/// supplied to an assembler that was empty, with a frame asked for after
/// each. After every chunk but the last the answer is
/// [`PgError::Incomplete`] and the assembler holds all the bytes supplied so
/// far. After the last chunk the answer is the message itself, and no byte
/// is left.
pub proof fn lemma_fragmentation_invariance(m: MessageView, chunks: Seq<Seq<u8>>, k: nat)
    requires
        m.wf(),
        joined(chunks) == m.encode(),
        forall|i: int| 0 <= i < chunks.len() ==> (#[trigger] chunks[i]).len() > 0,
        1 <= k <= chunks.len(),
    ensures
        k < chunks.len() ==> frame_after_chunk(chunks, k, m.is_startup()) == Err::<
            MessageView,
            PgError,
        >(PgError::Incomplete) && held_after_chunks(chunks, k, m.is_startup()) == joined(
            chunks.take(k as int),
        ),
        k == chunks.len() ==> frame_after_chunk(chunks, k, m.is_startup()) == Ok::<
            MessageView,
            PgError,
        >(m) && held_after_chunks(chunks, k, m.is_startup()) == Seq::<u8>::empty(),
    decreases k,
{
    let before = held_after_chunks(chunks, (k - 1) as nat, m.is_startup());
    if k > 1 {
        lemma_fragmentation_invariance(m, chunks, (k - 1) as nat);
    } else {
        assert(chunks.take(0) =~= Seq::<Seq<u8>>::empty());
    }
    assert(before == joined(chunks.take(k - 1)));
    assert(chunks.take(k as int).drop_last() =~= chunks.take(k - 1));
    let held = before + chunks[k - 1];
    assert(held == joined(chunks.take(k as int)));
    lemma_chunks_decode(m, chunks, k as int);
    if k == chunks.len() {
        assert(held.skip(held.len() as int) =~= Seq::<u8>::empty());
    }
}

/// Multi-frame packing. Let the encodings of any number of messages, one
/// behind the other, be supplied at once to an assembler that was empty.
/// Then the frames asked for come out as those messages, one each, in their
/// order: after `i` of them the assembler holds the encodings of the rest,
/// and after the last it holds nothing and answers [`PgError::Incomplete`].
pub proof fn lemma_multi_frame_packing(msgs: Seq<MessageView>, i: nat, is_startup: bool)
    requires
        forall|j: int| 0 <= j < msgs.len() ==> (#[trigger] msgs[j]).wf(),
        forall|j: int| 0 <= j < msgs.len() ==> (#[trigger] msgs[j]).is_startup() == is_startup,
        i <= msgs.len(),
    ensures
        held_after_frames(encode_all(msgs), i, is_startup) == encode_all(msgs.skip(i as int)),
        i < msgs.len() ==> next_frame_spec(
            held_after_frames(encode_all(msgs), i, is_startup),
            is_startup,
        ).0 == Ok::<MessageView, PgError>(msgs[i as int]),
        i == msgs.len() ==> next_frame_spec(
            held_after_frames(encode_all(msgs), i, is_startup),
            is_startup,
        ) == (Err::<MessageView, PgError>(PgError::Incomplete), Seq::<u8>::empty()),
    decreases i,
{
    if i == 0 {
        assert(msgs.skip(0) =~= msgs);
    } else {
        lemma_multi_frame_packing(msgs, (i - 1) as nat, is_startup);
        lemma_packed_front(msgs, i - 1);
    }
    lemma_packed_front(msgs, i as int);
}

/// Where the first `k` chunks of an encoding are held, a frame is there
/// exactly when `k` is the number of chunks.
proof fn lemma_chunks_decode(m: MessageView, chunks: Seq<Seq<u8>>, k: int)
    requires
        m.wf(),
        joined(chunks) == m.encode(),
        forall|i: int| 0 <= i < chunks.len() ==> (#[trigger] chunks[i]).len() > 0,
        0 <= k <= chunks.len(),
    ensures
        k < chunks.len() ==> decode_spec(joined(chunks.take(k)), m.is_startup()) == Err::<
            (MessageView, int),
            PgError,
        >(PgError::Incomplete),
        k == chunks.len() ==> decode_spec(joined(chunks.take(k)), m.is_startup()) == Ok::<
            (MessageView, int),
            PgError,
        >((m, joined(chunks.take(k)).len() as int)),
{
    lemma_joined_prefix(chunks, k);
    if k < chunks.len() {
        lemma_prefix_incomplete(m, joined(chunks.take(k)).len() as int);
    } else {
        assert(chunks.take(k) =~= chunks);
        lemma_round_trip(m);
    }
}

/// Where the encodings of the messages from the `i`-th on are held, the
/// `i`-th message is at the front and the encodings of the rest follow it.
proof fn lemma_packed_front(msgs: Seq<MessageView>, i: int)
    requires
        forall|j: int| 0 <= j < msgs.len() ==> (#[trigger] msgs[j]).wf(),
        0 <= i <= msgs.len(),
    ensures
        i < msgs.len() ==> {
            let held = encode_all(msgs.skip(i));
            let taken = msgs[i].encode().len() as int;
            &&& decode_spec(held, msgs[i].is_startup()) == Ok::<(MessageView, int), PgError>(
                (msgs[i], taken),
            )
            &&& held.skip(taken) == encode_all(msgs.skip(i + 1))
        },
        i == msgs.len() ==> {
            &&& encode_all(msgs.skip(i)) == Seq::<u8>::empty()
            &&& forall|is_startup: bool|
                decode_spec(encode_all(msgs.skip(i)), is_startup) == Err::<
                    (MessageView, int),
                    PgError,
                >(PgError::Incomplete)
        },
{
    if i < msgs.len() {
        let tail = msgs.skip(i);
        assert(tail.first() == msgs[i]);
        assert(tail.drop_first() =~= msgs.skip(i + 1));
        let rest = encode_all(msgs.skip(i + 1));
        lemma_decode_encode(msgs[i], rest);
        assert((msgs[i].encode() + rest).skip(msgs[i].encode().len() as int) =~= rest);
    }
}

} // verus!

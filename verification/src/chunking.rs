//! The relay's forwarding model: a byte stream is passed through in chunks of
//! at most `chunk_size` bytes, and the link delay is injected once per chunk.

use vstd::prelude::*;

verus! {

/// How many reads a forwarding loop needs to pass `len` bytes through when
/// every read but the last returns exactly `chunk_size` bytes: the ceiling of
/// `len / chunk_size`.
pub open spec fn chunks_needed(len: nat, chunk_size: nat) -> nat
    recommends
        chunk_size > 0,
    decreases len,
{
    if chunk_size == 0 {
        0
    } else if len == 0 {
        0
    } else if len <= chunk_size {
        1
    } else {
        1 + chunks_needed((len - chunk_size) as nat, chunk_size)
    }
}

/// Counts the chunks needed to forward `len` bytes.
pub fn chunk_count(len: usize, chunk_size: usize) -> (n: usize)
    requires
        chunk_size > 0,
    ensures
        n == chunks_needed(len as nat, chunk_size as nat),
{
    let mut remaining: usize = len;
    let mut n: usize = 0;
    while remaining > 0
        invariant
            chunk_size > 0,
            n + chunks_needed(remaining as nat, chunk_size as nat) == chunks_needed(
                len as nat,
                chunk_size as nat,
            ),
            n + remaining <= len,
        decreases remaining,
    {
        if remaining <= chunk_size {
            remaining = 0;
        } else {
            remaining = remaining - chunk_size;
        }
        n = n + 1;
    }
    n
}

/// The first `count` bytes of a read buffer: what the forwarding loop writes
/// to the destination peer after a read returned `count` bytes.
pub fn chunk_prefix(buf: &Vec<u8>, count: usize) -> (chunk: Vec<u8>)
    requires
        count <= buf@.len(),
    ensures
        chunk@ == buf@.subrange(0, count as int),
{
    let mut chunk: Vec<u8> = Vec::new();
    let mut i: usize = 0;
    while i < count
        invariant
            i <= count,
            count <= buf@.len(),
            chunk@ == buf@.subrange(0, i as int),
        decreases count - i,
    {
        chunk.push(buf[i]);
        proof {
            assert(chunk@ =~= buf@.subrange(0, i + 1));
        }
        i = i + 1;
    }
    chunk
}

/// The byte stream a sequence of forwarded chunks carries, in order.
pub open spec fn concat_chunks(chunks: Seq<Seq<u8>>) -> Seq<u8>
    decreases chunks.len(),
{
    if chunks.len() == 0 {
        Seq::empty()
    } else {
        chunks[0] + concat_chunks(chunks.drop_first())
    }
}

/// Forwarding one more chunk appends its bytes to the stream carried so far.
pub proof fn lemma_concat_chunks_push(chunks: Seq<Seq<u8>>, chunk: Seq<u8>)
    ensures
        concat_chunks(chunks.push(chunk)) == concat_chunks(chunks) + chunk,
    decreases chunks.len(),
{
    if chunks.len() == 0 {
        assert(chunks.push(chunk).drop_first() =~= Seq::<Seq<u8>>::empty());
        assert(concat_chunks(Seq::<Seq<u8>>::empty()) == Seq::<u8>::empty());
        assert(chunks.push(chunk)[0] == chunk);
        assert(concat_chunks(chunks.push(chunk)) == chunk + Seq::<u8>::empty());
        assert(chunk + Seq::<u8>::empty() =~= chunk);
        assert(concat_chunks(chunks) + chunk =~= chunk);
    } else {
        assert(chunks.push(chunk).drop_first() =~= chunks.drop_first().push(chunk));
        lemma_concat_chunks_push(chunks.drop_first(), chunk);
        assert(concat_chunks(chunks.push(chunk)) == chunks[0] + (concat_chunks(
            chunks.drop_first(),
        ) + chunk));
        assert(chunks[0] + (concat_chunks(chunks.drop_first()) + chunk) =~= (chunks[0]
            + concat_chunks(chunks.drop_first())) + chunk);
    }
}

/// How a message crosses the relay when every read finds its bytes already
/// waiting: the stream is cut into reads of exactly `chunk_size` bytes, with
/// only the last read possibly shorter. The chunks carry exactly the
/// original bytes — the relay is a byte-stream pass-through, not a framing
/// protocol.
pub fn split_chunks(data: &Vec<u8>, chunk_size: usize) -> (chunks: Vec<Vec<u8>>)
    requires
        chunk_size > 0,
    ensures
        chunks@.len() == chunks_needed(data@.len(), chunk_size as nat),
        concat_chunks(chunks@.map_values(|c: Vec<u8>| c@)) == data@,
        forall|i: int|
            0 <= i < chunks@.len() ==> 1 <= (#[trigger] chunks@[i])@.len() <= chunk_size,
        forall|i: int| 0 <= i < chunks@.len() - 1 ==> (#[trigger] chunks@[i])@.len() == chunk_size,
{
    let mut chunks: Vec<Vec<u8>> = Vec::new();
    let mut pos: usize = 0;
    while pos < data.len()
        invariant
            chunk_size > 0,
            pos <= data@.len(),
            chunks@.len() + chunks_needed((data@.len() - pos) as nat, chunk_size as nat)
                == chunks_needed(data@.len(), chunk_size as nat),
            concat_chunks(chunks@.map_values(|c: Vec<u8>| c@)) == data@.subrange(0, pos as int),
            forall|i: int|
                0 <= i < chunks@.len() ==> 1 <= (#[trigger] chunks@[i])@.len() <= chunk_size,
            forall|i: int|
                0 <= i < chunks@.len() - 1 ==> (#[trigger] chunks@[i])@.len() == chunk_size,
            pos < data@.len() ==> forall|i: int|
                0 <= i < chunks@.len() ==> (#[trigger] chunks@[i])@.len() == chunk_size,
        decreases data@.len() - pos,
    {
        let remaining = data.len() - pos;
        let take = if remaining < chunk_size {
            remaining
        } else {
            chunk_size
        };
        let mut chunk: Vec<u8> = Vec::new();
        let mut i: usize = 0;
        while i < take
            invariant
                i <= take,
                pos + take <= data@.len(),
                data@.len() <= usize::MAX,
                chunk@ == data@.subrange(pos as int, pos + i),
            decreases take - i,
        {
            chunk.push(data[pos + i]);
            proof {
                assert(chunk@ =~= data@.subrange(pos as int, pos + i + 1));
            }
            i = i + 1;
        }
        proof {
            let ghost old_mapped = chunks@.map_values(|c: Vec<u8>| c@);
            lemma_concat_chunks_push(old_mapped, chunk@);
            assert(chunks@.push(chunk).map_values(|c: Vec<u8>| c@) =~= old_mapped.push(chunk@));
            assert(data@.subrange(0, pos as int) + data@.subrange(pos as int, pos + take as int)
                =~= data@.subrange(0, pos + take as int));
        }
        chunks.push(chunk);
        pos = pos + take;
    }
    proof {
        assert(data@.subrange(0, data@.len() as int) =~= data@);
    }
    chunks
}

/// The destination side of the relay: the bytes the chunks carry, written
/// back out in order. Splitting a message and reassembling the chunks is the
/// identity — one direction of forwarding loses and invents nothing.
pub fn reassemble(chunks: &Vec<Vec<u8>>) -> (data: Vec<u8>)
    ensures
        data@ == concat_chunks(chunks@.map_values(|c: Vec<u8>| c@)),
{
    let mut data: Vec<u8> = Vec::new();
    let mut k: usize = 0;
    while k < chunks.len()
        invariant
            k <= chunks@.len(),
            data@ == concat_chunks(chunks@.map_values(|c: Vec<u8>| c@).take(k as int)),
        decreases chunks@.len() - k,
    {
        let chunk = &chunks[k];
        let mut i: usize = 0;
        while i < chunk.len()
            invariant
                i <= chunk@.len(),
                chunk@ == chunks@.map_values(|c: Vec<u8>| c@)[k as int],
                k < chunks@.len(),
                data@ == concat_chunks(chunks@.map_values(|c: Vec<u8>| c@).take(k as int))
                    + chunk@.subrange(0, i as int),
            decreases chunk@.len() - i,
        {
            data.push(chunk[i]);
            proof {
                assert(chunk@.subrange(0, i as int).push(chunk@[i as int]) =~= chunk@.subrange(
                    0,
                    i + 1,
                ));
            }
            i = i + 1;
        }
        proof {
            let ghost mapped = chunks@.map_values(|c: Vec<u8>| c@);
            assert(mapped.take(k as int).push(mapped[k as int]) =~= mapped.take(k + 1));
            lemma_concat_chunks_push(mapped.take(k as int), mapped[k as int]);
            assert(chunk@.subrange(0, chunk@.len() as int) =~= chunk@);
        }
        k = k + 1;
    }
    proof {
        assert(chunks@.map_values(|c: Vec<u8>| c@).take(chunks@.len() as int) =~= chunks@.map_values(
            |c: Vec<u8>| c@,
        ));
    }
    data
}

/// The delay the relay injects while `len` bytes cross one direction of the
/// link: one sleep of `delay` milliseconds per chunk forwarded, independent
/// of the chunk's length.
pub open spec fn forward_delay_model(len: nat, chunk_size: nat, delay: nat) -> nat {
    chunks_needed(len, chunk_size) * delay
}

/// The injected-delay share of one round's latency: the request crosses the
/// link one way, the reply the other.
pub open spec fn round_delay_model(
    request_len: nat,
    reply_len: nat,
    chunk_size: nat,
    delay: nat,
) -> nat {
    forward_delay_model(request_len, chunk_size, delay) + forward_delay_model(
        reply_len,
        chunk_size,
        delay,
    )
}

/// Holding message lengths and chunk size fixed, the delay a round's
/// messages pick up crossing the relay never decreases as the per-chunk
/// delay increases: the delay is injected once per forwarded chunk, and the
/// number of chunks does not depend on the delay.
pub proof fn lemma_round_delay_monotone(
    request_len: nat,
    reply_len: nat,
    chunk_size: nat,
    d1: nat,
    d2: nat,
)
    requires
        d1 <= d2,
    ensures
        round_delay_model(request_len, reply_len, chunk_size, d1) <= round_delay_model(
            request_len,
            reply_len,
            chunk_size,
            d2,
        ),
{
    let ca = chunks_needed(request_len, chunk_size);
    let cb = chunks_needed(reply_len, chunk_size);
    assert(ca * d1 <= ca * d2) by (nonlinear_arith)
        requires
            d1 <= d2,
            ca >= 0,
    ;
    assert(cb * d1 <= cb * d2) by (nonlinear_arith)
        requires
            d1 <= d2,
            cb >= 0,
    ;
}

/// Computes the modeled injected delay of one round, or None where it does
/// not fit a 64-bit count of milliseconds.
pub fn round_delay(request_len: usize, reply_len: usize, chunk_size: usize, delay: u64) -> (t:
    Option<u64>)
    requires
        chunk_size > 0,
    ensures
        match t {
            Some(v) => v == round_delay_model(
                request_len as nat,
                reply_len as nat,
                chunk_size as nat,
                delay as nat,
            ),
            None => round_delay_model(
                request_len as nat,
                reply_len as nat,
                chunk_size as nat,
                delay as nat,
            ) > u64::MAX,
        },
{
    let ca: u128 = chunk_count(request_len, chunk_size) as u128;
    let cb: u128 = chunk_count(reply_len, chunk_size) as u128;
    let sum: u128 = ca + cb;
    proof {
        assert(sum * delay == ca * delay + cb * delay) by (nonlinear_arith)
            requires
                sum == ca + cb,
        ;
    }
    match sum.checked_mul(delay as u128) {
        Some(total) => {
            if total <= u64::MAX as u128 {
                Some(total as u64)
            } else {
                None
            }
        },
        None => None,
    }
}

} // verus!

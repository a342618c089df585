//! Length-prefixed frames: the incremental decoder and the guard that bounds
//! how many frames one stream may yield.
use vstd::prelude::*;
use bytes::{Bytes, BytesMut};
use crate::buffer::{bytes_mut_view, bytes_view, freeze, mut_advance, mut_byte_at, mut_len, mut_split_to};

verus! {

/// Bytes taken by the length prefix of a frame.
pub const SIZE_BYTE_LENGTH: usize = 4;

/// The unsigned 32-bit integer written big-endian in the first four bytes.
pub open spec fn be_u32(s: Seq<u8>) -> nat
    recommends
        s.len() >= 4,
{
    (s[0] as nat) * 0x100_0000 + (s[1] as nat) * 0x1_0000 + (s[2] as nat) * 0x100 + (s[3] as nat)
}

/// Whether `s` starts with a complete frame: a length prefix and at least
/// that many bytes after it.
pub open spec fn has_frame(s: Seq<u8>) -> bool {
    s.len() >= 4 && s.len() - 4 >= be_u32(s)
}

/// The body of the frame that `s` starts with.
pub open spec fn frame_body(s: Seq<u8>) -> Seq<u8>
    recommends
        has_frame(s),
{
    s.subrange(4, 4 + be_u32(s) as int)
}

/// What is left of `s` after the frame that it starts with.
pub open spec fn after_frame(s: Seq<u8>) -> Seq<u8>
    recommends
        has_frame(s),
{
    s.subrange(4 + be_u32(s) as int, s.len() as int)
}

/// One decoding step: the body of the first frame and the bytes after it, or
/// `None` while the buffer holds no complete frame.
pub open spec fn frame_decode(s: Seq<u8>) -> Option<(Seq<u8>, Seq<u8>)> {
    if has_frame(s) {
        Some((frame_body(s), after_frame(s)))
    } else {
        None
    }
}

/// The bodies of all complete frames that `s` starts with, in order.
pub open spec fn decode_frames(s: Seq<u8>) -> Seq<Seq<u8>>
    decreases s.len(),
{
    if has_frame(s) {
        seq![frame_body(s)] + decode_frames(after_frame(s))
    } else {
        seq![]
    }
}

/// Whether each header is a valid length prefix for the body at the same
/// position.
pub open spec fn frames_valid(headers: Seq<Seq<u8>>, bodies: Seq<Seq<u8>>) -> bool {
    &&& headers.len() == bodies.len()
    &&& forall|i: int|
        0 <= i < headers.len() ==> #[trigger] headers[i].len() == 4 && be_u32(headers[i])
            == bodies[i].len()
}

/// The byte stream made of each header followed by its body.
pub open spec fn assemble(headers: Seq<Seq<u8>>, bodies: Seq<Seq<u8>>) -> Seq<u8>
    decreases headers.len(),
{
    if headers.len() == 0 || bodies.len() == 0 {
        seq![]
    } else {
        headers[0] + bodies[0] + assemble(headers.drop_first(), bodies.drop_first())
    }
}

/// A valid frame followed by anything decodes to its body, leaving exactly
/// what followed it.
pub proof fn lemma_decode_frame_prefix(header: Seq<u8>, body: Seq<u8>, rest: Seq<u8>)
    requires
        header.len() == 4,
        be_u32(header) == body.len(),
    ensures
        frame_decode(header + body + rest) == Some((body, rest)),
{
    let s = header + body + rest;
    assert(s[0] == header[0] && s[1] == header[1] && s[2] == header[2] && s[3] == header[3]);
    assert(be_u32(s) == body.len());
    assert(frame_body(s) =~= body);
    assert(after_frame(s) =~= rest);
}

/// Decoding a stream assembled from valid frames gives back their bodies,
/// each with the length its header declared, in the order they were sent.
pub proof fn lemma_decode_assembled(headers: Seq<Seq<u8>>, bodies: Seq<Seq<u8>>)
    requires
        frames_valid(headers, bodies),
    ensures
        decode_frames(assemble(headers, bodies)) == bodies,
    decreases headers.len(),
{
    if headers.len() == 0 {
        assert(bodies =~= seq![]);
    } else {
        let hs = headers.drop_first();
        let bs = bodies.drop_first();
        assert(frames_valid(hs, bs)) by {
            assert forall|i: int| 0 <= i < hs.len() implies #[trigger] hs[i].len() == 4
                && be_u32(hs[i]) == bs[i].len() by {
                assert(hs[i] == headers[i + 1]);
                assert(bs[i] == bodies[i + 1]);
            }
        }
        assert(headers[0].len() == 4 && be_u32(headers[0]) == bodies[0].len());
        lemma_decode_assembled(hs, bs);
        let s = assemble(headers, bodies);
        lemma_decode_frame_prefix(headers[0], bodies[0], assemble(hs, bs));
        assert(has_frame(s));
        assert(bodies =~= seq![bodies[0]] + bs);
    }
}

/// A frame that is not yet complete consumes nothing; once the missing bytes
/// have arrived, the same prefix is read again and the same frame comes out,
/// beginning with the bytes that were already there.
pub proof fn lemma_incomplete_frame_completes(s: Seq<u8>, more: Seq<u8>)
    requires
        s.len() >= 4,
        frame_decode(s) is None,
        (s + more).len() >= 4 + be_u32(s),
    ensures
        be_u32(s + more) == be_u32(s),
        frame_decode(s + more) == Some(
            (
                (s + more).subrange(4, 4 + be_u32(s) as int),
                (s + more).subrange(4 + be_u32(s) as int, (s + more).len() as int),
            ),
        ),
        frame_body(s + more).subrange(0, s.len() - 4) == s.subrange(4, s.len() as int),
{
    let t = s + more;
    assert(t[0] == s[0] && t[1] == s[1] && t[2] == s[2] && t[3] == s[3]);
    assert(frame_body(t).subrange(0, s.len() - 4) =~= s.subrange(4, s.len() as int));
}

/// What is left of `s` once every complete frame it starts with has been
/// taken off: the bytes of a frame that has not fully arrived.
pub open spec fn remainder(s: Seq<u8>) -> Seq<u8>
    decreases s.len(),
{
    if has_frame(s) {
        remainder(after_frame(s))
    } else {
        s
    }
}

/// Decoding a buffer that arrives in chunks: before each chunk the buffer
/// holds `buf`; the chunk is appended and the decoder is called until it
/// reports that it needs more data. Gives the frames yielded, in order, and
/// the buffer left at the end.
pub open spec fn decode_chunks(buf: Seq<u8>, chunks: Seq<Seq<u8>>) -> (Seq<Seq<u8>>, Seq<u8>)
    decreases chunks.len(),
{
    if chunks.len() == 0 {
        (seq![], buf)
    } else {
        let s = buf + chunks[0];
        let (frames, left) = decode_chunks(remainder(s), chunks.drop_first());
        (decode_frames(s) + frames, left)
    }
}

/// Bytes appended after a buffer do not change the frames it already holds;
/// decoding goes on from the incomplete rest followed by the new bytes.
pub proof fn lemma_decode_append(s: Seq<u8>, t: Seq<u8>)
    ensures
        decode_frames(s + t) == decode_frames(s) + decode_frames(remainder(s) + t),
        remainder(s + t) == remainder(remainder(s) + t),
    decreases s.len(),
{
    if has_frame(s) {
        let u = s + t;
        assert(u[0] == s[0] && u[1] == s[1] && u[2] == s[2] && u[3] == s[3]);
        assert(has_frame(u));
        assert(frame_body(u) =~= frame_body(s));
        assert(after_frame(u) =~= after_frame(s) + t);
        lemma_decode_append(after_frame(s), t);
        assert(decode_frames(u) =~= decode_frames(s) + decode_frames(remainder(s) + t));
    } else {
        assert(decode_frames(s) + decode_frames(remainder(s) + t) =~= decode_frames(s + t));
    }
}

proof fn lemma_remainder_incomplete(s: Seq<u8>)
    ensures
        !has_frame(remainder(s)),
    decreases s.len(),
{
    if has_frame(s) {
        lemma_remainder_incomplete(after_frame(s));
    }
}

proof fn lemma_decode_chunks(buf: Seq<u8>, chunks: Seq<Seq<u8>>)
    requires
        !has_frame(buf),
    ensures
        decode_chunks(buf, chunks) == (
            decode_frames(buf + chunks.flatten()),
            remainder(buf + chunks.flatten()),
        ),
    decreases chunks.len(),
{
    if chunks.len() == 0 {
        assert(chunks.flatten() == Seq::<u8>::empty());
        assert(buf + chunks.flatten() =~= buf);
    } else {
        let s = buf + chunks[0];
        let rest = chunks.drop_first();
        assert(chunks.flatten() == chunks[0] + rest.flatten());
        lemma_remainder_incomplete(s);
        lemma_decode_chunks(remainder(s), rest);
        lemma_decode_append(s, rest.flatten());
        assert(buf + chunks.flatten() =~= s + rest.flatten());
    }
}

proof fn lemma_assembled_remainder(headers: Seq<Seq<u8>>, bodies: Seq<Seq<u8>>)
    requires
        frames_valid(headers, bodies),
    ensures
        remainder(assemble(headers, bodies)) == Seq::<u8>::empty(),
    decreases headers.len(),
{
    if headers.len() == 0 {
    } else {
        lemma_decode_assembled_first(headers, bodies);
        lemma_frames_valid_skip(headers, bodies, 1);
        lemma_assembled_remainder(headers.skip(1), bodies.skip(1));
    }
}

/// However a stream assembled from valid frames is cut into chunks, feeding
/// the chunks in turn and decoding after each until more data is needed
/// yields exactly the frame bodies, in order, and leaves the buffer empty.
pub proof fn lemma_decode_chunked(headers: Seq<Seq<u8>>, bodies: Seq<Seq<u8>>, chunks: Seq<Seq<u8>>)
    requires
        frames_valid(headers, bodies),
        chunks.flatten() == assemble(headers, bodies),
    ensures
        decode_chunks(Seq::<u8>::empty(), chunks) == (bodies, Seq::<u8>::empty()),
{
    lemma_decode_chunks(Seq::<u8>::empty(), chunks);
    assert(Seq::<u8>::empty() + chunks.flatten() =~= assemble(headers, bodies));
    lemma_decode_assembled(headers, bodies);
    lemma_assembled_remainder(headers, bodies);
}

/// The frames of `frames` before the first empty one.
pub open spec fn until_empty(frames: Seq<Seq<u8>>) -> Seq<Seq<u8>>
    decreases frames.len(),
{
    if frames.len() == 0 || frames[0].len() == 0 {
        seq![]
    } else {
        seq![frames[0]] + until_empty(frames.drop_first())
    }
}

proof fn lemma_until_empty(bodies: Seq<Seq<u8>>, tail: Seq<Seq<u8>>)
    requires
        forall|i: int| 0 <= i < bodies.len() ==> #[trigger] bodies[i].len() > 0,
    ensures
        until_empty(bodies + seq![Seq::<u8>::empty()] + tail) == bodies,
    decreases bodies.len(),
{
    let all = bodies + seq![Seq::<u8>::empty()] + tail;
    if bodies.len() == 0 {
        assert(all[0] == Seq::<u8>::empty());
    } else {
        assert(all[0] == bodies[0]);
        assert(all.drop_first() =~= bodies.drop_first() + seq![Seq::<u8>::empty()] + tail);
        assert forall|i: int| 0 <= i < bodies.drop_first().len() implies #[trigger] bodies.drop_first()[i].len() > 0 by {
            assert(bodies.drop_first()[i] == bodies[i + 1]);
        }
        lemma_until_empty(bodies.drop_first(), tail);
        assert(bodies =~= seq![bodies[0]] + bodies.drop_first());
    }
}

/// A body made of non-empty valid frames, an empty frame, and anything after
/// it: the frames handed on before the empty one stops the body are exactly
/// the frames before it, in order; nothing after it is handed on, whatever
/// it holds.
pub proof fn lemma_empty_frame_ends_body(
    headers: Seq<Seq<u8>>,
    bodies: Seq<Seq<u8>>,
    rest: Seq<u8>,
)
    requires
        frames_valid(headers, bodies),
        forall|i: int| 0 <= i < bodies.len() ==> #[trigger] bodies[i].len() > 0,
    ensures
        until_empty(decode_frames(assemble(headers, bodies) + seq![0u8, 0u8, 0u8, 0u8] + rest))
            == bodies,
{
    let a = assemble(headers, bodies);
    let t = seq![0u8, 0u8, 0u8, 0u8] + rest;
    assert(a + seq![0u8, 0u8, 0u8, 0u8] + rest =~= a + t);
    lemma_decode_append(a, t);
    lemma_decode_assembled(headers, bodies);
    lemma_assembled_remainder(headers, bodies);
    assert(Seq::<u8>::empty() + t =~= t);
    lemma_decode_frame_prefix(seq![0u8, 0u8, 0u8, 0u8], Seq::<u8>::empty(), rest);
    assert(seq![0u8, 0u8, 0u8, 0u8] + Seq::<u8>::empty() + rest =~= t);
    assert(has_frame(t));
    assert(decode_frames(t) == seq![Seq::<u8>::empty()] + decode_frames(after_frame(t)));
    let tail = decode_frames(after_frame(t));
    lemma_until_empty(bodies, tail);
    assert(decode_frames(a + t) =~= bodies + seq![Seq::<u8>::empty()] + tail);
}

/// One step of a decoder that yields at most `max` frames, having yielded
/// `count`: `None` once the maximum is reached (nothing is consumed);
/// otherwise the new count, the frame body if one was complete, and the bytes
/// left in the buffer.
pub open spec fn guard_step(count: nat, max: nat, s: Seq<u8>) -> Option<(nat, Option<Seq<u8>>, Seq<u8>)> {
    if count >= max {
        None
    } else {
        match frame_decode(s) {
            None => Some((count, None, s)),
            Some((body, rest)) => Some((count + 1, Some(body), rest)),
        }
    }
}

/// `k` steps of the bounded decoder: the final count, the frames yielded in
/// order, and the bytes left; `None` where some step hit the maximum.
pub open spec fn guard_steps(count: nat, max: nat, s: Seq<u8>, k: nat) -> Option<(nat, Seq<Seq<u8>>, Seq<u8>)>
    decreases k,
{
    if k == 0 {
        Some((count, seq![], s))
    } else {
        match guard_step(count, max, s) {
            None => None,
            Some((next, out, rest)) => match guard_steps(next, max, rest, (k - 1) as nat) {
                None => None,
                Some((last, frames, left)) => Some(
                    (
                        last,
                        match out {
                            None => frames,
                            Some(body) => seq![body] + frames,
                        },
                        left,
                    ),
                ),
            },
        }
    }
}

proof fn lemma_frames_valid_skip(headers: Seq<Seq<u8>>, bodies: Seq<Seq<u8>>, k: int)
    requires
        frames_valid(headers, bodies),
        0 <= k <= headers.len(),
    ensures
        frames_valid(headers.skip(k), bodies.skip(k)),
{
    let hs = headers.skip(k);
    let bs = bodies.skip(k);
    assert forall|i: int| 0 <= i < hs.len() implies #[trigger] hs[i].len() == 4 && be_u32(hs[i])
        == bs[i].len() by {
        assert(hs[i] == headers[i + k]);
        assert(bs[i] == bodies[i + k]);
    }
}

proof fn lemma_decode_assembled_first(headers: Seq<Seq<u8>>, bodies: Seq<Seq<u8>>)
    requires
        frames_valid(headers, bodies),
        headers.len() > 0,
    ensures
        frame_decode(assemble(headers, bodies)) == Some(
            (bodies[0], assemble(headers.skip(1), bodies.skip(1))),
        ),
{
    assert(headers[0].len() == 4 && be_u32(headers[0]) == bodies[0].len());
    assert(headers.drop_first() =~= headers.skip(1));
    assert(bodies.drop_first() =~= bodies.skip(1));
    lemma_decode_frame_prefix(headers[0], bodies[0], assemble(headers.skip(1), bodies.skip(1)));
}

proof fn lemma_guard_steps_valid(count: nat, max: nat, headers: Seq<Seq<u8>>, bodies: Seq<Seq<u8>>)
    requires
        frames_valid(headers, bodies),
        count <= max,
        bodies.len() >= max - count,
    ensures
        guard_steps(count, max, assemble(headers, bodies), (max - count) as nat) == Some(
            (
                max,
                bodies.take(max - count),
                assemble(headers.skip(max - count), bodies.skip(max - count)),
            ),
        ),
    decreases max - count,
{
    let k = max - count;
    if k == 0 {
        assert(bodies.take(0) =~= seq![]);
        assert(headers.skip(0) =~= headers);
        assert(bodies.skip(0) =~= bodies);
    } else {
        lemma_decode_assembled_first(headers, bodies);
        lemma_frames_valid_skip(headers, bodies, 1);
        let hs = headers.skip(1);
        let bs = bodies.skip(1);
        lemma_guard_steps_valid(count + 1, max, hs, bs);
        assert(bodies.take(k) =~= seq![bodies[0]] + bs.take(k - 1));
        assert(hs.skip(k - 1) =~= headers.skip(k));
        assert(bs.skip(k - 1) =~= bodies.skip(k));
    }
}

/// On a stream of valid frames, a fresh decoder bounded by `max` yields the
/// first `max` bodies in order from its first `max` calls, and the call after
/// them fails, consuming nothing, although a valid frame is still there.
pub proof fn lemma_guard_bound(max: nat, headers: Seq<Seq<u8>>, bodies: Seq<Seq<u8>>)
    requires
        frames_valid(headers, bodies),
        bodies.len() > max,
    ensures
        guard_steps(0, max, assemble(headers, bodies), max) == Some(
            (max, bodies.take(max as int), assemble(headers.skip(max as int), bodies.skip(max as int))),
        ),
        frame_decode(assemble(headers.skip(max as int), bodies.skip(max as int))) is Some,
        guard_step(max, max, assemble(headers.skip(max as int), bodies.skip(max as int))) is None,
{
    lemma_guard_steps_valid(0, max, headers, bodies);
    lemma_frames_valid_skip(headers, bodies, max as int);
    lemma_decode_assembled_first(headers.skip(max as int), bodies.skip(max as int));
}

/// Decoder of frames, each a 4-byte big-endian length followed by that many
/// bytes.
pub struct LengthPrefixedDataDecoder {}

impl LengthPrefixedDataDecoder {
    pub fn new() -> (r: Self) {
        LengthPrefixedDataDecoder {  }
    }

    /// Takes the first complete frame off `src` and returns its body. While
    /// `src` holds no complete frame it returns `None` and leaves `src` as it
    /// was, the length prefix included.
    pub fn decode(&mut self, src: &mut BytesMut) -> (r: Option<Bytes>)
        ensures
            match frame_decode(bytes_mut_view(*old(src))) {
                None => r is None && bytes_mut_view(*final(src)) == bytes_mut_view(*old(src)),
                Some((body, rest)) => r is Some && bytes_view(r->0) == body && bytes_mut_view(
                    *final(src),
                ) == rest,
            },
    {
        let len = mut_len(src);
        if len < SIZE_BYTE_LENGTH {
            return None;
        }
        let b0 = mut_byte_at(src, 0);
        let b1 = mut_byte_at(src, 1);
        let b2 = mut_byte_at(src, 2);
        let b3 = mut_byte_at(src, 3);
        let size: u32 = (b0 as u32) * 0x100_0000 + (b1 as u32) * 0x1_0000 + (b2 as u32) * 0x100
            + (b3 as u32);
        let size = size as usize;
        if len - SIZE_BYTE_LENGTH < size {
            None
        } else {
            mut_advance(src, SIZE_BYTE_LENGTH);
            let data = mut_split_to(src, size);
            Some(freeze(data))
        }
    }
}


#[verifier::external_type_specification]
#[verifier::external_body]
pub struct ExAnyhowError(anyhow::Error);

#[verifier::external_type_specification]
#[verifier::external_body]
pub struct ExIoError(std::io::Error);

/// Why a bounded decoder could not yield a frame.
#[derive(Debug)]
pub enum BoundedFrameReadError {
    /// The stream has already yielded as many frames as it may.
    MaximumFrames,
    /// The inner decoder failed.
    Downstream(anyhow::Error),
    /// Reading the underlying stream failed.
    IO(std::io::Error),
}

impl From<std::io::Error> for BoundedFrameReadError {
    fn from(value: std::io::Error) -> (r: Self) {
        BoundedFrameReadError::IO(value)
    }
}

impl vstd::std_specs::convert::FromSpecImpl<std::io::Error> for BoundedFrameReadError {
    open spec fn obeys_from_spec() -> bool {
        true
    }

    open spec fn from_spec(v: std::io::Error) -> Self {
        BoundedFrameReadError::IO(v)
    }
}

/// A frame decoder that yields at most `max_frames` frames over its lifetime.
pub struct BoundedFrameDecoder {
    max_frames: usize,
    current_frames: usize,
    child: LengthPrefixedDataDecoder,
}

impl BoundedFrameDecoder {
    /// The most frames this decoder will ever yield.
    pub closed spec fn max(&self) -> nat {
        self.max_frames as nat
    }

    /// How many frames this decoder has yielded so far.
    pub closed spec fn current(&self) -> nat {
        self.current_frames as nat
    }

    /// The count never passes the maximum.
    pub closed spec fn wf(&self) -> bool {
        self.current_frames <= self.max_frames
    }

    pub fn new(max_frames: usize, child: LengthPrefixedDataDecoder) -> (r: Self)
        ensures
            r.wf(),
            r.max() == max_frames,
            r.current() == 0,
            r.current() <= r.max(),
    {
        BoundedFrameDecoder { max_frames, current_frames: 0, child }
    }

    /// Once `max()` frames have been yielded, every call fails with
    /// `MaximumFrames` and consumes nothing, whatever `src` holds. Before
    /// that, a call decodes as the inner decoder does and counts each frame
    /// it yields.
    pub fn decode(&mut self, src: &mut BytesMut) -> (r: Result<Option<Bytes>, BoundedFrameReadError>)
        requires
            old(self).wf(),
        ensures
            final(self).wf(),
            final(self).current() <= final(self).max(),
            final(self).max() == old(self).max(),
            match guard_step(old(self).current(), old(self).max(), bytes_mut_view(*old(src))) {
                None => {
                    &&& r matches Err(BoundedFrameReadError::MaximumFrames)
                    &&& bytes_mut_view(*final(src)) == bytes_mut_view(*old(src))
                    &&& final(self).current() == old(self).current()
                },
                Some((count, out, rest)) => {
                    &&& final(self).current() == count
                    &&& bytes_mut_view(*final(src)) == rest
                    &&& match out {
                        None => r matches Ok(None),
                        Some(body) => r matches Ok(Some(b)) && bytes_view(b) == body,
                    }
                },
            },
    {
        if self.current_frames >= self.max_frames {
            Err(BoundedFrameReadError::MaximumFrames)
        } else {
            match self.child.decode(src) {
                Some(data) => {
                    self.current_frames = self.current_frames + 1;
                    Ok(Some(data))
                },
                None => Ok(None),
            }
        }
    }
}

} // verus!

//! Frame writer and poll-driven frame reader.
//!
//! A frame is one [`Header`] followed by the payload bytes whose
//! length the header declares.  The writer serializes payload and
//! envelope into the front of a preallocated, maximum-sized send
//! buffer, ready to go out as one transport write.  The reader
//! reassembles frames from a stream delivered in arbitrary chunk
//! sizes: it emulates a non-destructive transport peek with an
//! accumulation buffer, inspects the buffered bytes on every poll,
//! and consumes bytes only once a full frame is confirmed.  A single
//! poll yields at most one message; callers drain by polling until a
//! poll yields nothing.

use vstd::prelude::*;

use crate::endian::{u32_from_be, wrote_bytes};
use crate::message::{Header, HEADER_SERIALIZED_SIZE};
use crate::serialization::{DecodeError, Serializable};

verus! {

/// The header encoded at the front of a buffered byte stream.
/// Meaningful once the stream holds at least the header's size.
pub open spec fn buffered_header(b: Seq<u8>) -> Header
    recommends
        b.len() >= HEADER_SERIALIZED_SIZE,
{
    Header { client: u32_from_be(b.subrange(0, 4)), size: u32_from_be(b.subrange(4, 8)) }
}

/// The total length of the frame announced at the front of `b`:
/// header size plus the payload length the header declares.
pub open spec fn frame_total_len(b: Seq<u8>) -> int {
    HEADER_SERIALIZED_SIZE + buffered_header(b).size
}

/// A full frame is buffered: the header is present, and so is every
/// payload byte it announces.
pub open spec fn frame_ready(b: Seq<u8>) -> bool {
    b.len() >= HEADER_SERIALIZED_SIZE && b.len() >= frame_total_len(b)
}

/// The payload of the frame at the front of `b`.
pub open spec fn frame_payload(b: Seq<u8>) -> Seq<u8>
    recommends
        frame_ready(b),
{
    b.subrange(HEADER_SERIALIZED_SIZE as int, frame_total_len(b))
}

/// What stays buffered after the frame at the front of `b` is
/// consumed.
pub open spec fn frame_rest(b: Seq<u8>) -> Seq<u8>
    recommends
        frame_ready(b),
{
    b.skip(frame_total_len(b))
}

/// `f` is exactly one whole frame: a header and precisely the payload
/// bytes it announces, nothing more.
pub open spec fn whole_frame(f: Seq<u8>) -> bool {
    f.len() >= HEADER_SERIALIZED_SIZE && f.len() == frame_total_len(f)
}

/// `b`, extended with zero bytes up to length `n` if it is shorter.
///
/// A received payload is padded like this to the decoded type's size
/// bound before decoding, mirroring the maximum-sized receive buffer
/// the frame was read into; a sum-type payload decodes from the tag
/// and its own variant's fields alone, so the padding is never part
/// of the decoded value.
pub open spec fn zero_pad(b: Seq<u8>, n: nat) -> Seq<u8> {
    if b.len() >= n {
        b
    } else {
        b + Seq::new((n - b.len()) as nat, |i: int| 0u8)
    }
}

/// Decoding the header of a buffered stream is [`buffered_header`].
pub proof fn lemma_buffered_header_is_decoded(b: Seq<u8>)
    requires
        b.len() >= HEADER_SERIALIZED_SIZE,
    ensures
        Header::decoded(b) == Ok::<Header, DecodeError>(buffered_header(b)),
{
}

/// Reassembles discrete frames from a byte stream.
///
/// The reader is memoryless across polls in the operational sense:
/// each poll re-inspects the buffered bytes from the current
/// unconsumed position, and an incomplete frame leaves them exactly
/// as they were, to be re-inspected — header included — on the next
/// poll.
pub struct FrameReader {
    buffered: Vec<u8>,
}

impl View for FrameReader {
    type V = Seq<u8>;

    closed spec fn view(&self) -> Seq<u8> {
        self.buffered@
    }
}

impl FrameReader {
    /// A reader with nothing buffered.
    pub fn new() -> (r: FrameReader)
        ensures
            r@ == Seq::<u8>::empty(),
    {
        FrameReader { buffered: Vec::new() }
    }

    /// The number of bytes currently buffered.
    pub fn buffered_len(&self) -> (r: usize)
        ensures
            r == self@.len(),
    {
        self.buffered.len()
    }

    /// Feeds bytes that arrived from the transport.  Arrival order is
    /// kept; nothing is consumed.
    pub fn push_bytes(&mut self, chunk: &[u8])
        ensures
            final(self)@ == old(self)@ + chunk@,
    {
        self.buffered.extend_from_slice(chunk);
    }

    /// One poll at the frame level.
    ///
    /// Yields nothing — and leaves the buffer untouched — unless the
    /// full announced frame is buffered; otherwise consumes exactly
    /// that frame and yields its header and payload.
    pub fn poll_frame(&mut self) -> (r: Option<(Header, Vec<u8>)>)
        ensures
            match r {
                None => final(self)@ == old(self)@ && !frame_ready(old(self)@),
                Some((header, payload)) => {
                    &&& frame_ready(old(self)@)
                    &&& header == buffered_header(old(self)@)
                    &&& payload@ == frame_payload(old(self)@)
                    &&& final(self)@ == frame_rest(old(self)@)
                },
            },
    {
        if self.buffered.len() < HEADER_SERIALIZED_SIZE {
            return None;
        }
        let header = match Header::deserialize(self.buffered.as_slice()) {
            Ok(header) => header,
            Err(_) => {
                proof {
                    assert(false);
                }
                return None;
            },
        };
        let payload_len = header.size as usize;
        if self.buffered.len() - HEADER_SERIALIZED_SIZE < payload_len {
            return None;
        }
        let total = HEADER_SERIALIZED_SIZE + payload_len;
        let payload = vstd::slice::slice_to_vec(
            vstd::slice::slice_subrange(self.buffered.as_slice(), HEADER_SERIALIZED_SIZE, total),
        );
        let rest = self.buffered.split_off(total);
        self.buffered = rest;
        Some((header, payload))
    }

    /// One poll at the message level: [`Self::poll_frame`], then the
    /// receiving direction's codec on the payload.
    ///
    /// `Ok(None)` means no full frame is buffered yet — the normal
    /// fast return on a quiet stream.  A decode failure consumes the
    /// frame and surfaces the error; the caller is expected to tear
    /// the connection down, since nothing relocates a frame boundary
    /// after corruption.
    pub fn poll_message<M: Serializable>(&mut self) -> (r: Result<Option<M>, DecodeError>)
        requires
            M::max_bin_size_spec() <= usize::MAX,
        ensures
            match r {
                Ok(None) => final(self)@ == old(self)@ && !frame_ready(old(self)@),
                Ok(Some(message)) => {
                    &&& frame_ready(old(self)@)
                    &&& M::decoded(
                        zero_pad(frame_payload(old(self)@), M::max_bin_size_spec()),
                    ) == Ok::<M, DecodeError>(message)
                    &&& final(self)@ == frame_rest(old(self)@)
                },
                Err(e) => {
                    &&& frame_ready(old(self)@)
                    &&& M::decoded(
                        zero_pad(frame_payload(old(self)@), M::max_bin_size_spec()),
                    ) == Err::<M, DecodeError>(e)
                    &&& final(self)@ == frame_rest(old(self)@)
                },
            },
    {
        match self.poll_frame() {
            None => Ok(None),
            Some((_header, payload)) => {
                let mut payload = payload;
                let max = M::max_bin_size();
                if payload.len() < max {
                    payload.resize(max, 0u8);
                }
                proof {
                    assert(payload@ =~= zero_pad(
                        frame_payload(old(self)@),
                        M::max_bin_size_spec(),
                    ));
                }
                match M::deserialize(payload.as_slice()) {
                    Ok(message) => Ok(Some(message)),
                    Err(e) => Err(e),
                }
            },
        }
    }
}

/// The bytes of one whole frame carrying `payload` on behalf of peer
/// `origin`.
pub open spec fn frame_bytes(origin: u32, payload: Seq<u8>) -> Seq<u8> {
    (Header { client: origin, size: payload.len() as u32 }).wire_bytes() + payload
}

/// Serializes `message` and its envelope into the front of the
/// preallocated send buffer and returns the total frame length.
///
/// The payload goes in first, right after the room for the header;
/// the header is then built from the just-computed payload length and
/// serialized immediately before it.  The buffer must reach the
/// largest possible frame for the direction — by construction that
/// size is knowable statically, so a shorter buffer is a caller
/// error, not a runtime condition.
pub fn load_send_buffer<M: Serializable>(message: &M, origin: u32, into: &mut Vec<u8>) -> (r:
    usize)
    requires
        HEADER_SERIALIZED_SIZE + M::max_bin_size_spec() <= old(into).len(),
        M::max_bin_size_spec() <= u32::MAX,
    ensures
        r == HEADER_SERIALIZED_SIZE + message.wire_bytes().len(),
        wrote_bytes(old(into)@, final(into)@, 0, frame_bytes(origin, message.wire_bytes())),
{
    let message_size = message.serialize(into, HEADER_SERIALIZED_SIZE);
    let header = Header { client: origin, size: message_size as u32 };
    let header_size = header.serialize(into, 0);
    proof {
        let wire = message.wire_bytes();
        assert(into@.subrange(0, HEADER_SERIALIZED_SIZE as int) =~= header.wire_bytes());
        assert(into@.subrange(
            HEADER_SERIALIZED_SIZE as int,
            HEADER_SERIALIZED_SIZE + wire.len() as int,
        ) =~= wire);
        assert(into@.subrange(0, HEADER_SERIALIZED_SIZE + wire.len() as int) =~= frame_bytes(
            origin,
            wire,
        ));
    }
    header_size + message_size
}

// ---------------------------------------------------------------------
// how frames behave under fragmentation and queueing
// ---------------------------------------------------------------------

/// A frame built by [`frame_bytes`] is one whole frame, and the
/// reader's view of it recovers the origin and the payload exactly.
pub proof fn lemma_frame_bytes_whole(origin: u32, payload: Seq<u8>)
    requires
        payload.len() <= u32::MAX,
    ensures
        whole_frame(frame_bytes(origin, payload)),
        buffered_header(frame_bytes(origin, payload)) == (Header {
            client: origin,
            size: payload.len() as u32,
        }),
        frame_payload(frame_bytes(origin, payload)) == payload,
        frame_rest(frame_bytes(origin, payload)) == Seq::<u8>::empty(),
{
    let header = Header { client: origin, size: payload.len() as u32 };
    let f = frame_bytes(origin, payload);
    header.lemma_round_trip(payload);
    assert(f.subrange(0, 4) =~= (header.wire_bytes() + payload).subrange(0, 4));
    assert((header.wire_bytes() + payload).subrange(0, 8) =~= header.wire_bytes());
    assert(f.subrange(0, 4) =~= header.wire_bytes().subrange(0, 4));
    assert(f.subrange(4, 8) =~= header.wire_bytes().subrange(4, 8));
    assert(buffered_header(f) == header) by {
        assert(Header::decoded(header.wire_bytes() + payload) == Ok::<Header, DecodeError>(header));
        assert((header.wire_bytes() + payload).subrange(0, 4) =~= f.subrange(0, 4));
        assert((header.wire_bytes() + payload).subrange(4, 8) =~= f.subrange(4, 8));
    }
    assert(frame_payload(f) =~= payload);
    assert(frame_rest(f) =~= Seq::<u8>::empty());
}

/// Fragmentation idempotence, the waiting half: while any strict
/// prefix of a whole frame is buffered, a poll yields nothing, on
/// every poll, until the last chunk arrives.
pub proof fn lemma_partial_frame_pending(f: Seq<u8>, n: int)
    requires
        whole_frame(f),
        0 <= n < f.len(),
    ensures
        !frame_ready(f.take(n)),
{
    if n >= HEADER_SERIALIZED_SIZE {
        assert(f.take(n).subrange(0, 4) =~= f.subrange(0, 4));
        assert(f.take(n).subrange(4, 8) =~= f.subrange(4, 8));
    }
}

/// Queued frames come out in arrival order: with one whole frame at
/// the front and anything at all buffered behind it, a poll sees
/// exactly the first frame and leaves exactly the bytes behind it.
pub proof fn lemma_frames_queue_in_order(f: Seq<u8>, rest: Seq<u8>)
    requires
        whole_frame(f),
    ensures
        frame_ready(f + rest),
        buffered_header(f + rest) == buffered_header(f),
        frame_payload(f + rest) == frame_payload(f),
        frame_rest(f + rest) == rest,
{
    let b = f + rest;
    assert(b.subrange(0, 4) =~= f.subrange(0, 4));
    assert(b.subrange(4, 8) =~= f.subrange(4, 8));
    assert(frame_payload(b) =~= frame_payload(f));
    assert(frame_rest(b) =~= rest);
}

/// End to end: a frame written for `message` and fed to a reader —
/// in however many chunks — decodes on the poll that completes it to
/// exactly `message`, once, leaving behind exactly what was buffered
/// after it.
pub proof fn lemma_frame_delivery<M: Serializable>(message: M, origin: u32, rest: Seq<u8>)
    requires
        message.wire_bytes().len() <= u32::MAX,
    ensures
        frame_ready(frame_bytes(origin, message.wire_bytes()) + rest),
        M::decoded(
            zero_pad(
                frame_payload(frame_bytes(origin, message.wire_bytes()) + rest),
                M::max_bin_size_spec(),
            ),
        ) == Ok::<M, DecodeError>(message),
        frame_rest(frame_bytes(origin, message.wire_bytes()) + rest) == rest,
{
    let wire = message.wire_bytes();
    lemma_frame_bytes_whole(origin, wire);
    lemma_frames_queue_in_order(frame_bytes(origin, wire), rest);
    let padded = zero_pad(wire, M::max_bin_size_spec());
    if wire.len() >= M::max_bin_size_spec() {
        message.lemma_round_trip(Seq::<u8>::empty());
        assert(wire + Seq::<u8>::empty() =~= wire);
    } else {
        let pad = Seq::new((M::max_bin_size_spec() - wire.len()) as nat, |i: int| 0u8);
        message.lemma_round_trip(pad);
        assert(padded =~= wire + pad);
    }
}

} // verus!

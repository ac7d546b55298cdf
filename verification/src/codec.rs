//! Framing of packets on the serial line: a packet, then its CRC-8/LTE
//! checksum, the whole COBS-encoded and closed by a `0x00` byte.
use cobs_codec::Codec as CobsCodec;
use tokio_util::bytes::BytesMut;
use tokio_util::codec::{Decoder, Encoder};
use vstd::prelude::*;

use crate::error::Error;
use crate::protocol::{packet_bytes, parse_packet, Packet};

verus! {

/// The COBS codec of the `cobs_codec` crate, carried through opaque.
#[verifier::external_type_specification]
#[verifier::external_body]
pub struct ExCobsCodec<const SE: u8, const SD: u8, const ME: usize, const MD: usize>(
    CobsCodec<SE, SD, ME, MD>,
);

/// The byte buffer that `tokio_util` codecs read from, carried through opaque.
#[verifier::external_type_specification]
#[verifier::external_body]
pub struct ExBytesMut(BytesMut);

/// One step of the CRC register: shift it left by one bit and, where a one
/// falls out, add the polynomial 0x9B.
pub open spec fn crc8_shift(c: u8) -> u8 {
    let shifted = ((c as int * 2) % 256) as u8;
    if c & 0x80u8 == 0 {
        shifted
    } else {
        shifted ^ 0x9Bu8
    }
}

/// `n` steps of the CRC register.
pub open spec fn crc8_shifts(c: u8, n: nat) -> u8
    decreases n,
{
    if n == 0 {
        c
    } else {
        crc8_shifts(crc8_shift(c), (n - 1) as nat)
    }
}

/// The CRC-8/LTE checksum of `data`: width 8, polynomial 0x9B, initial value
/// 0, no reflection, no final xor. Each byte is added to the register, which
/// then takes eight steps.
pub open spec fn crc8_lte(data: Seq<u8>) -> u8
    decreases data.len(),
{
    if data.len() == 0 {
        0
    } else {
        crc8_shifts(crc8_lte(data.drop_last()) ^ data.last(), 8)
    }
}

/// The chunks of one run of non-zero bytes: pieces of at most 254 bytes,
/// each after a byte that is its length plus one. A run of 254 bytes or less
/// is one piece, the empty run included.
pub open spec fn run_chunks(run: Seq<u8>) -> Seq<u8>
    decreases run.len(),
{
    if run.len() <= 254 {
        seq![(run.len() + 1) as u8] + run
    } else {
        seq![255u8] + run.take(254) + run_chunks(run.skip(254))
    }
}

/// After a run whose last piece is a full one of 254 bytes, an empty piece
/// stands for the `0x00` that ends the run.
pub open spec fn run_end(run: Seq<u8>) -> Seq<u8> {
    if run.len() > 0 && run.len() % 254 == 0 {
        seq![1u8]
    } else {
        seq![]
    }
}

/// The chunks for the bytes of `run`, the run read so far, followed by
/// `rest`: each `0x00` of the input ends a run.
pub open spec fn cobs_chunks(run: Seq<u8>, rest: Seq<u8>) -> Seq<u8>
    decreases rest.len(),
{
    if rest.len() == 0 {
        run_chunks(run)
    } else if rest[0] == 0 {
        run_chunks(run) + run_end(run) + cobs_chunks(seq![], rest.drop_first())
    } else {
        cobs_chunks(run.push(rest[0]), rest.drop_first())
    }
}

/// The COBS encoding of `data` with `0x00` as sentinel, as the `cobs_codec`
/// crate writes it for a limit above 254 bytes: the chunks of its runs, then
/// the sentinel.
pub open spec fn cobs_encoded(data: Seq<u8>) -> Seq<u8> {
    cobs_chunks(seq![], data).push(0)
}

proof fn lemma_run_chunks_nonzero(run: Seq<u8>)
    requires
        forall|i: int| 0 <= i < run.len() ==> run[i] != 0,
    ensures
        forall|i: int| 0 <= i < run_chunks(run).len() ==> #[trigger] run_chunks(run)[i] != 0,
    decreases run.len(),
{
    if run.len() <= 254 {
        let c = run_chunks(run);
        assert forall|i: int| 0 <= i < c.len() implies #[trigger] c[i] != 0 by {
            if i > 0 {
                assert(c[i] == run[i - 1]);
            }
        }
    } else {
        let tail = run.skip(254);
        lemma_run_chunks_nonzero(tail);
        let c = run_chunks(run);
        let head = seq![255u8] + run.take(254);
        assert(c == head + run_chunks(tail));
        assert forall|i: int| 0 <= i < c.len() implies #[trigger] c[i] != 0 by {
            if i == 0 {
            } else if i < 255 {
                assert(c[i] == run[i - 1]);
            } else {
                assert(c[i] == run_chunks(tail)[i - 255]);
            }
        }
    }
}

proof fn lemma_cobs_chunks_nonzero(run: Seq<u8>, rest: Seq<u8>)
    requires
        forall|i: int| 0 <= i < run.len() ==> run[i] != 0,
    ensures
        forall|i: int|
            0 <= i < cobs_chunks(run, rest).len() ==> #[trigger] cobs_chunks(run, rest)[i] != 0,
    decreases rest.len(),
{
    lemma_run_chunks_nonzero(run);
    let all = cobs_chunks(run, rest);
    if rest.len() == 0 {
        assert forall|i: int| 0 <= i < all.len() implies #[trigger] all[i] != 0 by {
            assert(all[i] == run_chunks(run)[i]);
        }
    } else if rest[0] == 0 {
        lemma_cobs_chunks_nonzero(seq![], rest.drop_first());
        let a = run_chunks(run);
        let b = run_end(run);
        let c = cobs_chunks(seq![], rest.drop_first());
        assert(all == a + b + c);
        assert forall|i: int| 0 <= i < all.len() implies #[trigger] all[i] != 0 by {
            if i < a.len() {
                assert(all[i] == a[i]);
            } else if i < a.len() + b.len() {
                assert(all[i] == b[i - a.len()]);
            } else {
                assert(all[i] == c[i - a.len() - b.len()]);
            }
        }
    } else {
        let next = run.push(rest[0]);
        assert forall|i: int| 0 <= i < next.len() implies next[i] != 0 by {
            if i < run.len() {
                assert(next[i] == run[i]);
            }
        }
        lemma_cobs_chunks_nonzero(next, rest.drop_first());
        let c = cobs_chunks(next, rest.drop_first());
        assert(all == c);
        assert forall|i: int| 0 <= i < all.len() implies #[trigger] all[i] != 0 by {
            assert(all[i] == c[i]);
        }
    }
}

/// A COBS encoding ends with the sentinel `0x00` and holds no other `0x00`.
pub proof fn lemma_cobs_sentinel_only_at_end(data: Seq<u8>)
    ensures
        cobs_encoded(data).len() >= 1,
        cobs_encoded(data).last() == 0u8,
        forall|i: int| 0 <= i < cobs_encoded(data).len() - 1 ==> #[trigger] cobs_encoded(data)[i] != 0u8,
{
    lemma_cobs_chunks_nonzero(seq![], data);
    let c = cobs_chunks(seq![], data);
    assert forall|i: int| 0 <= i < cobs_encoded(data).len() - 1 implies #[trigger] cobs_encoded(
        data,
    )[i] != 0u8 by {
        assert(cobs_encoded(data)[i] == c[i]);
    }
}

/// The bytes a `BytesMut` buffer holds, in order.
pub uninterp spec fn buffered(b: BytesMut) -> Seq<u8>;

/// The encoded bytes of an unfinished frame that the COBS decoder has taken
/// from its input and not yet given back as a frame. Empty exactly when the
/// decoder is between frames, in its initial state. Otherwise the bytes of
/// the frame it is reading, from its first byte on; or, after a frame went
/// over the limit, the bytes of that frame it had taken and those it has
/// skipped since, while it waits for the frame's end.
pub uninterp spec fn cobs_held(c: CobsCodec<0x00, 0x00, 256, 256>) -> Seq<u8>;

/// Calls `crc::Crc::<u8>::checksum` with the catalogue algorithm
/// `crc::CRC_8_LTE`, whose parameters are those that `crc8_lte` is written
/// with. Claimed: the result is `crc8_lte` of the bytes.
#[verifier::external_body]
fn crc8_lte_checksum(data: &[u8]) -> (r: u8)
    ensures
        r == crc8_lte(data@),
{
    crc::Crc::<u8>::new(&crc::CRC_8_LTE).checksum(data)
}

/// Calls `cobs_codec::Codec::new`. Claimed, as the crate's source shows: the
/// new decoder is in its initial state, between frames.
#[verifier::external_body]
fn new_cobs_codec() -> (r: CobsCodec<0x00, 0x00, 256, 256>)
    ensures
        cobs_held(r) == Seq::<u8>::empty(),
{
    CobsCodec::new()
}

/// Calls `<cobs_codec::Codec as tokio_util::codec::Encoder>::encode` on a
/// fresh buffer and returns what it wrote. Claimed, as the crate's source
/// shows: the call does not fail for items of at most 256 bytes (longer ones
/// make it panic); what it writes is `cobs_encoded` of the item. The
/// encoder holds no state, so the decoder's state is left as it was.
#[verifier::external_body]
fn cobs_encode(codec: &mut CobsCodec<0x00, 0x00, 256, 256>, item: &[u8]) -> (r: Vec<u8>)
    requires
        item@.len() <= 256,
    ensures
        cobs_held(*final(codec)) == cobs_held(*old(codec)),
        r@ == cobs_encoded(item@),
{
    let mut dst = BytesMut::new();
    match codec.encode(item, &mut dst) {
        Ok(()) => dst.to_vec(),
        Err(_) => Vec::new(),
    }
}

/// The buffer starts with the sentinel `0x00`, which no frame may start with.
pub open spec fn starts_with_sentinel(b: Seq<u8>) -> bool {
    b.len() > 0 && b[0] == 0
}

/// The first byte `k` of the buffer announces `k - 1` bytes free of the
/// sentinel, and one of those that are there is `0x00`.
pub open spec fn sentinel_in_first_chunk(b: Seq<u8>) -> bool {
    b.len() > 0 && b[0] != 0 && exists|i: int| 1 <= i < b[0] && i < b.len() && #[trigger] b[i] == 0
}

/// The buffer runs on for 259 bytes without a frame's end: a frame read
/// from it would go over the limit of 256 bytes.
pub open spec fn overlong_frame(b: Seq<u8>) -> bool {
    b.len() >= 259 && forall|i: int| 0 <= i < 259 ==> #[trigger] b[i] != 0
}

/// Calls `<cobs_codec::Codec as tokio_util::codec::Decoder>::decode`, which
/// consumes bytes of `src` and keeps partial frames in the codec's state;
/// a decoded frame is turned into a `Vec`, a decoding error into `Err(())`.
/// Claimed, as the crate's source and its tests show for a limit of 256: a
/// decoded frame holds at most 256 bytes; an empty buffer gives `Ok(None)`
/// and changes nothing; a decoder between frames, given a buffer that starts
/// with the encoding of `x` (at most 256 bytes), gives `x` back, leaves the
/// bytes after the encoding in the buffer and is between frames again. The
/// decoder's state is a function of the bytes it holds, read on as if they
/// came first in the buffer: where the held bytes and the buffer together
/// start with the encoding of such an `x`, `x` comes back and the bytes after
/// it stay; where they are together a strict beginning of such an encoding,
/// the whole buffer is taken and held, and `Ok(None)` comes back. Between
/// frames, decoding fails on a buffer that starts with `0x00` (which is
/// taken, the decoder staying between frames), on one whose first chunk holds
/// a `0x00` (the decoder is between frames again), and on one that runs on for
/// 259 bytes without a frame's end (the frame would go over the limit). What
/// else comes out of bytes that are no encoding, and what is taken then, is
/// not stated.
#[verifier::external_body]
fn cobs_decode(codec: &mut CobsCodec<0x00, 0x00, 256, 256>, src: &mut BytesMut) -> (r: Result<
    Option<Vec<u8>>,
    (),
>)
    ensures
        r matches Ok(Some(frame)) ==> frame@.len() <= 256,
        buffered(*old(src)).len() == 0 ==> r matches Ok(None),
        buffered(*old(src)).len() == 0 ==> buffered(*final(src)).len() == 0 && cobs_held(
            *final(codec),
        ) == cobs_held(*old(codec)),
        forall|x: Seq<u8>, rest: Seq<u8>|
            x.len() <= 256 && cobs_held(*old(codec)) == Seq::<u8>::empty() && buffered(*old(src))
                == #[trigger] (cobs_encoded(x) + rest) ==> (r matches Ok(Some(frame)) && frame@
                == x),
        forall|x: Seq<u8>, rest: Seq<u8>|
            x.len() <= 256 && cobs_held(*old(codec)) == Seq::<u8>::empty() && buffered(*old(src))
                == #[trigger] (cobs_encoded(x) + rest) ==> buffered(*final(src)) == rest
                && cobs_held(*final(codec)) == Seq::<u8>::empty(),
        forall|x: Seq<u8>, rest: Seq<u8>|
            x.len() <= 256 && cobs_held(*old(codec)).len() < cobs_encoded(x).len() && cobs_held(
                *old(codec),
            ) + buffered(*old(src)) == #[trigger] (cobs_encoded(x) + rest) ==> (r matches Ok(
                Some(frame),
            ) && frame@ == x) && buffered(*final(src)) == rest && cobs_held(*final(codec))
                == Seq::<u8>::empty(),
        forall|x: Seq<u8>|
            x.len() <= 256 && (cobs_held(*old(codec)) + buffered(*old(src))).len() < (
            #[trigger] cobs_encoded(x)).len() && cobs_held(*old(codec)) + buffered(*old(src))
                == cobs_encoded(x).subrange(
                0,
                (cobs_held(*old(codec)) + buffered(*old(src))).len() as int,
            ) ==> (r matches Ok(None)) && buffered(*final(src)).len() == 0 && cobs_held(
                *final(codec),
            ) == cobs_held(*old(codec)) + buffered(*old(src)),
        cobs_held(*old(codec)) == Seq::<u8>::empty() && starts_with_sentinel(buffered(*old(src)))
            ==> r is Err && buffered(*final(src)) == buffered(*old(src)).drop_first() && cobs_held(
            *final(codec),
        ) == Seq::<u8>::empty(),
        cobs_held(*old(codec)) == Seq::<u8>::empty() && sentinel_in_first_chunk(
            buffered(*old(src)),
        ) ==> r is Err && cobs_held(*final(codec)) == Seq::<u8>::empty(),
        cobs_held(*old(codec)) == Seq::<u8>::empty() && overlong_frame(buffered(*old(src)))
            ==> r is Err,
{
    match codec.decode(src) {
        Ok(Some(frame)) => Ok(Some(frame.to_vec())),
        Ok(None) => Ok(None),
        Err(_) => Err(()),
    }
}

/// The bytes that are COBS-encoded for a packet: the packet, then its checksum.
pub open spec fn frame_payload(p: Packet) -> Seq<u8> {
    packet_bytes(p).push(crc8_lte(packet_bytes(p)))
}

/// What a decoded frame yields: frames shorter than two bytes and frames
/// whose last byte is not the checksum of the rest are skipped (`Ok(None)`);
/// otherwise the rest must start with a packet.
pub open spec fn frame_outcome(frame: Seq<u8>) -> Result<Option<Packet>, Error> {
    if frame.len() >= 2 {
        let data = frame.drop_last();
        if crc8_lte(data) != frame.last() {
            Ok(None)
        } else {
            match parse_packet(data) {
                Some(p) => Ok(Some(p)),
                None => Err(Error::Packet),
            }
        }
    } else {
        Ok(None)
    }
}

/// A frame built for a packet fits the decoder's limit and reads back as
/// that packet.
pub proof fn lemma_frame_roundtrip(p: Packet)
    ensures
        frame_payload(p).len() <= 256,
        frame_outcome(frame_payload(p)) == Ok::<Option<Packet>, Error>(Some(p)),
{
    crate::protocol::lemma_packet_len(p);
    let f = frame_payload(p);
    assert(f.drop_last() =~= packet_bytes(p));
    crate::protocol::lemma_packet_roundtrip(p, Seq::empty());
    assert(packet_bytes(p) + Seq::<u8>::empty() =~= packet_bytes(p));
}

/// A frame whose last byte is not the checksum of the packet before it is
/// skipped.
pub proof fn lemma_frame_bad_checksum(p: Packet, c: u8)
    requires
        c != crc8_lte(packet_bytes(p)),
    ensures
        frame_outcome(packet_bytes(p).push(c)) == Ok::<Option<Packet>, Error>(None),
{
    crate::protocol::lemma_packet_len(p);
    assert(packet_bytes(p).push(c).drop_last() =~= packet_bytes(p));
}

/// Encoder and decoder of packet frames.
pub struct Codec {
    cobs_codec: CobsCodec<0x00, 0x00, 256, 256>,
}

impl Codec {
    /// The encoded bytes of an unfinished frame that the decoder has taken
    /// from its input and holds back.
    pub closed spec fn pending(&self) -> Seq<u8> {
        cobs_held(self.cobs_codec)
    }

    /// The decoder is between frames.
    pub open spec fn between_frames(&self) -> bool {
        self.pending().len() == 0
    }

    /// A codec whose decoder is between frames.
    pub fn new() -> (r: Codec)
        ensures
            r.between_frames(),
    {
        Codec { cobs_codec: new_cobs_codec() }
    }

    /// Whether `received_crc` is the checksum of `data`.
    pub fn validate_crc(&self, data: &[u8], received_crc: u8) -> (r: bool)
        ensures
            r == (crc8_lte(data@) == received_crc),
    {
        crc8_lte_checksum(data) == received_crc
    }

    /// Interprets one decoded frame.
    pub fn decode_frame(&self, frame: &[u8]) -> (r: Result<Option<Packet>, Error>)
        ensures
            r == frame_outcome(frame@),
    {
        let n = frame.len();
        if n >= 2 {
            let size = n - 1;
            let data = vstd::slice::slice_subrange(frame, 0, size);
            let crc_byte = frame[size];
            assert(data@ == frame@.drop_last());
            if !self.validate_crc(data, crc_byte) {
                return Ok(None);
            }
            match Packet::from_bytes(data) {
                Ok((_, packet)) => Ok(Some(packet)),
                Err(_) => Err(Error::Packet),
            }
        } else {
            Ok(None)
        }
    }

    /// Reads the next frame, if a whole one is buffered in `src`, and
    /// interprets it. A COBS error is a packet error. An empty buffer gives
    /// `Ok(None)`. Between frames, a buffer that starts with the encoding of
    /// a frame gives what that frame yields and keeps the bytes after it. A
    /// frame may come in pieces: what the decoder holds and the buffer are
    /// read together, and a strict beginning of a frame is taken and held.
    /// Between frames, a buffer that starts with `0x00`, one whose first
    /// chunk holds a `0x00`, and one that runs on past the limit without a
    /// frame's end give a packet error.
    pub fn decode(&mut self, src: &mut BytesMut) -> (r: Result<Option<Packet>, Error>)
        ensures
            r is Err ==> r == Err::<Option<Packet>, Error>(Error::Packet),
            r matches Ok(Some(p)) ==> exists|frame: Seq<u8>|
                frame.len() <= 256 && #[trigger] frame_outcome(frame) == r,
            buffered(*old(src)).len() == 0 ==> r == Ok::<Option<Packet>, Error>(None),
            buffered(*old(src)).len() == 0 ==> buffered(*final(src)).len() == 0
                && final(self).pending() == old(self).pending(),
            forall|x: Seq<u8>, rest: Seq<u8>|
                x.len() <= 256 && old(self).between_frames() && buffered(*old(src))
                    == #[trigger] (cobs_encoded(x) + rest) ==> r == frame_outcome(x),
            forall|x: Seq<u8>, rest: Seq<u8>|
                x.len() <= 256 && old(self).between_frames() && buffered(*old(src))
                    == #[trigger] (cobs_encoded(x) + rest) ==> buffered(*final(src)) == rest
                    && final(self).between_frames(),
            forall|x: Seq<u8>, rest: Seq<u8>|
                x.len() <= 256 && old(self).pending().len() < cobs_encoded(x).len() && old(
                    self,
                ).pending() + buffered(*old(src)) == #[trigger] (cobs_encoded(x) + rest) ==> r
                    == frame_outcome(x) && buffered(*final(src)) == rest
                    && final(self).between_frames(),
            forall|x: Seq<u8>|
                x.len() <= 256 && (old(self).pending() + buffered(*old(src))).len() < (
                #[trigger] cobs_encoded(x)).len() && old(self).pending() + buffered(*old(src))
                    == cobs_encoded(x).subrange(
                    0,
                    (old(self).pending() + buffered(*old(src))).len() as int,
                ) ==> r == Ok::<Option<Packet>, Error>(None) && buffered(*final(src)).len() == 0
                    && final(self).pending() == old(self).pending() + buffered(*old(src)),
            old(self).between_frames() && starts_with_sentinel(buffered(*old(src))) ==> r == Err::<
                Option<Packet>,
                Error,
            >(Error::Packet) && buffered(*final(src)) == buffered(*old(src)).drop_first()
                && final(self).between_frames(),
            old(self).between_frames() && sentinel_in_first_chunk(buffered(*old(src))) ==> r
                == Err::<Option<Packet>, Error>(Error::Packet) && final(self).between_frames(),
            old(self).between_frames() && overlong_frame(buffered(*old(src))) ==> r == Err::<
                Option<Packet>,
                Error,
            >(Error::Packet),
    {
        proof {
            if self.between_frames() {
                assert(self.pending() =~= Seq::<u8>::empty());
            }
        }
        let decoded = cobs_decode(&mut self.cobs_codec, src);
        self.decode_result(decoded)
    }

    /// Interprets what the COBS decoder gave: a decoding error is a packet
    /// error, no whole frame yet is `Ok(None)`, and a frame yields what
    /// `decode_frame` makes of it.
    pub fn decode_result(&self, decoded: Result<Option<Vec<u8>>, ()>) -> (r: Result<
        Option<Packet>,
        Error,
    >)
        ensures
            match decoded {
                Err(_) => r == Err::<Option<Packet>, Error>(Error::Packet),
                Ok(None) => r == Ok::<Option<Packet>, Error>(None),
                Ok(Some(frame)) => r == frame_outcome(frame@),
            },
    {
        match decoded {
            Err(_) => Err(Error::Packet),
            Ok(None) => Ok(None),
            Ok(Some(frame)) => self.decode_frame(frame.as_slice()),
        }
    }

    /// The payload of a packet's frame: its bytes and their checksum.
    pub fn frame_payload(&self, packet: &Packet) -> (r: Vec<u8>)
        ensures
            r@ == frame_payload(*packet),
    {
        let mut bytes = packet.to_bytes();
        let crc = crc8_lte_checksum(bytes.as_slice());
        bytes.push(crc);
        bytes
    }

    /// The bytes that go on the line for `packet`.
    pub fn encode(&mut self, packet: Packet) -> (r: Vec<u8>)
        ensures
            final(self).pending() == old(self).pending(),
            r@ == cobs_encoded(frame_payload(packet)),
            r@.len() >= 1,
            r@.last() == 0u8,
            forall|i: int| 0 <= i < r@.len() - 1 ==> r@[i] != 0u8,
    {
        let payload = self.frame_payload(&packet);
        proof {
            crate::protocol::lemma_packet_len(packet);
            lemma_cobs_sentinel_only_at_end(frame_payload(packet));
        }
        cobs_encode(&mut self.cobs_codec, payload.as_slice())
    }
}

/// What to do with a packet received while waiting for a board.
#[derive(Clone, Copy, Debug, PartialEq, Eq, Structural)]
pub enum HandshakeStep {
    /// The board has not said it is ready: drop the packet.
    Drop,
    /// The board said it is ready: answer with `Ready`.
    Acknowledge,
    /// Pass the packet on.
    Deliver(Packet),
}

/// Next readiness and step for a packet.
pub open spec fn handshake_step(done: bool, p: Packet) -> (bool, HandshakeStep) {
    if done {
        (true, HandshakeStep::Deliver(p))
    } else if p == Packet::Ready {
        (true, HandshakeStep::Acknowledge)
    } else {
        (false, HandshakeStep::Drop)
    }
}

/// The steps taken for a stream of packets.
pub open spec fn handshake_steps(done: bool, ps: Seq<Packet>) -> Seq<HandshakeStep>
    decreases ps.len(),
{
    if ps.len() == 0 {
        seq![]
    } else {
        let (d, step) = handshake_step(done, ps[0]);
        seq![step] + handshake_steps(d, ps.drop_first())
    }
}

/// The start of a board's stream: the board announces itself with `Ready`,
/// is answered with `Ready`, and only then are its packets passed on.
pub struct Handshake {
    ready: bool,
}

impl Handshake {
    /// Whether the board has said it is ready.
    pub closed spec fn done(&self) -> bool {
        self.ready
    }

    pub fn new() -> (r: Handshake)
        ensures
            !r.done(),
    {
        Handshake { ready: false }
    }

    pub fn is_done(&self) -> (r: bool)
        ensures
            r == self.done(),
    {
        self.ready
    }

    /// Decides on a received packet.
    pub fn on_packet(&mut self, packet: Packet) -> (r: HandshakeStep)
        ensures
            (final(self).done(), r) == handshake_step(old(self).done(), packet),
    {
        if self.ready {
            HandshakeStep::Deliver(packet)
        } else if packet == Packet::Ready {
            self.ready = true;
            HandshakeStep::Acknowledge
        } else {
            HandshakeStep::Drop
        }
    }
}

/// Over any stream received from the start, the board's `Ready` is
/// acknowledged at most once, and a packet is passed on only after a
/// `Ready` came before it.
pub proof fn lemma_handshake_stream(done: bool, ps: Seq<Packet>, i: int, j: int)
    requires
        0 <= i < j < ps.len(),
    ensures
        handshake_steps(done, ps).len() == ps.len(),
        handshake_steps(done, ps)[i] == HandshakeStep::Acknowledge ==> handshake_steps(done, ps)[j]
            != HandshakeStep::Acknowledge,
        !done && handshake_steps(done, ps)[j] is Deliver ==> exists|k: int|
            0 <= k < j && ps[k] == Packet::Ready,
    decreases ps.len(),
{
    lemma_handshake_len(done, ps);
    let (d, step) = handshake_step(done, ps[0]);
    let rest = ps.drop_first();
    lemma_handshake_len(d, rest);
    if i == 0 {
        if step == HandshakeStep::Acknowledge {
            lemma_handshake_done(rest, j - 1);
        }
    } else {
        lemma_handshake_stream(d, rest, i - 1, j - 1);
    }
    if !done && handshake_steps(done, ps)[j] is Deliver {
        if ps[0] == Packet::Ready {
            assert(0 <= 0 < j && ps[0] == Packet::Ready);
        } else {
            if j - 1 == 0 {
                assert(!d);
            } else {
                lemma_handshake_stream(d, rest, 0, j - 1);
            }
            let k = choose|k: int| 0 <= k < j - 1 && rest[k] == Packet::Ready;
            assert(ps[k + 1] == Packet::Ready);
        }
    }
}

proof fn lemma_handshake_len(done: bool, ps: Seq<Packet>)
    ensures
        handshake_steps(done, ps).len() == ps.len(),
    decreases ps.len(),
{
    if ps.len() > 0 {
        let (d, step) = handshake_step(done, ps[0]);
        lemma_handshake_len(d, ps.drop_first());
    }
}

proof fn lemma_handshake_done(ps: Seq<Packet>, j: int)
    requires
        0 <= j < ps.len(),
    ensures
        handshake_steps(true, ps)[j] == HandshakeStep::Deliver(ps[j]),
    decreases ps.len(),
{
    lemma_handshake_len(true, ps.drop_first());
    if j > 0 {
        lemma_handshake_done(ps.drop_first(), j - 1);
    }
}

} // verus!

//! The message-framing codec.
use vstd::prelude::*;
use bytes::BytesMut;
use crate::codec::buffer::{be_bytes, buffer_content, lemma_be_round_trip};
use crate::codec::frame::{
    after_front, declared_length, front_compressed, front_payload, holds_frame, wire_form,
};
use crate::error::Error;

pub mod buffer;
pub mod compression;
pub mod frame;

pub use compression::{Compression, CompressionEncoding};
pub use frame::Frame;

verus! {

/// Frames messages in and out of a byte buffer, refusing those longer than a
/// configured maximum.
#[derive(Debug)]
pub struct GrpcCodec {
    max_message_size: usize,
}

impl Default for GrpcCodec {
    fn default() -> (codec: Self)
        ensures
            codec.limit() == crate::client::DEFAULT_MAX_FRAME_SIZE,
    {
        Self { max_message_size: crate::client::DEFAULT_MAX_FRAME_SIZE }
    }
}

impl GrpcCodec {
    /// The longest payload that the codec lets through.
    pub closed spec fn limit(&self) -> usize {
        self.max_message_size
    }

    /// A codec with the default limit.
    pub fn new() -> (codec: Self)
        ensures
            codec.limit() == crate::client::DEFAULT_MAX_FRAME_SIZE,
    {
        Self { max_message_size: crate::client::DEFAULT_MAX_FRAME_SIZE }
    }

    /// The codec with its limit set to `size`.
    pub fn with_max_message_size(self, size: usize) -> (codec: Self)
        ensures
            codec.limit() == size,
    {
        Self { max_message_size: size }
    }

    /// The limit in force.
    pub fn max_message_size(&self) -> (size: usize)
        ensures
            size == self.limit(),
    {
        self.max_message_size
    }

    /// Whether the codec lets a frame of this length out: it is within the
    /// limit and fits the four-byte length field.
    pub open spec fn lets_out(&self, length: usize) -> bool {
        length <= self.limit() && length <= u32::MAX
    }

    /// Appends the frame's wire form to `dst`, unless the frame is longer than
    /// the limit or than the length field can say: then nothing is written.
    pub fn encode(&mut self, frame: Frame, dst: &mut BytesMut) -> (r: Result<(), Error>)
        requires
            old(self).lets_out(frame.header.length) ==> buffer_content(*old(dst)).len() + 5
                + frame.payload().len() <= isize::MAX,
        ensures
            final(self).limit() == old(self).limit(),
            !old(self).lets_out(frame.header.length) ==> r == Err::<(), Error>(
                Error::MessageTooLarge(frame.header.length),
            ) && buffer_content(*final(dst)) == buffer_content(*old(dst)),
            old(self).lets_out(frame.header.length) ==> r == Ok::<(), Error>(())
                && buffer_content(*final(dst)) == buffer_content(*old(dst)) + wire_form(
                frame.header.compressed,
                frame.header.length as u32,
                frame.payload(),
            ),
    {
        if frame.len() > self.max_message_size || frame.len() > 0xffff_ffff {
            return Err(Error::MessageTooLarge(frame.len()));
        }
        frame.encode(dst);
        Ok(())
    }

    /// Takes one whole frame from the front of `src`. Where no whole frame has
    /// arrived, `src` stays as it is and the answer is `Ok(None)`. A whole frame
    /// longer than the limit is taken from `src` and reported as too large.
    pub fn decode(&mut self, src: &mut BytesMut) -> (r: Result<Option<Frame>, Error>)
        ensures
            final(self).limit() == old(self).limit(),
            !holds_frame(buffer_content(*old(src))) ==> r == Ok::<Option<Frame>, Error>(None)
                && buffer_content(*final(src)) == buffer_content(*old(src)),
            holds_frame(buffer_content(*old(src))) ==> buffer_content(*final(src)) == after_front(
                buffer_content(*old(src)),
            ),
            holds_frame(buffer_content(*old(src))) && declared_length(buffer_content(*old(src)))
                > old(self).limit() ==> r == Err::<Option<Frame>, Error>(
                Error::MessageTooLarge(declared_length(buffer_content(*old(src))) as usize),
            ),
            holds_frame(buffer_content(*old(src))) && declared_length(buffer_content(*old(src)))
                <= old(self).limit() ==> (r matches Ok(Some(frame)) && frame.wf()
                && frame.header.compressed == front_compressed(buffer_content(*old(src)))
                && frame.payload() == front_payload(buffer_content(*old(src)))),
    {
        if let Some(frame) = Frame::decode(src) {
            if frame.len() > self.max_message_size {
                return Err(Error::MessageTooLarge(frame.len()));
            }
            Ok(Some(frame))
        } else {
            Ok(None)
        }
    }
}

/// A frame written in front of any bytes `rest` is read back as it was: the
/// same flag, the same payload, and `rest` is what remains. This holds of every
/// payload whose length fits the four-byte length field.
pub proof fn lemma_frame_round_trip(compressed: bool, payload: Seq<u8>, rest: Seq<u8>)
    requires
        payload.len() <= u32::MAX,
    ensures
        holds_frame(wire_form(compressed, payload.len() as u32, payload) + rest),
        front_compressed(wire_form(compressed, payload.len() as u32, payload) + rest)
            == compressed,
        front_payload(wire_form(compressed, payload.len() as u32, payload) + rest) == payload,
        after_front(wire_form(compressed, payload.len() as u32, payload) + rest) == rest,
{
    let n = payload.len() as u32;
    let buf = wire_form(compressed, n, payload) + rest;
    lemma_be_round_trip(n);
    assert(buf[1] == be_bytes(n)[0]);
    assert(buf[2] == be_bytes(n)[1]);
    assert(buf[3] == be_bytes(n)[2]);
    assert(buf[4] == be_bytes(n)[3]);
    assert(declared_length(buf) == payload.len());
    assert(front_payload(buf) =~= payload);
    assert(after_front(buf) =~= rest);
}

/// What `encode` writes into an empty buffer for a frame that carries the
/// length of its payload is what `decode` takes back: a whole frame of the
/// declared length with the same flag and payload, and nothing is left.
pub proof fn lemma_encode_then_decode(frame: Frame)
    requires
        frame.wf(),
        frame.header.length <= u32::MAX,
    ensures
        ({
            let written = Seq::<u8>::empty() + wire_form(
                frame.header.compressed,
                frame.header.length as u32,
                frame.payload(),
            );
            &&& holds_frame(written)
            &&& declared_length(written) == frame.header.length
            &&& front_compressed(written) == frame.header.compressed
            &&& front_payload(written) == frame.payload()
            &&& after_front(written) == Seq::<u8>::empty()
        }),
{
    let wire = wire_form(frame.header.compressed, frame.header.length as u32, frame.payload());
    lemma_frame_round_trip(frame.header.compressed, frame.payload(), Seq::empty());
    assert(Seq::<u8>::empty() + wire =~= wire);
    assert(wire + Seq::<u8>::empty() =~= wire);
    lemma_be_round_trip(frame.header.length as u32);
}

/// Two frames written one after the other come out in the order in which they
/// went in, each with its own flag and payload.
pub proof fn lemma_two_frames_in_order(
    c1: bool,
    p1: Seq<u8>,
    c2: bool,
    p2: Seq<u8>,
    rest: Seq<u8>,
)
    requires
        p1.len() <= u32::MAX,
        p2.len() <= u32::MAX,
    ensures
        ({
            let second = wire_form(c2, p2.len() as u32, p2) + rest;
            let both = wire_form(c1, p1.len() as u32, p1) + second;
            &&& holds_frame(both)
            &&& front_compressed(both) == c1
            &&& front_payload(both) == p1
            &&& holds_frame(after_front(both))
            &&& front_compressed(after_front(both)) == c2
            &&& front_payload(after_front(both)) == p2
            &&& after_front(after_front(both)) == rest
        }),
{
    let second = wire_form(c2, p2.len() as u32, p2) + rest;
    lemma_frame_round_trip(c1, p1, second);
    lemma_frame_round_trip(c2, p2, rest);
}

/// A buffer that does not hold a whole frame is either shorter than the five
/// header bytes or shorter than its declared length asks for.
pub proof fn lemma_partial_input(buf: Seq<u8>)
    ensures
        buf.len() < 5 ==> !holds_frame(buf),
        buf.len() >= 5 && declared_length(buf) > buf.len() - 5 ==> !holds_frame(buf),
{
}

} // verus!

//! One wire message: a flag byte, a big-endian length and the payload.
use vstd::prelude::*;
use bytes::{Bytes, BytesMut};
use crate::codec::buffer::{
    be_bytes, be_value, buffer_advance, buffer_as_slice, buffer_content, buffer_extend,
    buffer_freeze, buffer_put_u32, buffer_put_u8, buffer_split_to, bytes_as_slice, bytes_content,
    read_be_u32,
};

verus! {

/// What precedes a payload on the wire.
#[derive(Debug)]
pub struct FrameHeader {
    pub compressed: bool,
    pub length: usize,
}

/// A single wire message. A frame built by `new` or `decode` carries the length
/// of its payload in its header.
#[derive(Debug)]
pub struct Frame {
    pub header: FrameHeader,
    pub data: Bytes,
}

/// The byte that announces whether a payload is compressed.
pub open spec fn flag_byte(compressed: bool) -> u8 {
    if compressed { 1u8 } else { 0u8 }
}

/// The wire form of a message: flag, length in four big-endian bytes, payload.
pub open spec fn wire_form(compressed: bool, length: u32, payload: Seq<u8>) -> Seq<u8> {
    seq![flag_byte(compressed)] + be_bytes(length) + payload
}

/// The payload length that the first five bytes of `buf` declare.
pub open spec fn declared_length(buf: Seq<u8>) -> int
    recommends
        buf.len() >= 5,
{
    be_value(buf[1], buf[2], buf[3], buf[4]) as int
}

/// Whether `buf` starts with a whole frame.
pub open spec fn holds_frame(buf: Seq<u8>) -> bool {
    buf.len() >= 5 && buf.len() >= 5 + declared_length(buf)
}

/// The compression flag of the frame at the front of `buf`.
pub open spec fn front_compressed(buf: Seq<u8>) -> bool
    recommends
        holds_frame(buf),
{
    buf[0] != 0
}

/// The payload of the frame at the front of `buf`.
pub open spec fn front_payload(buf: Seq<u8>) -> Seq<u8>
    recommends
        holds_frame(buf),
{
    buf.subrange(5, 5 + declared_length(buf))
}

/// What is left of `buf` once the frame at its front is taken.
pub open spec fn after_front(buf: Seq<u8>) -> Seq<u8>
    recommends
        holds_frame(buf),
{
    buf.skip(5 + declared_length(buf))
}

impl Frame {
    /// The payload bytes.
    pub open spec fn payload(&self) -> Seq<u8> {
        bytes_content(self.data)
    }

    /// The header's length is that of the payload.
    pub open spec fn wf(&self) -> bool {
        self.header.length == self.payload().len()
    }

    /// A frame around `data`, with the length of `data` in its header.
    pub fn new(data: Bytes, compressed: bool) -> (frame: Self)
        ensures
            frame.wf(),
            frame.data == data,
            frame.header.compressed == compressed,
            frame.header.length == bytes_content(data).len(),
    {
        let length = data.len();
        Self { header: FrameHeader { compressed, length }, data }
    }

    /// The frame's payload.
    pub fn into_data(self) -> (data: Bytes)
        ensures
            data == self.data,
    {
        self.data
    }

    /// The payload length that the header declares.
    pub fn len(&self) -> (n: usize)
        ensures
            n == self.header.length,
    {
        self.header.length
    }

    /// Whether the header declares an empty payload.
    pub fn is_empty(&self) -> (b: bool)
        ensures
            b == (self.header.length == 0),
    {
        self.len() == 0
    }

    /// Appends the wire form to `dst`. The header's length must fit the
    /// four-byte length field.
    pub fn encode(&self, dst: &mut BytesMut)
        requires
            self.header.length <= u32::MAX,
            buffer_content(*old(dst)).len() + 5 + self.payload().len() <= isize::MAX,
        ensures
            buffer_content(*final(dst)) == buffer_content(*old(dst)) + wire_form(
                self.header.compressed,
                self.header.length as u32,
                self.payload(),
            ),
    {
        let flag: u8 = if self.header.compressed { 1 } else { 0 };
        buffer_put_u8(dst, flag);
        buffer_put_u32(dst, self.header.length as u32);
        buffer_extend(dst, bytes_as_slice(&self.data));
        proof {
            let before = buffer_content(*old(dst));
            assert(before.push(flag) + be_bytes(self.header.length as u32) + self.payload()
                =~= before + wire_form(
                self.header.compressed,
                self.header.length as u32,
                self.payload(),
            ));
        }
    }

    /// Takes one whole frame from the front of `src`, or leaves `src` as it is
    /// where fewer bytes than a whole frame have arrived.
    pub fn decode(src: &mut BytesMut) -> (r: Option<Self>)
        ensures
            r.is_some() == holds_frame(buffer_content(*old(src))),
            r.is_none() ==> buffer_content(*final(src)) == buffer_content(*old(src)),
            r matches Some(frame) ==> {
                &&& frame.wf()
                &&& frame.header.compressed == front_compressed(buffer_content(*old(src)))
                &&& frame.payload() == front_payload(buffer_content(*old(src)))
                &&& buffer_content(*final(src)) == after_front(buffer_content(*old(src)))
            },
    {
        if src.len() < 5 {
            return None;
        }
        let head = buffer_as_slice(src);
        let compressed = head[0] != 0;
        let length = read_be_u32(head[1], head[2], head[3], head[4]) as usize;
        if src.len() - 5 < length {
            return None;
        }
        let ghost whole = buffer_content(*src);
        buffer_advance(src, 5);
        let data = buffer_freeze(buffer_split_to(src, length));
        proof {
            assert(whole.skip(5).take(length as int) =~= front_payload(whole));
            assert(whole.skip(5).skip(length as int) =~= after_front(whole));
        }
        Some(Frame::new(data, compressed))
    }
}

} // verus!

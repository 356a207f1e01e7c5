//! The byte containers that frames are read from and written to, with what the
//! library relies on of each operation it calls on them.
use vstd::prelude::*;
use bytes::{Buf, BufMut, Bytes, BytesMut};

verus! {

#[verifier::external_type_specification]
#[verifier::external_body]
pub struct ExBytes(bytes::Bytes);

#[verifier::external_type_specification]
#[verifier::external_body]
pub struct ExBytesMut(bytes::BytesMut);

/// The bytes that an immutable handle holds, front first.
pub uninterp spec fn bytes_content(b: Bytes) -> Seq<u8>;

/// The bytes that a growable buffer holds, front first.
pub uninterp spec fn buffer_content(b: BytesMut) -> Seq<u8>;

/// The four bytes of `n`, most significant first.
pub open spec fn be_bytes(n: u32) -> Seq<u8> {
    seq![
        (n / 0x100_0000) as u8,
        ((n / 0x1_0000) % 0x100) as u8,
        ((n / 0x100) % 0x100) as u8,
        (n % 0x100) as u8,
    ]
}

/// The number whose big-endian form is the four given bytes.
pub open spec fn be_value(b0: u8, b1: u8, b2: u8, b3: u8) -> u32 {
    (b0 as int * 0x100_0000 + b1 as int * 0x1_0000 + b2 as int * 0x100 + b3 as int) as u32
}

/// Reading back the big-endian form of a number gives the number.
pub proof fn lemma_be_round_trip(n: u32)
    ensures
        be_value(be_bytes(n)[0], be_bytes(n)[1], be_bytes(n)[2], be_bytes(n)[3]) == n,
        be_bytes(n).len() == 4,
{
}

/// Computes `be_value` of four bytes.
pub fn read_be_u32(b0: u8, b1: u8, b2: u8, b3: u8) -> (n: u32)
    ensures
        n == be_value(b0, b1, b2, b3),
{
    let hi: u32 = (b0 as u32) * 0x100_0000 + (b1 as u32) * 0x1_0000;
    let lo: u32 = (b2 as u32) * 0x100 + (b3 as u32);
    hi + lo
}

/// `Bytes::len`: the number of bytes held.
pub assume_specification[ Bytes::len ](b: &Bytes) -> (n: usize)
    ensures
        n == bytes_content(*b).len(),
;

/// `BytesMut::len`: the number of bytes held.
pub assume_specification[ BytesMut::len ](b: &BytesMut) -> (n: usize)
    ensures
        n == buffer_content(*b).len(),
;

/// `Bytes` dereferenced to a slice: the slice holds the handle's bytes.
#[verifier::external_body]
pub(crate) fn bytes_as_slice(b: &Bytes) -> (s: &[u8])
    ensures
        s@ == bytes_content(*b),
{
    b.as_ref()
}

/// `BytesMut` dereferenced to a slice: the slice holds the buffer's bytes.
#[verifier::external_body]
pub(crate) fn buffer_as_slice(b: &BytesMut) -> (s: &[u8])
    ensures
        s@ == buffer_content(*b),
{
    b.as_ref()
}

/// `BufMut::put_u8` on a `BytesMut`: one byte is appended. The buffer grows as
/// needed, up to `isize::MAX` bytes.
#[verifier::external_body]
pub(crate) fn buffer_put_u8(dst: &mut BytesMut, b: u8)
    requires
        buffer_content(*old(dst)).len() + 1 <= isize::MAX,
    ensures
        buffer_content(*final(dst)) == buffer_content(*old(dst)).push(b),
{
    dst.put_u8(b)
}

/// `BufMut::put_u32` on a `BytesMut`: the four bytes of `n` are appended in
/// big-endian order.
#[verifier::external_body]
pub(crate) fn buffer_put_u32(dst: &mut BytesMut, n: u32)
    requires
        buffer_content(*old(dst)).len() + 4 <= isize::MAX,
    ensures
        buffer_content(*final(dst)) == buffer_content(*old(dst)) + be_bytes(n),
{
    dst.put_u32(n)
}

/// `BytesMut::extend_from_slice`: the slice's bytes are appended.
#[verifier::external_body]
pub(crate) fn buffer_extend(dst: &mut BytesMut, extend: &[u8])
    requires
        buffer_content(*old(dst)).len() + extend@.len() <= isize::MAX,
    ensures
        buffer_content(*final(dst)) == buffer_content(*old(dst)) + extend@,
{
    dst.extend_from_slice(extend)
}

/// `Buf::advance` on a `BytesMut`: the first `cnt` bytes are dropped. The call
/// panics where `cnt` exceeds the length, which `requires` leaves out.
#[verifier::external_body]
pub(crate) fn buffer_advance(src: &mut BytesMut, cnt: usize)
    requires
        cnt <= buffer_content(*old(src)).len(),
    ensures
        buffer_content(*final(src)) == buffer_content(*old(src)).skip(cnt as int),
{
    src.advance(cnt)
}

/// `BytesMut::split_to`: the first `at` bytes are handed out and the rest
/// stays. The call panics where `at` exceeds the length.
#[verifier::external_body]
pub(crate) fn buffer_split_to(src: &mut BytesMut, at: usize) -> (head: BytesMut)
    requires
        at <= buffer_content(*old(src)).len(),
    ensures
        buffer_content(head) == buffer_content(*old(src)).take(at as int),
        buffer_content(*final(src)) == buffer_content(*old(src)).skip(at as int),
{
    src.split_to(at)
}

/// `BytesMut::freeze`: the same bytes behind an immutable handle.
#[verifier::external_body]
pub(crate) fn buffer_freeze(b: BytesMut) -> (r: Bytes)
    ensures
        bytes_content(r) == buffer_content(b),
{
    b.freeze()
}

} // verus!

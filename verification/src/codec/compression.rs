//! Compression strategies: pass-through and gzip.
use vstd::prelude::*;
use crate::error::Error;
use flate2::read::GzDecoder;
use flate2::write::GzEncoder;
use std::io::{Read, Write};

verus! {

/// The encoding identifiers a peer may announce.
#[derive(Debug, Clone, Copy)]
pub enum CompressionEncoding {
    Identity,
    Gzip,
    Deflate,
}

/// What reading the gzip stream `data` to its end yields: the bytes it
/// holds, or `None` where the reader reports an error.
pub uninterp spec fn gzip_decoded(data: Seq<u8>) -> Option<Seq<u8>>;

/// What the gzip writer makes of `data` at the default level: the stream it
/// emits, or `None` where it reports an error.
pub uninterp spec fn gzip_encoded(data: Seq<u8>) -> Option<Seq<u8>>;

/// A way to shrink a message and to restore it.
pub trait Compression {
    /// Whether `packed` is a compressed form of `data` under this strategy.
    spec fn packs(&self, data: Seq<u8>, packed: Seq<u8>) -> bool;

    /// What `packed` restores to, if it restores to anything.
    spec fn unpacked(&self, packed: Seq<u8>) -> Option<Seq<u8>>;

    /// A compressed form of `data`, or the error of the writer underneath.
    fn compress(&self, data: &[u8]) -> (r: Result<Vec<u8>, Error>)
        ensures
            r matches Ok(packed) ==> self.packs(data@, packed@),
    ;

    /// What `data` restores to; an error where it restores to nothing.
    fn decompress(&self, data: &[u8]) -> (r: Result<Vec<u8>, Error>)
        ensures
            r matches Ok(restored) ==> self.unpacked(data@) == Some(restored@),
            r is Err ==> self.unpacked(data@) is None,
    ;

    /// Restoring a compressed form gives the original bytes.
    proof fn round_trip(&self, data: Seq<u8>, packed: Seq<u8>)
        requires
            self.packs(data, packed),
        ensures
            self.unpacked(packed) == Some(data),
    ;
}

/// Compression in the gzip container.
#[derive(Debug)]
pub struct GzipCompression;

/// The pass-through strategy: bytes go out as they came in.
#[derive(Debug)]
pub struct NoCompression;

/// `GzEncoder::new` on an empty `Vec` at the default level, `write_all` of the
/// input and `finish`. The outcome depends on the input alone. On success the
/// output is a gzip stream that reads back as the input: it opens with the two
/// magic bytes of the ten-byte header and closes with the eight-byte trailer.
/// An error of the writer is handed on.
#[verifier::external_body]
fn gzip_encode(data: &[u8]) -> (r: Result<Vec<u8>, std::io::Error>)
    ensures
        r matches Ok(packed) ==> gzip_encoded(data@) == Some(packed@) && gzip_decoded(packed@)
            == Some(data@) && packed@.len() >= 18 && packed@[0] == 0x1f && packed@[1] == 0x8b,
        r is Err ==> gzip_encoded(data@) is None,
{
    let mut encoder = GzEncoder::new(Vec::new(), flate2::Compression::default());
    encoder.write_all(data)?;
    encoder.finish()
}

/// `GzDecoder::new` on the input and `read_to_end`: the bytes of the stream, or
/// the reader's error.
#[verifier::external_body]
fn gzip_decode(data: &[u8]) -> (r: Result<Vec<u8>, std::io::Error>)
    ensures
        r matches Ok(restored) ==> gzip_decoded(data@) == Some(restored@),
        r is Err ==> gzip_decoded(data@) is None,
{
    let mut decoder = GzDecoder::new(data);
    let mut buf = Vec::new();
    decoder.read_to_end(&mut buf)?;
    Ok(buf)
}

/// Copies a slice into a new vector.
fn copy_of(data: &[u8]) -> (out: Vec<u8>)
    ensures
        out@ == data@,
{
    let mut out: Vec<u8> = Vec::new();
    let mut i: usize = 0;
    while i < data.len()
        invariant
            i <= data.len(),
            out@ == data@.take(i as int),
        decreases data.len() - i,
    {
        out.push(data[i]);
        assert(data@.take(i as int).push(data@[i as int]) =~= data@.take(i + 1));
        i += 1;
    }
    assert(data@.take(data.len() as int) =~= data@);
    out
}

impl Compression for GzipCompression {
    open spec fn packs(&self, data: Seq<u8>, packed: Seq<u8>) -> bool {
        gzip_decoded(packed) == Some(data)
    }

    open spec fn unpacked(&self, packed: Seq<u8>) -> Option<Seq<u8>> {
        gzip_decoded(packed)
    }

    fn compress(&self, data: &[u8]) -> (r: Result<Vec<u8>, Error>)
        ensures
            r matches Ok(packed) ==> gzip_encoded(data@) == Some(packed@) && packed@.len() >= 18
                && packed@[0] == 0x1f && packed@[1] == 0x8b,
            r matches Err(e) ==> e is Io && gzip_encoded(data@) is None,
    {
        match gzip_encode(data) {
            Ok(packed) => Ok(packed),
            Err(e) => Err(Error::Io(e)),
        }
    }

    fn decompress(&self, data: &[u8]) -> (r: Result<Vec<u8>, Error>)
        ensures
            r matches Err(e) ==> e is Io,
    {
        match gzip_decode(data) {
            Ok(restored) => Ok(restored),
            Err(e) => Err(Error::Io(e)),
        }
    }

    proof fn round_trip(&self, data: Seq<u8>, packed: Seq<u8>) {
    }
}

impl Compression for NoCompression {
    open spec fn packs(&self, data: Seq<u8>, packed: Seq<u8>) -> bool {
        packed == data
    }

    open spec fn unpacked(&self, packed: Seq<u8>) -> Option<Seq<u8>> {
        Some(packed)
    }

    fn compress(&self, data: &[u8]) -> (r: Result<Vec<u8>, Error>)
        ensures
            r matches Ok(packed) && packed@ == data@,
    {
        Ok(copy_of(data))
    }

    fn decompress(&self, data: &[u8]) -> (r: Result<Vec<u8>, Error>)
        ensures
            r matches Ok(restored) && restored@ == data@,
    {
        Ok(copy_of(data))
    }

    proof fn round_trip(&self, data: Seq<u8>, packed: Seq<u8>) {
    }
}

} // verus!

use vstd::prelude::*;
use std::io::Write;
use flate2::Compression;
use flate2::write::{DeflateEncoder, GzEncoder};
use brotli2::write::BrotliEncoder;
use crate::framing::{BodyError, TransferEncoding, framed, frame_error, after_write};
use crate::request::ContentEncoding;

verus! {

/// A deflate stream writing into a vector.
#[verifier::external_body]
pub struct DeflateStream {
    inner: DeflateEncoder<Vec<u8>>,
}

/// A gzip stream writing into a vector.
#[verifier::external_body]
pub struct GzipStream {
    inner: GzEncoder<Vec<u8>>,
}

/// A brotli stream writing into a vector.
#[verifier::external_body]
pub struct BrotliStream {
    inner: BrotliEncoder<Vec<u8>>,
}

/// Relies on flate2::write::DeflateEncoder::new, at the default level,
/// writing into an empty vector.
#[verifier::external_body]
fn deflate_new() -> DeflateStream {
    DeflateStream { inner: DeflateEncoder::new(Vec::new(), Compression::default()) }
}

/// Relies on DeflateEncoder's `write_all`; hands out what the encoder has
/// written to its vector so far, or `None` on a codec error.
#[verifier::external_body]
fn deflate_write(e: &mut DeflateStream, data: &[u8]) -> Option<Vec<u8>> {
    match e.inner.write_all(data) {
        Ok(()) => Some(std::mem::take(e.inner.get_mut())),
        Err(_) => None,
    }
}

/// Relies on flate2::write::DeflateEncoder::finish, which consumes the
/// stream; hands out the remaining output, or `None` on a codec error.
#[verifier::external_body]
fn deflate_finish(e: DeflateStream) -> Option<Vec<u8>> {
    match e.inner.finish() {
        Ok(v) => Some(v),
        Err(_) => None,
    }
}

/// Relies on flate2::write::GzEncoder::new, at the default level, writing
/// into an empty vector.
#[verifier::external_body]
fn gzip_new() -> GzipStream {
    GzipStream { inner: GzEncoder::new(Vec::new(), Compression::default()) }
}

/// Relies on GzEncoder's `write_all`; hands out what the encoder has
/// written to its vector so far, or `None` on a codec error.
#[verifier::external_body]
fn gzip_write(e: &mut GzipStream, data: &[u8]) -> Option<Vec<u8>> {
    match e.inner.write_all(data) {
        Ok(()) => Some(std::mem::take(e.inner.get_mut())),
        Err(_) => None,
    }
}

/// Relies on flate2::write::GzEncoder::finish, which consumes the stream;
/// hands out the remaining output, the gzip trailer included, or `None` on
/// a codec error.
#[verifier::external_body]
fn gzip_finish(e: GzipStream) -> Option<Vec<u8>> {
    match e.inner.finish() {
        Ok(v) => Some(v),
        Err(_) => None,
    }
}

/// Relies on brotli2::write::BrotliEncoder::new at level 5, writing into an
/// empty vector.
#[verifier::external_body]
fn brotli_new() -> BrotliStream {
    BrotliStream { inner: BrotliEncoder::new(Vec::new(), 5) }
}

/// Relies on BrotliEncoder's `write_all`; hands out what the encoder has
/// written to its vector so far, or `None` on a codec error.
#[verifier::external_body]
fn brotli_write(e: &mut BrotliStream, data: &[u8]) -> Option<Vec<u8>> {
    match e.inner.write_all(data) {
        Ok(()) => Some(std::mem::take(e.inner.get_mut())),
        Err(_) => None,
    }
}

/// Relies on brotli2::write::BrotliEncoder::finish; hands out the rest of
/// the output, or `None` on a codec error.
#[verifier::external_body]
fn brotli_finish(e: BrotliStream) -> Option<Vec<u8>> {
    match e.inner.finish() {
        Ok(v) => Some(v),
        Err(_) => None,
    }
}

/// A compression codec in progress.
pub enum Codec {
    Identity,
    Deflate(DeflateStream),
    Gzip(GzipStream),
    Br(BrotliStream),
}

impl Codec {
    pub open spec fn kind(&self) -> ContentEncoding {
        match self {
            Codec::Identity => ContentEncoding::Identity,
            Codec::Deflate(_) => ContentEncoding::Deflate,
            Codec::Gzip(_) => ContentEncoding::Gzip,
            Codec::Br(_) => ContentEncoding::Br,
        }
    }

    /// A fresh codec for `e`; `Auto` and `Identity` leave bytes as they are.
    pub fn new(e: ContentEncoding) -> (r: Codec)
        ensures
            r.kind() == (match e {
                ContentEncoding::Auto => ContentEncoding::Identity,
                _ => e,
            }),
    {
        match e {
            ContentEncoding::Deflate => Codec::Deflate(deflate_new()),
            ContentEncoding::Gzip => Codec::Gzip(gzip_new()),
            ContentEncoding::Br => Codec::Br(brotli_new()),
            ContentEncoding::Identity | ContentEncoding::Auto => Codec::Identity,
        }
    }
}

/// The framer moved from `t0` to `t1`, and `b0` to `b1`, on some payload.
pub open spec fn framed_some(
    t0: TransferEncoding,
    t1: TransferEncoding,
    b0: Seq<u8>,
    b1: Seq<u8>,
) -> bool {
    exists|p: Seq<u8>| b1 == b0 + framed(t0, p) && t1 == after_write(t0, p)
}

proof fn lemma_frame_nothing(t: TransferEncoding, b: Seq<u8>)
    ensures
        framed_some(t, t, b, b),
{
    let p = Seq::<u8>::empty();
    assert(b + framed(t, p) =~= b);
    assert(after_write(t, p) == t);
}

/// A content codec feeding a transfer framer.
pub struct ContentEncoder {
    pub codec: Codec,
    pub transfer: TransferEncoding,
}

impl ContentEncoder {
    pub fn new(e: ContentEncoding, transfer: TransferEncoding) -> (r: ContentEncoder)
        ensures
            r.transfer == transfer,
            r.codec.kind() == (match e {
                ContentEncoding::Auto => ContentEncoding::Identity,
                _ => e,
            }),
    {
        ContentEncoder { codec: Codec::new(e), transfer }
    }

    /// Feeds the framer the codec's output, reporting a codec failure.
    fn frame_output(
        transfer: &mut TransferEncoding,
        buf: &mut Vec<u8>,
        out: Option<Vec<u8>>,
    ) -> (r: Result<(), BodyError>)
        ensures
            framed_some(*old(transfer), *final(transfer), old(buf)@, final(buf)@),
            out is None ==> r == Err::<(), BodyError>(BodyError::Encoding),
            out is None ==> final(buf)@ == old(buf)@ && *final(transfer) == *old(transfer),
    {
        match out {
            Some(bytes) => {
                let r = transfer.write(buf, bytes.as_slice());
                assert(final(buf)@ == old(buf)@ + framed(*old(transfer), bytes@));
                r
            },
            None => {
                proof {
                    lemma_frame_nothing(*transfer, buf@);
                }
                Err(BodyError::Encoding)
            },
        }
    }

    /// Passes `data` through the codec and the framer onto `buf`. Without
    /// compression the bytes are framed as they are.
    pub fn write(&mut self, buf: &mut Vec<u8>, data: &[u8]) -> (r: Result<(), BodyError>)
        ensures
            final(self).codec.kind() == old(self).codec.kind(),
            old(self).codec.kind() == ContentEncoding::Identity ==> {
                &&& final(buf)@ == old(buf)@ + framed(old(self).transfer, data@)
                &&& final(self).transfer == after_write(old(self).transfer, data@)
                &&& r == (match frame_error(old(self).transfer, data@) {
                    Some(e) => Err(e),
                    None => Ok(()),
                })
            },
            framed_some(old(self).transfer, final(self).transfer, old(buf)@, final(buf)@),
    {
        match &mut self.codec {
            Codec::Identity => {
                let r = self.transfer.write(buf, data);
                assert(final(buf)@ == old(buf)@ + framed(old(self).transfer, data@));
                r
            },
            Codec::Deflate(e) => {
                let out = deflate_write(e, data);
                Self::frame_output(&mut self.transfer, buf, out)
            },
            Codec::Gzip(e) => {
                let out = gzip_write(e, data);
                Self::frame_output(&mut self.transfer, buf, out)
            },
            Codec::Br(e) => {
                let out = brotli_write(e, data);
                Self::frame_output(&mut self.transfer, buf, out)
            },
        }
    }

    /// Flushes the codec's trailer, then terminates the framing. The codec
    /// is spent afterwards and passes bytes through unchanged.
    pub fn write_eof(&mut self, buf: &mut Vec<u8>) -> (r: Result<(), BodyError>)
        ensures
            final(self).codec.kind() == ContentEncoding::Identity,
            old(self).codec.kind() == ContentEncoding::Identity ==> {
                &&& final(buf)@ == old(buf)@ + old(self).transfer.eof_bytes()
                &&& final(self).transfer == old(self).transfer.after_eof()
                &&& (r is Ok <==> old(self).transfer.after_eof().spec_is_eof())
                &&& (r is Err ==> r == Err::<(), BodyError>(BodyError::Incomplete))
            },
            r is Ok ==> final(self).transfer.spec_is_eof(),
            r is Ok ==> exists|t: Seq<u8>| final(buf)@ == old(buf)@ + framed(old(self).transfer, t)
                + after_write(old(self).transfer, t).eof_bytes(),
    {
        let mut codec = Codec::Identity;
        std::mem::swap(&mut codec, &mut self.codec);
        let tail: Option<Vec<u8>> = match codec {
            Codec::Identity => Some(Vec::new()),
            Codec::Deflate(e) => deflate_finish(e),
            Codec::Gzip(e) => gzip_finish(e),
            Codec::Br(e) => brotli_finish(e),
        };
        match tail {
            Some(bytes) => {
                let ghost t0 = self.transfer;
                if bytes.len() > 0 {
                    let r = self.transfer.write(buf, bytes.as_slice());
                    if r.is_err() {
                        return r;
                    }
                } else {
                    assert(framed(t0, bytes@) =~= seq![]);
                    assert(buf@ =~= old(buf)@ + framed(t0, bytes@));
                }
                let r = self.transfer.write_eof(buf);
                assert(buf@ == old(buf)@ + framed(t0, bytes@) + after_write(t0, bytes@).eof_bytes());
                r
            },
            None => Err(BodyError::Encoding),
        }
    }

    /// True once the framer owes no further bytes.
    pub fn is_eof(&self) -> (r: bool)
        ensures
            r == self.transfer.spec_is_eof(),
    {
        self.transfer.is_eof()
    }
}

} // verus!

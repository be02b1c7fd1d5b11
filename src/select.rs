use vstd::prelude::*;
use crate::codec::ContentEncoder;
use crate::framing::{BodyError, TransferEncoding};
use crate::request::{
    Body, ClientRequest, ContentEncoding, Hdr, Version, encoding_name, inserted, is_compression,
    lookup, parsed_u64, push_decimal, decimal, removed, parse_u64,
};

verus! {

pub open spec fn content_length() -> Seq<u8> {
    seq![99u8, 111, 110, 116, 101, 110, 116, 45, 108, 101, 110, 103, 116, 104]
}

/// `content-length`
pub fn content_length_bytes() -> (r: Vec<u8>)
    ensures
        r@ == content_length(),
{
    let r: Vec<u8> = vec![99u8, 111, 110, 116, 101, 110, 116, 45, 108, 101, 110, 103, 116, 104];
    assert(r@ =~= content_length());
    r
}

pub open spec fn transfer_encoding() -> Seq<u8> {
    seq![116u8, 114, 97, 110, 115, 102, 101, 114, 45, 101, 110, 99, 111, 100, 105, 110, 103]
}

/// `transfer-encoding`
pub fn transfer_encoding_bytes() -> (r: Vec<u8>)
    ensures
        r@ == transfer_encoding(),
{
    let r: Vec<u8> = vec![116u8, 114, 97, 110, 115, 102, 101, 114, 45, 101, 110, 99, 111, 100, 105, 110, 103];
    assert(r@ =~= transfer_encoding());
    r
}

pub open spec fn content_encoding() -> Seq<u8> {
    seq![99u8, 111, 110, 116, 101, 110, 116, 45, 101, 110, 99, 111, 100, 105, 110, 103]
}

/// `content-encoding`
pub fn content_encoding_bytes() -> (r: Vec<u8>)
    ensures
        r@ == content_encoding(),
{
    let r: Vec<u8> = vec![99u8, 111, 110, 116, 101, 110, 116, 45, 101, 110, 99, 111, 100, 105, 110, 103];
    assert(r@ =~= content_encoding());
    r
}

pub open spec fn connection() -> Seq<u8> {
    seq![99u8, 111, 110, 110, 101, 99, 116, 105, 111, 110]
}

/// `connection`
pub fn connection_bytes() -> (r: Vec<u8>)
    ensures
        r@ == connection(),
{
    let r: Vec<u8> = vec![99u8, 111, 110, 110, 101, 99, 116, 105, 111, 110];
    assert(r@ =~= connection());
    r
}

pub open spec fn upgrade_token() -> Seq<u8> {
    seq![117u8, 112, 103, 114, 97, 100, 101]
}

/// `upgrade`
pub fn upgrade_token_bytes() -> (r: Vec<u8>)
    ensures
        r@ == upgrade_token(),
{
    let r: Vec<u8> = vec![117u8, 112, 103, 114, 97, 100, 101];
    assert(r@ =~= upgrade_token());
    r
}

pub open spec fn chunked_token() -> Seq<u8> {
    seq![99u8, 104, 117, 110, 107, 101, 100]
}

/// `chunked`
pub fn chunked_token_bytes() -> (r: Vec<u8>)
    ensures
        r@ == chunked_token(),
{
    let r: Vec<u8> = vec![99u8, 104, 117, 110, 107, 101, 100];
    assert(r@ =~= chunked_token());
    r
}

pub open spec fn date_name() -> Seq<u8> {
    seq![100u8, 97, 116, 101]
}

/// `date`
pub fn date_name_bytes() -> (r: Vec<u8>)
    ensures
        r@ == date_name(),
{
    let r: Vec<u8> = vec![100u8, 97, 116, 101];
    assert(r@ =~= date_name());
    r
}

/// Something the caller should log; the request goes on regardless.
#[derive(Debug, Clone, Copy, PartialEq, Eq, Structural)]
pub enum Warning {
    /// `Content-Length` did not hold a number; the length is treated as
    /// unknown. The value stays in the request's headers.
    MalformedContentLength,
    /// The version does not allow an upgrade; `Connection: upgrade` was left out.
    UpgradeForbidden,
}

/// Headers and framing for a streamed body of unknown length: chunked
/// where the version has chunked framing (HTTP/1.1), else until close.
pub open spec fn unknown_length_plan(v: Version, h: Seq<Hdr>) -> (Seq<Hdr>, TransferEncoding) {
    if v == Version::Http11 {
        (inserted(h, transfer_encoding(), chunked_token()), TransferEncoding::Chunked { done: false })
    } else {
        (removed(h, transfer_encoding()), TransferEncoding::Eof)
    }
}

/// Headers and framing for a streamed body that is no upgrade.
pub open spec fn streaming_plan(v: Version, chunked: bool, h: Seq<Hdr>) -> (Seq<Hdr>, TransferEncoding, Option<Warning>) {
    if chunked {
        let u = unknown_length_plan(v, removed(h, content_length()));
        (u.0, u.1, None)
    } else {
        match lookup(h, content_length()) {
            Some(val) => match parsed_u64(val) {
                Some(n) => (h, TransferEncoding::Length(n), None),
                None => {
                    let u = unknown_length_plan(v, h);
                    (u.0, u.1, Some(Warning::MalformedContentLength))
                },
            },
            None => {
                let u = unknown_length_plan(v, h);
                (u.0, u.1, None)
            },
        }
    }
}

/// Headers after an upgrade was asked for on a streamed body.
pub open spec fn upgrade_headers(v: Version, h: Seq<Hdr>) -> Seq<Hdr> {
    let h1 = if v == Version::Http2 { h } else { inserted(h, connection(), upgrade_token()) };
    removed(h1, content_encoding())
}

/// Adds `Content-Encoding` when `e` compresses.
pub open spec fn with_encoding(h: Seq<Hdr>, e: ContentEncoding) -> Seq<Hdr> {
    if is_compression(e) { inserted(h, content_encoding(), encoding_name(e)) } else { h }
}

/// The codec that bytes pass through, for a requested encoding.
pub open spec fn codec_of(e: ContentEncoding) -> ContentEncoding {
    match e {
        ContentEncoding::Auto => ContentEncoding::Identity,
        _ => e,
    }
}

/// The selection for every request but a binary body to be compressed:
/// headers, framing, codec and warning.
pub open spec fn plan(r: ClientRequest) -> (Seq<Hdr>, TransferEncoding, ContentEncoding, Option<Warning>) {
    let h = r.headers@;
    let e = r.encoding;
    match r.body {
        Body::Empty => (with_encoding(removed(h, content_length()), e), TransferEncoding::Length(0), codec_of(e), None),
        Body::Binary(b) => (inserted(h, content_length(), decimal(b@.len())), TransferEncoding::Eof, codec_of(e), None),
        _ => if r.upgrade {
            (
                upgrade_headers(r.version, h),
                TransferEncoding::Eof,
                ContentEncoding::Identity,
                if r.version == Version::Http2 { Some(Warning::UpgradeForbidden) } else { None },
            )
        } else {
            let s = streaming_plan(r.version, r.chunked, h);
            (with_encoding(s.0, e), s.1, codec_of(e), s.2)
        },
    }
}

/// Headers of a binary body compressed by `e` into `c`.
pub open spec fn compressed_headers(h: Seq<Hdr>, e: ContentEncoding, c: Seq<u8>) -> Seq<Hdr> {
    inserted(inserted(h, content_encoding(), encoding_name(e)), content_length(), decimal(c.len()))
}

/// Everything of a request but its headers and body.
pub open spec fn same_line(a: ClientRequest, b: ClientRequest) -> bool {
    &&& a.method == b.method
    &&& a.path == b.path
    &&& a.version == b.version
    &&& a.upgrade == b.upgrade
    &&& a.chunked == b.chunked
    &&& a.encoding == b.encoding
}

pub open spec fn compresses_binary(r: ClientRequest) -> bool {
    r.body is Binary && is_compression(r.encoding)
}

/// Framing for a body of unknown length, with its `Transfer-Encoding`.
fn unknown_length(req: &mut ClientRequest) -> (r: TransferEncoding)
    ensures
        same_line(*final(req), *old(req)),
        final(req).body == old(req).body,
        (final(req).headers@, r) == unknown_length_plan(old(req).version, old(req).headers@),
{
    let te = transfer_encoding_bytes();
    if req.version == Version::Http11 {
        let v = chunked_token_bytes();
        req.headers.insert(te.as_slice(), v.as_slice());
        TransferEncoding::chunked()
    } else {
        req.headers.remove(te.as_slice());
        TransferEncoding::eof()
    }
}

/// Framing and header changes for a streamed body that is no upgrade.
pub fn streaming_encoding(req: &mut ClientRequest) -> (r: (TransferEncoding, Option<Warning>))
    ensures
        same_line(*final(req), *old(req)),
        final(req).body == old(req).body,
        (final(req).headers@, r.0, r.1) == streaming_plan(old(req).version, old(req).chunked, old(req).headers@),
{
    let cl = content_length_bytes();
    if req.chunked {
        req.headers.remove(cl.as_slice());
        (unknown_length(req), None)
    } else {
        let len: Option<Option<u64>> = match req.headers.get(cl.as_slice()) {
            Some(v) => Some(parse_u64(v.as_slice())),
            None => None,
        };
        match len {
            Some(Some(n)) => (TransferEncoding::length(n), None),
            Some(None) => (unknown_length(req), Some(Warning::MalformedContentLength)),
            None => (unknown_length(req), None),
        }
    }
}

/// Picks the content codec and the framing for `req`, and brings its
/// headers in line with the choice. A binary body that is to be compressed
/// is compressed here, whole, and sent with its compressed length.
pub fn content_encoder(req: &mut ClientRequest) -> (r: Result<(ContentEncoder, Option<Warning>), BodyError>)
    ensures
        same_line(*final(req), *old(req)),
        !compresses_binary(*old(req)) ==> {
            &&& r is Ok
            &&& final(req).body == old(req).body
            &&& (final(req).headers@, r->Ok_0.0.transfer, r->Ok_0.0.codec.kind(), r->Ok_0.1) == plan(*old(req))
        },
        compresses_binary(*old(req)) ==> match r {
            Ok((enc, w)) => {
                &&& w is None
                &&& enc.transfer == TransferEncoding::Eof
                &&& enc.codec.kind() == ContentEncoding::Identity
                &&& match final(req).body {
                    Body::Binary(c) => final(req).headers@ == compressed_headers(old(req).headers@, old(req).encoding, c@),
                    _ => false,
                }
            },
            Err(e) => e == BodyError::Encoding,
        },
{
    let encoding = req.encoding;
    let mut body = Body::Empty;
    std::mem::swap(&mut body, &mut req.body);
    let cl = content_length_bytes();
    match body {
        Body::Empty => {
            req.headers.remove(cl.as_slice());
            req.body = body;
            set_encoding_header(req, encoding);
            Ok((ContentEncoder::new(encoding, TransferEncoding::length(0)), None))
        },
        Body::Binary(bytes) => {
            if encoding.is_compression() {
                let mut tmp: Vec<u8> = Vec::new();
                let mut enc = ContentEncoder::new(encoding, TransferEncoding::eof());
                let w = enc.write(&mut tmp, bytes.as_slice());
                if w.is_err() {
                    req.body = Body::Binary(bytes);
                    return Err(BodyError::Encoding);
                }
                let f = enc.write_eof(&mut tmp);
                if f.is_err() {
                    req.body = Body::Binary(bytes);
                    return Err(BodyError::Encoding);
                }
                let ce = content_encoding_bytes();
                let name = encoding.as_bytes();
                req.headers.insert(ce.as_slice(), name.as_slice());
                let mut len: Vec<u8> = Vec::new();
                push_decimal(&mut len, tmp.len() as u64);
                req.headers.insert(cl.as_slice(), len.as_slice());
                req.body = Body::Binary(tmp);
                Ok((ContentEncoder::new(ContentEncoding::Identity, TransferEncoding::eof()), None))
            } else {
                let mut len: Vec<u8> = Vec::new();
                push_decimal(&mut len, bytes.len() as u64);
                req.headers.insert(cl.as_slice(), len.as_slice());
                req.body = Body::Binary(bytes);
                Ok((ContentEncoder::new(encoding, TransferEncoding::eof()), None))
            }
        },
        Body::Streaming | Body::Actor => {
            req.body = body;
            if req.upgrade {
                let mut warning: Option<Warning> = None;
                if req.version == Version::Http2 {
                    warning = Some(Warning::UpgradeForbidden);
                } else {
                    let conn = connection_bytes();
                    let up = upgrade_token_bytes();
                    req.headers.insert(conn.as_slice(), up.as_slice());
                }
                let ce = content_encoding_bytes();
                req.headers.remove(ce.as_slice());
                Ok((ContentEncoder::new(ContentEncoding::Identity, TransferEncoding::eof()), warning))
            } else {
                let (transfer, warning) = streaming_encoding(req);
                set_encoding_header(req, encoding);
                Ok((ContentEncoder::new(encoding, transfer), warning))
            }
        },
    }
}

/// Sets `Content-Encoding` to `e` when `e` compresses.
fn set_encoding_header(req: &mut ClientRequest, e: ContentEncoding)
    ensures
        same_line(*final(req), *old(req)),
        final(req).body == old(req).body,
        final(req).headers@ == with_encoding(old(req).headers@, e),
{
    if e.is_compression() {
        let ce = content_encoding_bytes();
        let name = e.as_bytes();
        req.headers.insert(ce.as_slice(), name.as_slice());
    }
}

} // verus!

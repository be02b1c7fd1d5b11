use client_writer::codec::ContentEncoder;
use client_writer::date::CachedDate;
use client_writer::framing::{BodyError, TransferEncoding};
use client_writer::request::{parse_u64, push_decimal, Body, ClientRequest, ContentEncoding, Headers, Version};
use client_writer::select::{content_encoder, Warning};
use client_writer::writer::{HttpClientWriter, WriteOutcome, WriterState};

fn request(version: Version, body: Body, encoding: ContentEncoding) -> ClientRequest {
    ClientRequest {
        method: b"GET".to_vec(),
        path: b"/index".to_vec(),
        version,
        headers: Headers::new(),
        body,
        upgrade: false,
        chunked: false,
        encoding,
    }
}

fn header<'a>(req: &'a ClientRequest, name: &str) -> Option<&'a [u8]> {
    req.headers.get(name.as_bytes()).map(|v| v.as_slice())
}

#[test]
fn chunked_hello_world() {
    let mut t = TransferEncoding::chunked();
    let mut buf = Vec::new();
    assert_eq!(t.write(&mut buf, b"hello"), Ok(()));
    assert_eq!(t.write(&mut buf, b"world"), Ok(()));
    assert!(!t.is_eof());
    assert_eq!(t.write_eof(&mut buf), Ok(()));
    assert!(t.is_eof());
    assert_eq!(buf, b"5\r\nhello\r\n5\r\nworld\r\n0\r\n\r\n".to_vec());
}

#[test]
fn chunked_size_in_upper_hex() {
    let mut t = TransferEncoding::chunked();
    let mut buf = Vec::new();
    let data = vec![b'x'; 26];
    assert_eq!(t.write(&mut buf, &data), Ok(()));
    assert!(buf.starts_with(b"1A\r\n"));
    assert_eq!(buf.len(), 4 + 26 + 2);
}

#[test]
fn chunked_empty_write_adds_nothing() {
    let mut t = TransferEncoding::chunked();
    let mut buf = Vec::new();
    assert_eq!(t.write(&mut buf, b""), Ok(()));
    assert!(buf.is_empty());
}

#[test]
fn length_exact_then_eof() {
    let mut t = TransferEncoding::length(5);
    let mut buf = Vec::new();
    assert_eq!(t.write(&mut buf, b"12345"), Ok(()));
    assert!(t.is_eof());
    assert_eq!(t.write_eof(&mut buf), Ok(()));
    assert_eq!(buf, b"12345".to_vec());
}

#[test]
fn length_sixth_byte_is_overlong() {
    let mut t = TransferEncoding::length(5);
    let mut buf = Vec::new();
    assert_eq!(t.write(&mut buf, b"12345"), Ok(()));
    assert_eq!(t.write(&mut buf, b"6"), Err(BodyError::Overlong));
    assert_eq!(buf, b"12345".to_vec());
}

#[test]
fn length_short_body_is_incomplete() {
    let mut t = TransferEncoding::length(5);
    let mut buf = Vec::new();
    assert_eq!(t.write(&mut buf, b"123"), Ok(()));
    assert_eq!(t.write_eof(&mut buf), Err(BodyError::Incomplete));
}

#[test]
fn eof_framing_passes_bytes() {
    let mut t = TransferEncoding::eof();
    let mut buf = Vec::new();
    assert_eq!(t.write(&mut buf, b"abc"), Ok(()));
    assert!(t.is_eof());
    assert_eq!(buf, b"abc".to_vec());
}

#[test]
fn parse_content_length_values() {
    assert_eq!(parse_u64(b"0"), Some(0));
    assert_eq!(parse_u64(b"1234"), Some(1234));
    assert_eq!(parse_u64(b"+7"), Some(7));
    assert_eq!(parse_u64(b"18446744073709551615"), Some(u64::MAX));
    assert_eq!(parse_u64(b"18446744073709551616"), None);
    assert_eq!(parse_u64(b""), None);
    assert_eq!(parse_u64(b"+"), None);
    assert_eq!(parse_u64(b"12a"), None);
    assert_eq!(parse_u64(b"-1"), None);
}

#[test]
fn decimal_digits() {
    let mut out = Vec::new();
    push_decimal(&mut out, 0);
    assert_eq!(out, b"0".to_vec());
    let mut out = Vec::new();
    push_decimal(&mut out, 1907);
    assert_eq!(out, b"1907".to_vec());
}

fn compressed_binary(enc: ContentEncoding, name: &str) {
    let payload = vec![b'a'; 4096];
    let mut req = request(Version::Http11, Body::Binary(payload.clone()), enc);
    let (encoder, warning) = content_encoder(&mut req).ok().unwrap();
    assert_eq!(warning, None);
    assert_eq!(encoder.transfer, TransferEncoding::Eof);
    let body = match &req.body {
        Body::Binary(b) => b.clone(),
        _ => panic!("body is no longer binary"),
    };
    assert_ne!(body, payload);
    assert!(body.len() < payload.len());
    assert_eq!(header(&req, "content-length"), Some(body.len().to_string().as_bytes()));
    assert_eq!(header(&req, "content-encoding"), Some(name.as_bytes()));
}

#[test]
fn gzip_binary_length_is_compressed_size() {
    compressed_binary(ContentEncoding::Gzip, "gzip");
}

#[test]
fn deflate_binary_length_is_compressed_size() {
    compressed_binary(ContentEncoding::Deflate, "deflate");
}

#[test]
fn brotli_binary_length_is_compressed_size() {
    compressed_binary(ContentEncoding::Br, "br");
}

#[test]
fn gzip_binary_starts_with_magic() {
    let mut req = request(Version::Http11, Body::Binary(b"hello".to_vec()), ContentEncoding::Gzip);
    assert!(content_encoder(&mut req).is_ok());
    match &req.body {
        Body::Binary(b) => assert_eq!(&b[..2], &[0x1f, 0x8b]),
        _ => panic!("body is no longer binary"),
    }
}

#[test]
fn identity_binary_sets_length() {
    let mut req = request(Version::Http11, Body::Binary(b"hello".to_vec()), ContentEncoding::Auto);
    let (_, warning) = content_encoder(&mut req).ok().unwrap();
    assert_eq!(warning, None);
    assert_eq!(header(&req, "content-length"), Some(&b"5"[..]));
    assert_eq!(header(&req, "content-encoding"), None);
    assert_eq!(req.body, Body::Binary(b"hello".to_vec()));
}

#[test]
fn empty_body_drops_stale_length() {
    let mut req = request(Version::Http11, Body::Empty, ContentEncoding::Identity);
    req.headers.insert(b"content-length", b"10");
    let (encoder, _) = content_encoder(&mut req).ok().unwrap();
    assert_eq!(encoder.transfer, TransferEncoding::Length(0));
    assert_eq!(header(&req, "content-length"), None);
}

#[test]
fn upgrade_is_never_compressed() {
    for enc in [ContentEncoding::Gzip, ContentEncoding::Deflate, ContentEncoding::Br, ContentEncoding::Auto] {
        let mut req = request(Version::Http11, Body::Streaming, enc);
        req.upgrade = true;
        req.headers.insert(b"content-encoding", b"gzip");
        let (encoder, warning) = content_encoder(&mut req).ok().unwrap();
        assert_eq!(warning, None);
        assert_eq!(encoder.transfer, TransferEncoding::Eof);
        assert_eq!(header(&req, "content-encoding"), None);
        assert_eq!(header(&req, "connection"), Some(&b"upgrade"[..]));
        let mut e = encoder;
        let mut buf = Vec::new();
        assert_eq!(e.write(&mut buf, b"raw"), Ok(()));
        assert_eq!(buf, b"raw".to_vec());
    }
}

#[test]
fn forbidden_upgrade_warns_and_goes_on() {
    let mut req = request(Version::Http2, Body::Streaming, ContentEncoding::Identity);
    req.upgrade = true;
    let r = content_encoder(&mut req);
    let (encoder, warning) = r.ok().unwrap();
    assert_eq!(warning, Some(Warning::UpgradeForbidden));
    assert_eq!(header(&req, "connection"), None);
    assert_eq!(encoder.transfer, TransferEncoding::Eof);
}

#[test]
fn streaming_with_declared_length() {
    let mut req = request(Version::Http11, Body::Streaming, ContentEncoding::Identity);
    req.headers.insert(b"content-length", b"42");
    let (encoder, warning) = content_encoder(&mut req).ok().unwrap();
    assert_eq!(warning, None);
    assert_eq!(encoder.transfer, TransferEncoding::Length(42));
}

#[test]
fn streaming_with_malformed_length() {
    let mut req = request(Version::Http11, Body::Streaming, ContentEncoding::Identity);
    req.headers.insert(b"content-length", b"4x2");
    let (encoder, warning) = content_encoder(&mut req).ok().unwrap();
    assert_eq!(warning, Some(Warning::MalformedContentLength));
    assert_eq!(encoder.transfer, TransferEncoding::Chunked { done: false });
    assert_eq!(header(&req, "transfer-encoding"), Some(&b"chunked"[..]));
    assert_eq!(header(&req, "content-length"), Some(&b"4x2"[..]));
}

#[test]
fn streaming_with_malformed_length_http10() {
    let mut req = request(Version::Http10, Body::Streaming, ContentEncoding::Identity);
    req.headers.insert(b"content-length", b"-1");
    req.headers.insert(b"transfer-encoding", b"chunked");
    let (encoder, warning) = content_encoder(&mut req).ok().unwrap();
    assert_eq!(warning, Some(Warning::MalformedContentLength));
    assert_eq!(encoder.transfer, TransferEncoding::Eof);
    assert_eq!(header(&req, "transfer-encoding"), None);
}

#[test]
fn declared_chunked_on_http10_is_eof() {
    let mut req = request(Version::Http10, Body::Streaming, ContentEncoding::Identity);
    req.chunked = true;
    req.headers.insert(b"content-length", b"42");
    req.headers.insert(b"transfer-encoding", b"chunked");
    let (encoder, _) = content_encoder(&mut req).ok().unwrap();
    assert_eq!(encoder.transfer, TransferEncoding::Eof);
    assert_eq!(header(&req, "transfer-encoding"), None);
    assert_eq!(header(&req, "content-length"), None);
}

#[test]
fn streaming_unknown_length_http11_is_chunked() {
    let mut req = request(Version::Http11, Body::Actor, ContentEncoding::Gzip);
    let (encoder, _) = content_encoder(&mut req).ok().unwrap();
    assert_eq!(encoder.transfer, TransferEncoding::Chunked { done: false });
    assert_eq!(header(&req, "transfer-encoding"), Some(&b"chunked"[..]));
    assert_eq!(header(&req, "content-encoding"), Some(&b"gzip"[..]));
}

#[test]
fn streaming_unknown_length_http10_is_eof() {
    let mut req = request(Version::Http10, Body::Streaming, ContentEncoding::Identity);
    req.headers.insert(b"transfer-encoding", b"chunked");
    let (encoder, _) = content_encoder(&mut req).ok().unwrap();
    assert_eq!(encoder.transfer, TransferEncoding::Eof);
    assert_eq!(header(&req, "transfer-encoding"), None);
}

#[test]
fn declared_chunked_drops_length() {
    let mut req = request(Version::Http11, Body::Streaming, ContentEncoding::Identity);
    req.chunked = true;
    req.headers.insert(b"content-length", b"42");
    let (encoder, _) = content_encoder(&mut req).ok().unwrap();
    assert_eq!(encoder.transfer, TransferEncoding::Chunked { done: false });
    assert_eq!(header(&req, "content-length"), None);
    assert_eq!(header(&req, "transfer-encoding"), Some(&b"chunked"[..]));
}

#[test]
fn declared_chunked_on_http2_is_eof() {
    let mut req = request(Version::Http2, Body::Streaming, ContentEncoding::Identity);
    req.chunked = true;
    req.headers.insert(b"transfer-encoding", b"chunked");
    let (encoder, _) = content_encoder(&mut req).ok().unwrap();
    assert_eq!(encoder.transfer, TransferEncoding::Eof);
    assert_eq!(header(&req, "transfer-encoding"), None);
}

#[test]
fn start_serialises_head_and_body() {
    let mut w = HttpClientWriter::new(Vec::new());
    let mut date = CachedDate::new();
    let mut req = request(Version::Http11, Body::Binary(b"hi".to_vec()), ContentEncoding::Identity);
    req.headers.append(b"date", b"Sun, 06 Nov 1994 08:49:37 GMT");
    assert_eq!(w.start(&mut req, &mut date), Ok(None));
    let expected = b"GET /index HTTP/1.1\r\ndate: Sun, 06 Nov 1994 08:49:37 GMT\r\ncontent-length: 2\r\n\r\nhi".to_vec();
    assert_eq!(w.pending(), &expected[..]);
    assert_eq!(w.written, 2);
    assert_eq!(w.headers_size as usize, expected.len() - 2);
    assert_eq!(req.body, Body::Empty);
    assert!(w.started);
}

#[test]
fn start_adds_date_when_absent() {
    let mut w = HttpClientWriter::new(Vec::new());
    let mut date = CachedDate::new();
    let mut req = request(Version::Http10, Body::Empty, ContentEncoding::Identity);
    assert_eq!(w.start(&mut req, &mut date), Ok(None));
    let out = w.pending().to_vec();
    let prefix = b"GET /index HTTP/1.0\r\ndate: ".to_vec();
    assert!(out.starts_with(&prefix));
    assert_eq!(out.len(), prefix.len() + 29 + 4);
    assert!(out.ends_with(b" GMT\r\n\r\n"));
    assert_eq!(w.write_eof(), Ok(()));
}

#[test]
fn writer_chunked_stream() {
    let mut w = HttpClientWriter::new(Vec::new());
    let mut date = CachedDate::new();
    let mut req = request(Version::Http11, Body::Streaming, ContentEncoding::Identity);
    req.headers.append(b"date", b"x");
    assert_eq!(w.start(&mut req, &mut date), Ok(None));
    let head = w.pending().len();
    assert_eq!(w.write(b"hello"), Ok(WriterState::Done));
    assert_eq!(w.write(b"world"), Ok(WriterState::Done));
    assert_eq!(w.write_eof(), Ok(()));
    assert_eq!(&w.pending()[head..], &b"5\r\nhello\r\n5\r\nworld\r\n0\r\n\r\n"[..]);
    assert_eq!(w.written, 10);
}

#[test]
fn writer_length_overlong_and_incomplete() {
    let mut w = HttpClientWriter::new(Vec::new());
    let mut date = CachedDate::new();
    let mut req = request(Version::Http11, Body::Streaming, ContentEncoding::Identity);
    req.headers.append(b"date", b"x");
    req.headers.append(b"content-length", b"5");
    assert_eq!(w.start(&mut req, &mut date), Ok(None));
    assert_eq!(w.write(b"123"), Ok(WriterState::Done));
    assert_eq!(w.write_eof(), Err(BodyError::Incomplete));
    assert_eq!(w.write(b"456"), Err(BodyError::Overlong));
}

#[test]
fn upgraded_writer_passes_bytes_raw() {
    let mut w = HttpClientWriter::new(Vec::new());
    let mut date = CachedDate::new();
    let mut req = request(Version::Http11, Body::Streaming, ContentEncoding::Gzip);
    req.upgrade = true;
    req.headers.append(b"date", b"x");
    assert_eq!(w.start(&mut req, &mut date), Ok(None));
    assert!(w.upgrade);
    let head = w.pending().len();
    assert_eq!(w.write(b"frame"), Ok(WriterState::Done));
    assert_eq!(&w.pending()[head..], &b"frame"[..]);
    assert!(!w.keepalive());
}

#[test]
fn backpressure_pauses_then_resumes() {
    let mut w = HttpClientWriter::new(Vec::new());
    w.set_buffer_capacity(4, 8);
    assert_eq!(w.write(b"0123456789"), Ok(WriterState::Pause));
    assert_eq!(w.on_write(WriteOutcome::WouldBlock), Some(WriterState::Pause));
    assert_eq!(w.on_write(WriteOutcome::Written(3)), None);
    assert_eq!(w.pending(), &b"3456789"[..]);
    assert_eq!(w.on_write(WriteOutcome::WouldBlock), Some(WriterState::Done));
    assert_eq!(w.on_write(WriteOutcome::Written(7)), Some(WriterState::Done));
    assert!(w.pending().is_empty());
}

#[test]
fn zero_write_disconnects() {
    let mut w = HttpClientWriter::new(Vec::new());
    assert_eq!(w.write(b"abc"), Ok(WriterState::Done));
    assert_eq!(w.on_write(WriteOutcome::Written(0)), Some(WriterState::Done));
    assert!(w.disconnected);
    assert!(w.pending().is_empty());
    assert_eq!(w.write(b"more"), Ok(WriterState::Done));
    assert_eq!(w.written, 7);
    assert!(w.pending().is_empty());
}

#[test]
fn keepalive_needs_no_upgrade() {
    let mut w = HttpClientWriter::new(Vec::new());
    assert!(!w.keepalive());
    w.keepalive = true;
    assert!(w.keepalive());
    w.upgrade = true;
    assert!(!w.keepalive());
}

#[test]
fn date_same_second_is_identical() {
    let mut c = CachedDate::new();
    c.refresh(100, 5);
    let first = c.buffer().to_vec();
    assert_eq!(first, b"Thu, 01 Jan 1970 00:01:40 GMT".to_vec());
    c.refresh(100, 999_999_999);
    assert_eq!(c.buffer(), &first[..]);
    c.refresh(101, 1);
    assert_ne!(c.buffer(), &first[..]);
    assert_eq!(c.buffer(), &b"Thu, 01 Jan 1970 00:01:41 GMT"[..]);
}

#[test]
fn date_current_has_fixed_length() {
    let mut c = CachedDate::new();
    let a = c.current().to_vec();
    assert_eq!(a.len(), 29);
    assert!(a.ends_with(b" GMT"));
}

#[test]
fn gzip_stream_frames_codec_output() {
    let mut e = ContentEncoder::new(ContentEncoding::Gzip, TransferEncoding::eof());
    let mut buf = Vec::new();
    assert_eq!(e.write(&mut buf, b"hello hello hello"), Ok(()));
    assert_eq!(e.write_eof(&mut buf), Ok(()));
    assert!(e.is_eof());
    assert_eq!(&buf[..2], &[0x1f, 0x8b]);
    assert_ne!(buf, b"hello hello hello".to_vec());
}

#[test]
fn header_insert_keeps_first_place() {
    let mut h = Headers::new();
    h.append(b"a", b"1");
    h.append(b"content-length", b"9");
    h.append(b"b", b"2");
    h.append(b"content-length", b"8");
    h.insert(b"content-length", b"5");
    let names: Vec<&[u8]> = h.entries.iter().map(|e| e.0.as_slice()).collect();
    assert_eq!(names, vec![&b"a"[..], &b"content-length"[..], &b"b"[..]]);
    assert_eq!(h.get(b"content-length").map(|v| v.as_slice()), Some(&b"5"[..]));
    h.insert(b"c", b"3");
    assert_eq!(h.len(), 4);
    h.remove(b"content-length");
    assert_eq!(h.len(), 3);
    assert!(!h.contains(b"content-length"));
}

#[test]
fn chunked_gzip_stream_ends_with_zero_chunk() {
    let mut w = HttpClientWriter::new(Vec::new());
    let mut date = CachedDate::new();
    let mut req = request(Version::Http11, Body::Streaming, ContentEncoding::Gzip);
    req.headers.append(b"date", b"x");
    assert_eq!(w.start(&mut req, &mut date), Ok(None));
    let head = w.pending().len();
    assert_eq!(w.write(b"hello hello hello"), Ok(WriterState::Done));
    assert_eq!(w.write_eof(), Ok(()));
    let body = &w.pending()[head..];
    assert!(body.ends_with(b"0\r\n\r\n"));
    assert!(body.len() > 5);
    assert_eq!(w.headers_size as usize, head);
}

use vstd::prelude::*;
use crate::codec::{ContentEncoder, framed_some};
use crate::date::CachedDate;
use crate::framing::{BodyError, TransferEncoding, after_write, crlf, frame_error, framed};
use crate::request::{Body, ClientRequest, ContentEncoding, Hdr, lookup, version_text};
use crate::select::same_line;
use crate::select::{
    Warning, compressed_headers, compresses_binary, content_encoder, date_name, date_name_bytes,
    plan,
};

verus! {

pub const LOW_WATERMARK: usize = 1024;
pub const HIGH_WATERMARK: usize = 8192;
pub const AVERAGE_HEADER_SIZE: usize = 30;

/// What a write asks of its caller.
#[derive(Debug, Clone, Copy, PartialEq, Eq, Structural)]
pub enum WriterState {
    /// Go on.
    Done,
    /// The buffer is over the high watermark: wait until it drains.
    Pause,
}

/// How one nonblocking write to the transport went. Other transport errors
/// never reach the writer: the caller hands them on.
#[derive(Debug, Clone, Copy, PartialEq, Eq, Structural)]
pub enum WriteOutcome {
    /// The transport took this many bytes from the front of the buffer.
    Written(usize),
    /// The transport would block.
    WouldBlock,
}

pub open spec fn sat_add(a: u64, b: nat) -> u64 {
    if a + b <= u64::MAX { (a + b) as u64 } else { u64::MAX }
}

pub open spec fn space() -> Seq<u8> {
    seq![32u8]
}

/// `<name>: <value>\r\n` for each entry, in order.
pub open spec fn headers_text(h: Seq<Hdr>) -> Seq<u8>
    decreases h.len(),
{
    if h.len() == 0 {
        seq![]
    } else {
        headers_text(h.drop_last()) + h.last().0 + seq![58u8, 32u8] + h.last().1 + crlf()
    }
}

/// The serialised request head; `date` is the `Date` value added when the
/// headers hold none.
pub open spec fn head(
    method: Seq<u8>,
    path: Seq<u8>,
    version: crate::request::Version,
    h: Seq<Hdr>,
    date: Option<Seq<u8>>,
) -> Seq<u8> {
    method + space() + path + space() + version_text(version) + crlf() + headers_text(h) + match date {
        Some(d) => date_name() + seq![58u8, 32u8] + d + crlf() + crlf(),
        None => crlf(),
    }
}

/// The buffer and byte count after a write on a disconnected writer: the
/// bytes are counted and dropped.
pub open spec fn write_when_disconnected(buf: Seq<u8>, written: u64, payload: Seq<u8>) -> (Seq<u8>, u64) {
    (buf, sat_add(written, payload.len()))
}

/// Where a would-block leaves a buffer of `len` bytes.
pub open spec fn blocked_state(len: nat, high: nat) -> WriterState {
    if len > high { WriterState::Pause } else { WriterState::Done }
}

/// The buffer after one transport write, and the drain's verdict if it is
/// over (`None`: write again).
pub open spec fn drain_step(buf: Seq<u8>, high: nat, o: WriteOutcome) -> (Seq<u8>, Option<WriterState>) {
    match o {
        WriteOutcome::Written(n) => if n == 0 {
            (seq![], Some(WriterState::Done))
        } else if n >= buf.len() {
            (seq![], Some(WriterState::Done))
        } else {
            (buf.subrange(n as int, buf.len() as int), None)
        },
        WriteOutcome::WouldBlock => (buf, Some(blocked_state(buf.len(), high))),
    }
}

/// The `Date` value a head carries: the cached text, unless the headers
/// hold a `Date` of their own.
pub open spec fn date_for(h: Seq<Hdr>, cached: Seq<u8>) -> Option<Seq<u8>> {
    if lookup(h, date_name()) is None { Some(cached) } else { None }
}

/// The bytes of a body that is already in memory.
pub open spec fn body_bytes(b: Body) -> Seq<u8> {
    match b {
        Body::Binary(v) => v@,
        _ => seq![],
    }
}

/// The body a request keeps once its in-memory bytes were taken.
pub open spec fn body_left(b: Body) -> Body {
    match b {
        Body::Binary(_) => Body::Empty,
        _ => b,
    }
}

/// Room to reserve for a request's head and in-memory body.
fn head_capacity(msg: &ClientRequest) -> usize {
    let n = msg.headers.len();
    let mut hint: usize = 256;
    if n <= 1_000_000 {
        hint = hint + n * AVERAGE_HEADER_SIZE;
    }
    if let Body::Binary(bytes) = &msg.body {
        if bytes.len() <= usize::MAX - hint {
            hint = hint + bytes.len();
        }
    }
    hint
}

/// Serialises one request onto a buffer and drains it to a transport.
pub struct HttpClientWriter {
    pub started: bool,
    pub upgrade: bool,
    pub keepalive: bool,
    pub disconnected: bool,
    pub written: u64,
    pub headers_size: u32,
    pub buffer: Vec<u8>,
    pub encoder: ContentEncoder,
    pub low: usize,
    pub high: usize,
}

impl HttpClientWriter {
    /// A writer over `buf`, with no flag set and the default watermarks.
    pub fn new(buf: Vec<u8>) -> (r: HttpClientWriter)
        ensures
            r.buffer@ == buf@,
            !r.started && !r.upgrade && !r.keepalive && !r.disconnected,
            r.written == 0,
            r.headers_size == 0,
            r.encoder.codec.kind() == ContentEncoding::Identity,
            r.encoder.transfer == TransferEncoding::Eof,
            r.low == LOW_WATERMARK,
            r.high == HIGH_WATERMARK,
    {
        HttpClientWriter {
            started: false,
            upgrade: false,
            keepalive: false,
            disconnected: false,
            written: 0,
            headers_size: 0,
            buffer: buf,
            encoder: ContentEncoder::new(ContentEncoding::Identity, TransferEncoding::eof()),
            low: LOW_WATERMARK,
            high: HIGH_WATERMARK,
        }
    }

    /// The peer is gone: drops what is buffered; later writes add nothing.
    pub fn disconnected(&mut self)
        ensures
            final(self).disconnected,
            final(self).buffer@ == Seq::<u8>::empty(),
            final(self).written == old(self).written,
            final(self).upgrade == old(self).upgrade,
            final(self).keepalive == old(self).keepalive,
            final(self).started == old(self).started,
            final(self).high == old(self).high,
            final(self).encoder == old(self).encoder,
    {
        self.buffer.clear();
        self.disconnected = true;
    }

    /// The connection may be reused.
    pub fn keepalive(&self) -> (r: bool)
        ensures
            r == (self.keepalive && !self.upgrade),
    {
        self.keepalive && !self.upgrade
    }

    /// Sets the write buffer's watermarks.
    pub fn set_buffer_capacity(&mut self, low_watermark: usize, high_watermark: usize)
        ensures
            final(self).low == low_watermark,
            final(self).high == high_watermark,
            final(self).buffer == old(self).buffer,
            final(self).written == old(self).written,
            final(self).disconnected == old(self).disconnected,
            final(self).upgrade == old(self).upgrade,
            final(self).keepalive == old(self).keepalive,
            final(self).started == old(self).started,
            final(self).headers_size == old(self).headers_size,
            final(self).encoder == old(self).encoder,
    {
        self.low = low_watermark;
        self.high = high_watermark;
    }

    /// The bytes waiting for the transport.
    pub fn pending(&self) -> (r: &[u8])
        ensures
            r@ == self.buffer@,
    {
        self.buffer.as_slice()
    }


    /// Appends the request head: the request line, each header, then a
    /// `Date` header from `date` when the headers hold none.
    fn write_head(&mut self, msg: &ClientRequest, date: &mut CachedDate) -> (r: Ghost<Option<Seq<u8>>>)
        requires
            old(date).wf(),
        ensures
            final(date).wf(),
            final(self).buffer@ == old(self).buffer@ + head(msg.method@, msg.path@, msg.version, msg.headers@, r@),
            r@ is Some <==> lookup(msg.headers@, date_name()) is None,
            r@ is Some ==> r@ == Some(final(date).bytes@),
            r@ is None ==> *final(date) == *old(date),
            final(self).encoder == old(self).encoder,
            final(self).written == old(self).written,
            final(self).disconnected == old(self).disconnected,
            final(self).upgrade == old(self).upgrade,
            final(self).started == old(self).started,
            final(self).keepalive == old(self).keepalive,
            final(self).high == old(self).high,
    {
        let ghost b0 = self.buffer@;
        self.buffer.extend_from_slice(msg.method.as_slice());
        self.buffer.push(32);
        self.buffer.extend_from_slice(msg.path.as_slice());
        self.buffer.push(32);
        let v = msg.version.as_bytes();
        self.buffer.extend_from_slice(v.as_slice());
        self.buffer.push(13);
        self.buffer.push(10);
        let ghost line = msg.method@ + space() + msg.path@ + space() + version_text(msg.version) + crlf();
        assert(self.buffer@ =~= b0 + line);
        let ghost h = msg.headers@;
        let mut i: usize = 0;
        while i < msg.headers.entries.len()
            invariant
                i <= msg.headers.entries.len(),
                h == msg.headers@,
                self.buffer@ == b0 + line + headers_text(h.take(i as int)),
                *date == *old(date),
                self.encoder == old(self).encoder,
                self.written == old(self).written,
                self.disconnected == old(self).disconnected,
                self.upgrade == old(self).upgrade,
                self.started == old(self).started,
                self.keepalive == old(self).keepalive,
                self.high == old(self).high,
            decreases msg.headers.entries.len() - i,
        {
            let e = &msg.headers.entries[i];
            assert(h[i as int] == (e.0@, e.1@));
            assert(h.take(i as int + 1).drop_last() =~= h.take(i as int));
            assert(h.take(i as int + 1).last() == h[i as int]);
            self.buffer.extend_from_slice(e.0.as_slice());
            self.buffer.push(58);
            self.buffer.push(32);
            self.buffer.extend_from_slice(e.1.as_slice());
            self.buffer.push(13);
            self.buffer.push(10);
            assert(self.buffer@ =~= b0 + line + headers_text(h.take(i as int + 1)));
            i = i + 1;
        }
        assert(h.take(i as int) =~= h);
        let dn = date_name_bytes();
        if !msg.headers.contains(dn.as_slice()) {
            let ghost before = self.buffer@;
            self.buffer.extend_from_slice(dn.as_slice());
            self.buffer.push(58);
            self.buffer.push(32);
            let d = date.current();
            self.buffer.extend_from_slice(d);
            self.buffer.push(13);
            self.buffer.push(10);
            self.buffer.push(13);
            self.buffer.push(10);
            let ghost g = Some(date.bytes@);
            assert(self.buffer@ =~= before + (date_name() + seq![58u8, 32u8] + date.bytes@ + crlf() + crlf()));
            assert(self.buffer@ =~= old(self).buffer@ + head(msg.method@, msg.path@, msg.version, msg.headers@, g));
            Ghost(g)
        } else {
            let ghost before = self.buffer@;
            self.buffer.push(13);
            self.buffer.push(10);
            assert(self.buffer@ =~= old(self).buffer@ + head(msg.method@, msg.path@, msg.version, msg.headers@, None));
            Ghost(None)
        }
    }

    /// Prepares the encoder for `msg`, writes its head and, if its body is
    /// in memory, the body. The head carries the cached date unless the
    /// headers already hold one.
    pub fn start(&mut self, msg: &mut ClientRequest, date: &mut CachedDate) -> (r: Result<Option<Warning>, BodyError>)
        requires
            old(date).wf(),
        ensures
            final(date).wf(),
            final(self).started,
            same_line(*final(msg), *old(msg)),
            final(self).disconnected == old(self).disconnected,
            final(self).keepalive == old(self).keepalive,
            final(self).high == old(self).high,
            r is Err ==> compresses_binary(*old(msg)) && r == Err::<Option<Warning>, BodyError>(BodyError::Encoding),
            final(self).upgrade == (old(self).upgrade || old(msg).upgrade),
            r is Ok ==> final(msg).body == body_left(old(msg).body),
            !compresses_binary(*old(msg)) ==> {
                let p = plan(*old(msg));
                &&& r is Ok
                &&& r->Ok_0 == p.3
                &&& final(msg).headers@ == p.0
                &&& final(self).encoder.transfer == p.1
                &&& final(self).encoder.codec.kind() == p.2
                &&& final(self).buffer@ == old(self).buffer@ + head(
                    old(msg).method@,
                    old(msg).path@,
                    old(msg).version,
                    p.0,
                    date_for(p.0, final(date).bytes@),
                ) + body_bytes(old(msg).body)
                &&& final(self).headers_size == ((old(self).buffer@.len() + head(
                    old(msg).method@,
                    old(msg).path@,
                    old(msg).version,
                    p.0,
                    date_for(p.0, final(date).bytes@),
                ).len()) % 0x1_0000_0000) as u32
                &&& final(self).written == sat_add(old(self).written, body_bytes(old(msg).body).len())
            },
            compresses_binary(*old(msg)) && r is Ok ==> exists|c: Seq<u8>| {
                &&& final(msg).headers@ == compressed_headers(old(msg).headers@, old(msg).encoding, c)
                &&& final(self).buffer@ == old(self).buffer@ + head(
                    old(msg).method@,
                    old(msg).path@,
                    old(msg).version,
                    final(msg).headers@,
                    date_for(final(msg).headers@, final(date).bytes@),
                ) + c
                &&& final(self).headers_size == ((old(self).buffer@.len() + head(
                    old(msg).method@,
                    old(msg).path@,
                    old(msg).version,
                    final(msg).headers@,
                    date_for(final(msg).headers@, final(date).bytes@),
                ).len()) % 0x1_0000_0000) as u32
                &&& final(self).written == sat_add(old(self).written, c.len())
                &&& r->Ok_0 is None
                &&& final(self).encoder.transfer == TransferEncoding::Eof
                &&& final(self).encoder.codec.kind() == ContentEncoding::Identity
            },
    {
        self.started = true;
        if msg.upgrade {
            self.upgrade = true;
        }
        let ghost m0 = *msg;
        let sel = content_encoder(msg);
        let (enc, warning) = match sel {
            Ok(x) => x,
            Err(e) => {
                return Err(e);
            },
        };
        self.encoder = enc;
        self.buffer.reserve(head_capacity(msg));
        let ghost b0 = self.buffer@;
        let g = self.write_head(msg, date);
        assert(self.buffer@.len() == b0.len() + head(msg.method@, msg.path@, msg.version, msg.headers@, g@).len());
        self.headers_size = (self.buffer.len() as u64 % 0x1_0000_0000u64) as u32;
        let ghost b1 = self.buffer@;
        let mut body = Body::Empty;
        std::mem::swap(&mut body, &mut msg.body);
        match body {
            Body::Binary(bytes) => {
                self.add_written(bytes.len());
                let w = self.encoder.write(&mut self.buffer, bytes.as_slice());
                assert(self.buffer@ == b1 + bytes@);
                if w.is_err() {
                    return Err(BodyError::Encoding);
                }
            },
            other => {
                msg.body = other;
                assert(self.buffer@ =~= b1 + body_bytes(m0.body));
            },
        }
        Ok(warning)
    }

    /// Hands `payload` to the encoder, or straight to the buffer after an
    /// upgrade, or nowhere once disconnected; it is counted either way.
    pub fn write(&mut self, payload: &[u8]) -> (r: Result<WriterState, BodyError>)
        ensures
            final(self).written == sat_add(old(self).written, payload@.len()),
            final(self).disconnected == old(self).disconnected,
            final(self).upgrade == old(self).upgrade,
            final(self).keepalive == old(self).keepalive,
            final(self).high == old(self).high,
            final(self).encoder.codec.kind() == old(self).encoder.codec.kind(),
            old(self).disconnected ==> {
                &&& (final(self).buffer@, final(self).written) == write_when_disconnected(
                    old(self).buffer@,
                    old(self).written,
                    payload@,
                )
                &&& final(self).encoder == old(self).encoder
                &&& r is Ok
            },
            !old(self).disconnected && old(self).upgrade ==> {
                &&& final(self).buffer@ == old(self).buffer@ + payload@
                &&& final(self).encoder == old(self).encoder
                &&& r is Ok
            },
            !old(self).disconnected && !old(self).upgrade ==> framed_some(
                old(self).encoder.transfer,
                final(self).encoder.transfer,
                old(self).buffer@,
                final(self).buffer@,
            ),
            !old(self).disconnected && !old(self).upgrade && old(self).encoder.codec.kind() == ContentEncoding::Identity ==> {
                &&& final(self).buffer@ == old(self).buffer@ + framed(old(self).encoder.transfer, payload@)
                &&& final(self).encoder.transfer == after_write(old(self).encoder.transfer, payload@)
                &&& (r is Err <==> frame_error(old(self).encoder.transfer, payload@) is Some)
                &&& (r is Err ==> r == Err::<WriterState, BodyError>(frame_error(old(self).encoder.transfer, payload@)->Some_0))
            },
            r is Ok ==> r->Ok_0 == blocked_state(final(self).buffer@.len(), final(self).high as nat),
    {
        self.add_written(payload.len());
        if !self.disconnected {
            if self.upgrade {
                self.buffer.extend_from_slice(payload);
            } else {
                let w = self.encoder.write(&mut self.buffer, payload);
                if let Err(e) = w {
                    return Err(e);
                }
            }
        }
        if self.buffer.len() > self.high {
            Ok(WriterState::Pause)
        } else {
            Ok(WriterState::Done)
        }
    }

    /// Finishes the body: the codec's trailer, then the framing's end. Fails
    /// unless the framing then owes nothing more.
    pub fn write_eof(&mut self) -> (r: Result<(), BodyError>)
        ensures
            final(self).written == old(self).written,
            final(self).disconnected == old(self).disconnected,
            final(self).upgrade == old(self).upgrade,
            final(self).high == old(self).high,
            r is Ok ==> final(self).encoder.transfer.spec_is_eof(),
            r is Ok ==> exists|t: Seq<u8>| final(self).buffer@ == old(self).buffer@ + framed(old(self).encoder.transfer, t)
                + after_write(old(self).encoder.transfer, t).eof_bytes(),
            old(self).encoder.codec.kind() == ContentEncoding::Identity ==> {
                &&& final(self).buffer@ == old(self).buffer@ + old(self).encoder.transfer.eof_bytes()
                &&& (r is Ok <==> old(self).encoder.transfer.after_eof().spec_is_eof())
                &&& (r is Err ==> r == Err::<(), BodyError>(BodyError::Incomplete))
            },
    {
        let w = self.encoder.write_eof(&mut self.buffer);
        if let Err(e) = w {
            return Err(e);
        }
        if self.encoder.is_eof() {
            Ok(())
        } else {
            Err(BodyError::Incomplete)
        }
    }

    /// Takes in how one write of the pending bytes to the transport went.
    /// A write of zero bytes means the peer is gone. Returns the verdict of
    /// the drain once it is over, `None` while bytes remain to be written.
    pub fn on_write(&mut self, o: WriteOutcome) -> (r: Option<WriterState>)
        requires
            match o {
                WriteOutcome::Written(n) => n <= old(self).buffer@.len(),
                WriteOutcome::WouldBlock => true,
            },
        ensures
            (final(self).buffer@, r) == drain_step(old(self).buffer@, old(self).high as nat, o),
            final(self).disconnected == (old(self).disconnected || o == WriteOutcome::Written(0)),
            final(self).written == old(self).written,
            final(self).upgrade == old(self).upgrade,
            final(self).keepalive == old(self).keepalive,
            final(self).high == old(self).high,
            final(self).encoder == old(self).encoder,
    {
        match o {
            WriteOutcome::Written(n) => {
                if n == 0 {
                    self.disconnected();
                    Some(WriterState::Done)
                } else {
                    let rest = self.buffer.split_off(n);
                    self.buffer = rest;
                    if self.buffer.len() == 0 {
                        assert(self.buffer@ =~= seq![]);
                        Some(WriterState::Done)
                    } else {
                        None
                    }
                }
            },
            WriteOutcome::WouldBlock => {
                if self.buffer.len() > self.high {
                    Some(WriterState::Pause)
                } else {
                    Some(WriterState::Done)
                }
            },
        }
    }

    fn add_written(&mut self, n: usize)
        ensures
            final(self).written == sat_add(old(self).written, n as nat),
            final(self).buffer == old(self).buffer,
            final(self).encoder == old(self).encoder,
            final(self).disconnected == old(self).disconnected,
            final(self).upgrade == old(self).upgrade,
            final(self).keepalive == old(self).keepalive,
            final(self).started == old(self).started,
            final(self).high == old(self).high,
            final(self).headers_size == old(self).headers_size,
    {
        let n64 = n as u64;
        if self.written <= u64::MAX - n64 {
            self.written = self.written + n64;
        } else {
            self.written = u64::MAX;
        }
    }
}

} // verus!

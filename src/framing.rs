use vstd::prelude::*;

verus! {

/// Why a body could not be framed.
#[derive(Debug, Clone, Copy, PartialEq, Eq, Structural)]
pub enum BodyError {
    /// More bytes were written than the declared length allows.
    Overlong,
    /// The body ended before the declared length was reached.
    Incomplete,
    /// The compression codec failed.
    Encoding,
}

/// The wire framing applied to payload bytes.
#[derive(Debug, Clone, Copy, PartialEq, Eq, Structural)]
pub enum TransferEncoding {
    /// `<hex-size>\r\n<bytes>\r\n` per write, closed by `0\r\n\r\n`.
    Chunked { done: bool },
    /// A fixed length; the field holds what is still owed.
    Length(u64),
    /// No framing: the end of the body is the end of the connection.
    Eof,
}

pub open spec fn hex_digit(d: nat) -> u8 {
    if d < 10 { (48 + d) as u8 } else { (55 + d) as u8 }
}

/// Upper-case hexadecimal digits of `n`, without leading zeros.
pub open spec fn hex(n: nat) -> Seq<u8>
    decreases n,
{
    if n < 16 { seq![hex_digit(n)] } else { hex(n / 16).push(hex_digit(n % 16)) }
}

pub open spec fn crlf() -> Seq<u8> {
    seq![13u8, 10u8]
}

/// One chunk of the chunked framing.
pub open spec fn chunk(data: Seq<u8>) -> Seq<u8> {
    hex(data.len()) + crlf() + data + crlf()
}

/// The terminating zero-size chunk.
pub open spec fn last_chunk() -> Seq<u8> {
    seq![48u8] + crlf() + crlf()
}

/// The bytes a framer emits for `data`.
pub open spec fn framed(t: TransferEncoding, data: Seq<u8>) -> Seq<u8> {
    match t {
        TransferEncoding::Chunked { .. } => if data.len() == 0 { seq![] } else { chunk(data) },
        TransferEncoding::Length(rem) => if data.len() <= rem { data } else { seq![] },
        TransferEncoding::Eof => data,
    }
}

/// The error a framer reports for `data`, if any.
pub open spec fn frame_error(t: TransferEncoding, data: Seq<u8>) -> Option<BodyError> {
    match t {
        TransferEncoding::Length(rem) => if data.len() > rem { Some(BodyError::Overlong) } else { None },
        _ => None,
    }
}

/// The framer's state after `data`.
pub open spec fn after_write(t: TransferEncoding, data: Seq<u8>) -> TransferEncoding {
    match t {
        TransferEncoding::Length(rem) => if data.len() <= rem {
            TransferEncoding::Length((rem - data.len()) as u64)
        } else {
            t
        },
        _ => t,
    }
}

/// Appends the hexadecimal digits of `n` to `out`.
fn push_hex(out: &mut Vec<u8>, n: usize)
    ensures
        final(out)@ == old(out)@ + hex(n as nat),
    decreases n,
{
    if n < 16 {
        let d: u8 = if n < 10 { 48 + n as u8 } else { 55 + n as u8 };
        out.push(d);
    } else {
        push_hex(out, n / 16);
        let m: usize = n % 16;
        let d: u8 = if m < 10 { 48 + m as u8 } else { 55 + m as u8 };
        out.push(d);
    }
}

impl TransferEncoding {
    pub fn chunked() -> (r: TransferEncoding)
        ensures
            r == (TransferEncoding::Chunked { done: false }),
    {
        TransferEncoding::Chunked { done: false }
    }

    pub fn length(n: u64) -> (r: TransferEncoding)
        ensures
            r == TransferEncoding::Length(n),
    {
        TransferEncoding::Length(n)
    }

    pub fn eof() -> (r: TransferEncoding)
        ensures
            r == TransferEncoding::Eof,
    {
        TransferEncoding::Eof
    }

    pub open spec fn spec_is_eof(self) -> bool {
        match self {
            TransferEncoding::Chunked { done } => done,
            TransferEncoding::Length(rem) => rem == 0,
            TransferEncoding::Eof => true,
        }
    }

    /// True once no further bytes are owed.
    pub fn is_eof(&self) -> (r: bool)
        ensures
            r == self.spec_is_eof(),
    {
        match self {
            TransferEncoding::Chunked { done } => *done,
            TransferEncoding::Length(rem) => *rem == 0,
            TransferEncoding::Eof => true,
        }
    }

    /// Frames `data` onto the end of `buf`.
    pub fn write(&mut self, buf: &mut Vec<u8>, data: &[u8]) -> (r: Result<(), BodyError>)
        ensures
            final(buf)@ == old(buf)@ + framed(*old(self), data@),
            *final(self) == after_write(*old(self), data@),
            r == (match frame_error(*old(self), data@) {
                Some(e) => Err(e),
                None => Ok(()),
            }),
    {
        match self {
            TransferEncoding::Chunked { .. } => {
                if data.len() > 0 {
                    push_hex(buf, data.len());
                    buf.push(13);
                    buf.push(10);
                    buf.extend_from_slice(data);
                    buf.push(13);
                    buf.push(10);
                    assert(buf@ =~= old(buf)@ + chunk(data@));
                } else {
                    assert(buf@ =~= old(buf)@ + framed(*old(self), data@));
                }
                Ok(())
            },
            TransferEncoding::Length(rem) => {
                if data.len() as u64 > *rem {
                    assert(buf@ =~= old(buf)@ + framed(*old(self), data@));
                    Err(BodyError::Overlong)
                } else {
                    *rem = *rem - data.len() as u64;
                    buf.extend_from_slice(data);
                    Ok(())
                }
            },
            TransferEncoding::Eof => {
                buf.extend_from_slice(data);
                Ok(())
            },
        }
    }

    pub open spec fn eof_bytes(self) -> Seq<u8> {
        match self {
            TransferEncoding::Chunked { done } => if done { seq![] } else { last_chunk() },
            _ => seq![],
        }
    }

    pub open spec fn after_eof(self) -> TransferEncoding {
        match self {
            TransferEncoding::Chunked { .. } => TransferEncoding::Chunked { done: true },
            _ => self,
        }
    }

    /// Terminates the framing: the zero-size chunk, or a check that a
    /// declared length was met.
    pub fn write_eof(&mut self, buf: &mut Vec<u8>) -> (r: Result<(), BodyError>)
        ensures
            final(buf)@ == old(buf)@ + old(self).eof_bytes(),
            *final(self) == old(self).after_eof(),
            final(self).spec_is_eof() <==> r is Ok,
            r is Err ==> r == Err::<(), BodyError>(BodyError::Incomplete),
    {
        match self {
            TransferEncoding::Chunked { done } => {
                if !*done {
                    *done = true;
                    buf.push(48);
                    buf.push(13);
                    buf.push(10);
                    buf.push(13);
                    buf.push(10);
                    assert(buf@ =~= old(buf)@ + last_chunk());
                } else {
                    assert(buf@ =~= old(buf)@ + seq![]);
                }
                Ok(())
            },
            TransferEncoding::Length(rem) => {
                assert(buf@ =~= old(buf)@ + seq![]);
                if *rem == 0 {
                    Ok(())
                } else {
                    Err(BodyError::Incomplete)
                }
            },
            TransferEncoding::Eof => {
                assert(buf@ =~= old(buf)@ + seq![]);
                Ok(())
            },
        }
    }
}

} // verus!

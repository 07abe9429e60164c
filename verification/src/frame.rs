//! The wire unit exchanged between two multiplexers.
//!
//! A frame is nine octets of header followed by the payload:
//!
//! ```text
//! offset  size  field
//! 0       4     stream id       (u32, little-endian)
//! 4       1     type            (1 = OPEN, 2 = DATA, 3 = CLOSE, 4 = RESET)
//! 5       4     payload length  (u32, little-endian)
//! 9       N     payload
//! ```

use crate::buffer::bytes_view;
use bytes::{Bytes, BytesMut};
use vstd::prelude::*;

verus! {

/// Octets in a frame header.
pub const HEADER_LEN: usize = 9;

/// What a frame asks of the stream it names.
#[derive(Debug, Clone, Copy, PartialEq, Eq, Structural)]
pub enum FrameType {
    Open,
    Data,
    Close,
    Reset,
}

/// One frame: a type, the stream it belongs to, and its payload.
#[derive(Debug, Clone)]
pub struct Frame {
    pub t: FrameType,
    pub stream_id: u32,
    pub payload: Bytes,
}

/// A frame as a mathematical value.
pub struct FrameView {
    pub t: FrameType,
    pub stream_id: u32,
    pub payload: Seq<u8>,
}

impl View for Frame {
    type V = FrameView;

    open spec fn view(&self) -> FrameView {
        FrameView { t: self.t, stream_id: self.stream_id, payload: bytes_view(self.payload) }
    }
}

/// Why a buffer is not a frame.
#[derive(Debug, Clone, Copy, PartialEq, Eq, Structural)]
pub enum FrameDecodeError {
    /// Fewer than nine octets: no room for a header.
    TooShort,
    /// The type octet is none of 1, 2, 3, 4.
    UnknownType(u8),
    /// The declared payload length is beyond what a caller accepts.
    TooLarge(u32),
    /// The header declares more payload than the buffer holds after it.
    LengthMismatch { declared: usize, actual: usize },
}

impl FrameType {
    /// The octet that stands for this type on the wire.
    pub open spec fn spec_code(self) -> u8 {
        match self {
            FrameType::Open => 1,
            FrameType::Data => 2,
            FrameType::Close => 3,
            FrameType::Reset => 4,
        }
    }

    /// The type that a wire octet stands for, if any.
    pub open spec fn spec_from_code(code: u8) -> Option<FrameType> {
        if code == 1 {
            Some(FrameType::Open)
        } else if code == 2 {
            Some(FrameType::Data)
        } else if code == 3 {
            Some(FrameType::Close)
        } else if code == 4 {
            Some(FrameType::Reset)
        } else {
            None
        }
    }

    /// The octet that stands for this type on the wire.
    pub fn code(self) -> (c: u8)
        ensures
            c == self.spec_code(),
            1 <= c <= 4,
    {
        match self {
            FrameType::Open => 1,
            FrameType::Data => 2,
            FrameType::Close => 3,
            FrameType::Reset => 4,
        }
    }

    /// The type that a wire octet stands for; `None` for any octet but 1 to 4.
    pub fn from_code(code: u8) -> (t: Option<FrameType>)
        ensures
            t == FrameType::spec_from_code(code),
            t is Some <==> 1 <= code <= 4,
    {
        match code {
            1 => Some(FrameType::Open),
            2 => Some(FrameType::Data),
            3 => Some(FrameType::Close),
            4 => Some(FrameType::Reset),
            _ => None,
        }
    }
}

/// The four octets of `x`, least significant first.
pub open spec fn le_bytes(x: u32) -> Seq<u8> {
    seq![
        (x as int % 256) as u8,
        (x as int / 256 % 256) as u8,
        (x as int / 65536 % 256) as u8,
        (x as int / 16777216) as u8,
    ]
}

/// The number whose little-endian octets are the first four of `b`.
pub open spec fn le_value(b: Seq<u8>) -> int
    recommends
        b.len() >= 4,
{
    b[0] as int + 256 * (b[1] as int) + 65536 * (b[2] as int) + 16777216 * (b[3] as int)
}

proof fn lemma_digits(b0: int, b1: int, b2: int, b3: int)
    requires
        0 <= b0 < 256,
        0 <= b1 < 256,
        0 <= b2 < 256,
        0 <= b3 < 256,
    ensures
        ({
            let v = b0 + 256 * b1 + 65536 * b2 + 16777216 * b3;
            &&& 0 <= v <= u32::MAX
            &&& v % 256 == b0
            &&& v / 256 % 256 == b1
            &&& v / 65536 % 256 == b2
            &&& v / 16777216 == b3
        }),
{
    let v = b0 + 256 * b1 + 65536 * b2 + 16777216 * b3;
    let v1 = b1 + 256 * b2 + 65536 * b3;
    let v2 = b2 + 256 * b3;
    assert(v == b0 + 256 * v1);
    assert(v / 256 == v1);
    assert(v == b0 + 256 * b1 + 65536 * v2);
    assert(v / 65536 == v2);
}

proof fn lemma_number(x: int)
    requires
        0 <= x <= u32::MAX,
    ensures
        0 <= x % 256 < 256,
        0 <= x / 256 % 256 < 256,
        0 <= x / 65536 % 256 < 256,
        0 <= x / 16777216 < 256,
        x == x % 256 + 256 * (x / 256 % 256) + 65536 * (x / 65536 % 256) + 16777216 * (x
            / 16777216),
{
    let q1 = x / 256;
    let q2 = x / 65536;
    let q3 = x / 16777216;
    assert(q2 == q1 / 256);
    assert(q3 == q2 / 256);
    assert(x == x % 256 + 256 * q1);
    assert(q1 == q1 % 256 + 256 * q2);
    assert(q2 == q2 % 256 + 256 * q3);
}

/// Reading back the little-endian octets of a number gives the number.
pub proof fn lemma_le_round_trip(x: u32)
    ensures
        le_bytes(x).len() == 4,
        le_value(le_bytes(x)) == x,
{
    lemma_number(x as int);
}

/// Four octets are the little-endian form of the number they spell.
pub proof fn lemma_le_bytes_of_value(b: Seq<u8>)
    requires
        b.len() == 4,
    ensures
        0 <= le_value(b) <= u32::MAX,
        le_bytes(le_value(b) as u32) == b,
{
    lemma_digits(b[0] as int, b[1] as int, b[2] as int, b[3] as int);
    assert(le_bytes(le_value(b) as u32) =~= b);
}

fn u32_to_le(x: u32) -> (out: [u8; 4])
    ensures
        out@ == le_bytes(x),
{
    let out = [
        (x % 256) as u8,
        (x / 256 % 256) as u8,
        (x / 65536 % 256) as u8,
        (x / 16777216) as u8,
    ];
    assert(out@ =~= le_bytes(x));
    out
}

fn u32_from_le(buf: &[u8], at: usize) -> (x: u32)
    requires
        at + 4 <= buf@.len(),
    ensures
        x == le_value(buf@.subrange(at as int, at + 4)),
{
    let b0 = buf[at] as u32;
    let b1 = buf[at + 1] as u32;
    let b2 = buf[at + 2] as u32;
    let b3 = buf[at + 3] as u32;
    b0 + 256 * b1 + 65536 * b2 + 16777216 * b3
}

/// The octets of a frame on the wire. The length field holds the payload
/// length reduced to 32 bits.
pub open spec fn spec_encode(f: FrameView) -> Seq<u8> {
    le_bytes(f.stream_id) + seq![f.t.spec_code()] + le_bytes(f.payload.len() as u32) + f.payload
}

/// The payload length that the header of `buf` declares.
pub open spec fn declared_len(buf: Seq<u8>) -> int
    recommends
        buf.len() >= 9,
{
    le_value(buf.subrange(5, 9))
}

/// The frame at the start of `buf` and the number of octets it takes, or the
/// reason why there is none. The length is checked before the type.
pub open spec fn spec_decode(buf: Seq<u8>) -> Result<(FrameView, int), FrameDecodeError> {
    if buf.len() < 9 {
        Err(FrameDecodeError::TooShort)
    } else if buf.len() - 9 < declared_len(buf) {
        Err(
            FrameDecodeError::LengthMismatch {
                declared: declared_len(buf) as usize,
                actual: (buf.len() - 9) as usize,
            },
        )
    } else {
        match FrameType::spec_from_code(buf[4]) {
            None => Err(FrameDecodeError::UnknownType(buf[4])),
            Some(t) => Ok(
                (
                    FrameView {
                        t,
                        stream_id: le_value(buf.subrange(0, 4)) as u32,
                        payload: buf.subrange(9, 9 + declared_len(buf)),
                    },
                    9 + declared_len(buf),
                ),
            ),
        }
    }
}

impl Frame {
    /// Writes the frame out: header, then payload.
    pub fn encode(&self) -> (out: Bytes)
        ensures
            bytes_view(out) == spec_encode(self@),
    {
        let mut buf = BytesMut::new();
        let id = u32_to_le(self.stream_id);
        buf.extend_from_slice(id.as_slice());
        let code = [self.t.code()];
        buf.extend_from_slice(code.as_slice());
        let len = u32_to_le(#[verifier::truncate] (self.payload.len() as u32));
        buf.extend_from_slice(len.as_slice());
        buf.extend_from_slice(self.payload.as_ref());
        assert(code@ =~= seq![self.t.spec_code()]);
        buf.freeze()
    }

    /// Reads the frame at the start of `buf`, and says how many octets it took.
    ///
    /// Fails with `TooShort` on fewer than nine octets, with `LengthMismatch`
    /// when the header declares more payload than follows it, and with
    /// `UnknownType` when the type octet is none of 1 to 4, in that order.
    /// Octets after the declared payload are left alone.
    pub fn decode(buf: &[u8]) -> (r: Result<(Frame, usize), FrameDecodeError>)
        ensures
            match spec_decode(buf@) {
                Ok((frame, taken)) => r matches Ok((f, n)) && f@ == frame && n == taken,
                Err(e) => r matches Err(got) && got == e,
            },
            buf@.len() < 9 ==> (r matches Err(e) && e == FrameDecodeError::TooShort),
            buf@.len() >= 9 && declared_len(buf@) > buf@.len() - 9 ==> (r matches Err(e) && e == (
                FrameDecodeError::LengthMismatch {
                    declared: declared_len(buf@) as usize,
                    actual: (buf@.len() - 9) as usize,
                }
            )),
            buf@.len() >= 9 && declared_len(buf@) <= buf@.len() - 9 && !(1 <= buf@[4] <= 4) ==> (
            r matches Err(e) && e == FrameDecodeError::UnknownType(buf@[4])),
            r matches Ok((f, n)) ==> (n == 9 + f@.payload.len() && n <= buf@.len()),
    {
        if buf.len() < HEADER_LEN {
            return Err(FrameDecodeError::TooShort);
        }
        let stream_id = u32_from_le(buf, 0);
        let t_raw = buf[4];
        let len = u32_from_le(buf, 5) as usize;
        let actual = buf.len() - HEADER_LEN;
        if actual < len {
            return Err(FrameDecodeError::LengthMismatch { declared: len, actual });
        }
        let t = match FrameType::from_code(t_raw) {
            Some(t) => t,
            None => {
                return Err(FrameDecodeError::UnknownType(t_raw));
            },
        };
        let payload = Bytes::copy_from_slice(vstd::slice::slice_subrange(buf, HEADER_LEN, HEADER_LEN + len));
        Ok((Frame { t, stream_id, payload }, HEADER_LEN + len))
    }
}

/// Decoding what `encode` wrote gives the frame back, and takes all of it:
/// for every frame whose payload length fits the 32-bit length field,
/// `decode(encode(f)) == (f, 9 + |payload|)`.
pub proof fn lemma_decode_inverts_encode(f: FrameView)
    requires
        f.payload.len() <= u32::MAX,
    ensures
        spec_encode(f).len() == 9 + f.payload.len(),
        spec_decode(spec_encode(f)) == Ok::<(FrameView, int), FrameDecodeError>(
            (f, 9 + f.payload.len() as int),
        ),
{
    let wire = spec_encode(f);
    let n = f.payload.len() as u32;
    assert(wire.subrange(0, 4) =~= le_bytes(f.stream_id));
    assert(wire.subrange(5, 9) =~= le_bytes(n));
    lemma_le_round_trip(f.stream_id);
    lemma_le_round_trip(n);
    assert(wire[4] == f.t.spec_code());
    assert(wire.subrange(9, 9 + declared_len(wire)) =~= f.payload);
}

/// What stands after a frame in a buffer does not change what is decoded:
/// `decode(encode(f) + rest) == (f, 9 + |payload|)`.
pub proof fn lemma_decode_ignores_trailing(f: FrameView, rest: Seq<u8>)
    requires
        f.payload.len() <= u32::MAX,
    ensures
        spec_decode(spec_encode(f) + rest) == Ok::<(FrameView, int), FrameDecodeError>(
            (f, 9 + f.payload.len() as int),
        ),
{
    let wire = spec_encode(f) + rest;
    let n = f.payload.len() as u32;
    assert(wire.subrange(0, 4) =~= le_bytes(f.stream_id));
    assert(wire.subrange(5, 9) =~= le_bytes(n));
    lemma_le_round_trip(f.stream_id);
    lemma_le_round_trip(n);
    assert(wire[4] == f.t.spec_code());
    assert(wire.subrange(9, 9 + declared_len(wire)) =~= f.payload);
}

/// A buffer that decodes is the encoding of the decoded frame, followed by
/// whatever was not taken.
pub proof fn lemma_encode_inverts_decode(buf: Seq<u8>)
    requires
        spec_decode(buf) is Ok,
    ensures
        ({
            let (f, taken) = spec_decode(buf)->Ok_0;
            &&& 9 <= taken <= buf.len()
            &&& spec_encode(f) == buf.subrange(0, taken)
        }),
{
    let (f, taken) = spec_decode(buf)->Ok_0;
    lemma_le_bytes_of_value(buf.subrange(0, 4));
    lemma_le_bytes_of_value(buf.subrange(5, 9));
    assert(spec_encode(f) =~= buf.subrange(0, taken));
}

} // verus!

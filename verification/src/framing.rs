use vstd::prelude::*;

use crate::text::{decimal_digits, push_decimal};

verus! {

/// The largest message body, in bytes, that a client may send (10 MiB).
pub const MAX_MESSAGE_LEN: usize = 10485760;

/// The number that four bytes denote in big-endian order.
pub open spec fn be_value(b: Seq<u8>) -> int {
    b[0] * 16777216 + b[1] * 65536 + b[2] * 256 + b[3]
}

/// The four big-endian bytes of `n` (`0 <= n < 2^32`).
pub open spec fn be_bytes(n: int) -> Seq<u8> {
    seq![
        ((n / 16777216) % 256) as u8,
        ((n / 65536) % 256) as u8,
        ((n / 256) % 256) as u8,
        (n % 256) as u8,
    ]
}

/// The length field that a frame carries for a body of `len` bytes: the
/// body length truncated to 32 bits.
pub open spec fn length_field(len: nat) -> int {
    len as int % 4294967296
}

/// A whole frame: the big-endian 32-bit length field, then the body.
pub open spec fn frame_bytes(payload: Seq<u8>) -> Seq<u8> {
    be_bytes(length_field(payload.len())) + payload
}

/// Why an incoming frame was refused.
#[derive(Debug, Clone, Copy, PartialEq, Eq, Structural)]
pub enum FrameError {
    /// The announced body length exceeds [`MAX_MESSAGE_LEN`].
    TooLarge(usize),
}

/// The text of the message for a frame that is too large.
pub open spec fn too_large_text(len: usize) -> Seq<char> {
    "Message too large: "@ + decimal_digits(len as nat) + " bytes"@
}

impl FrameError {
    /// The human-readable message of the error.
    pub fn message(&self) -> (s: String)
        ensures
            match *self {
                FrameError::TooLarge(len) => s@ == too_large_text(len),
            },
    {
        match *self {
            FrameError::TooLarge(len) => {
                let mut s = String::from_str("Message too large: ");
                push_decimal(&mut s, len);
                s.append(" bytes");
                s
            },
        }
    }
}

/// Reads the length field of an incoming frame: the body length, or an
/// error when it exceeds [`MAX_MESSAGE_LEN`].
pub fn frame_length(header: [u8; 4]) -> (r: Result<usize, FrameError>)
    ensures
        be_value(header@) > MAX_MESSAGE_LEN ==> r == Err::<usize, FrameError>(
            FrameError::TooLarge(be_value(header@) as usize),
        ),
        be_value(header@) <= MAX_MESSAGE_LEN ==> r == Ok::<usize, FrameError>(
            be_value(header@) as usize,
        ),
{
    let v: u32 = (header[0] as u32) * 16777216 + (header[1] as u32) * 65536 + (header[2] as u32)
        * 256 + (header[3] as u32);
    let len = v as usize;
    if len > MAX_MESSAGE_LEN {
        Err(FrameError::TooLarge(len))
    } else {
        Ok(len)
    }
}

/// The length field for a body of `len` bytes: the length truncated to 32
/// bits, in big-endian order.
pub fn frame_header(len: usize) -> (r: Vec<u8>)
    ensures
        r@ == be_bytes(length_field(len as nat)),
{
    let n: u64 = (len as u64) % 4294967296;
    let mut r: Vec<u8> = Vec::new();
    r.push(((n / 16777216) % 256) as u8);
    r.push(((n / 65536) % 256) as u8);
    r.push(((n / 256) % 256) as u8);
    r.push((n % 256) as u8);
    assert(r@ =~= be_bytes(length_field(len as nat)));
    r
}

/// A whole frame for the given body: the length field, then the body.
pub fn encode_frame(payload: &[u8]) -> (r: Vec<u8>)
    ensures
        r@ == frame_bytes(payload@),
{
    let mut r = frame_header(payload.len());
    let n = payload.len();
    for i in 0..n
        invariant
            n == payload@.len(),
            r@ == be_bytes(length_field(n as nat)) + payload@.take(i as int),
    {
        r.push(payload[i]);
        assert(r@ =~= be_bytes(length_field(n as nat)) + payload@.take(i + 1));
    }
    assert(payload@.take(n as int) =~= payload@);
    r
}

/// Law: the length field of a frame reads back as the body length, for
/// every body that is not over [`MAX_MESSAGE_LEN`].
pub proof fn lemma_frame_roundtrip(payload: Seq<u8>)
    requires
        payload.len() <= MAX_MESSAGE_LEN,
    ensures
        frame_bytes(payload).len() == 4 + payload.len(),
        be_value(frame_bytes(payload).take(4)) == payload.len(),
        frame_bytes(payload).skip(4) == payload,
{
    let n = payload.len() as int;
    assert(length_field(payload.len()) == n);
    lemma_be_roundtrip(n);
    assert(frame_bytes(payload).take(4) =~= be_bytes(n));
    assert(frame_bytes(payload).skip(4) =~= payload);
}

/// Law: a 32-bit number written as four big-endian bytes reads back as
/// itself.
pub proof fn lemma_be_roundtrip(n: int)
    requires
        0 <= n < 4294967296,
    ensures
        be_value(be_bytes(n)) == n,
{
    let b = be_bytes(n);
    let a = n / 16777216;
    assert(a < 256);
    assert(b[0] == a);
    assert(b[1] == (n / 65536) % 256);
    assert(n / 65536 == a * 256 + (n / 65536) % 256) by (nonlinear_arith)
        requires
            a == n / 16777216,
            0 <= n,
    {
    }
    assert(n / 256 == (n / 65536) * 256 + (n / 256) % 256) by (nonlinear_arith)
        requires
            0 <= n,
    {
    }
    assert(n == (n / 256) * 256 + n % 256) by (nonlinear_arith)
        requires
            0 <= n,
    {
    }
}

} // verus!

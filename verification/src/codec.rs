//! Length-prefixed framing of encoded fault records.
//!
//! A frame is a four-byte little-endian length followed by that many payload
//! bytes. The payload is the encoded fault record; encoding and decoding the
//! record itself happens outside this module, which frames and checks bytes.
use vstd::prelude::*;

use crate::error::{SovdError, is_internal, is_invalid_request, is_transport};
use crate::text::{concat, decimal, decimal_string};

verus! {

/// Upper bound for the payload of a single frame. Guards against a huge
/// length prefix sent by a corrupted or malicious peer.
pub const MAX_FRAME_LEN: usize = 65536;

/// The value of a four-byte little-endian length prefix.
pub open spec fn le_u32(b: Seq<u8>) -> int
    recommends
        b.len() >= 4,
{
    b[0] + 256 * b[1] + 65536 * b[2] + 16777216 * b[3]
}

/// The four-byte little-endian encoding of `n`.
pub open spec fn le_bytes(n: nat) -> Seq<u8> {
    seq![
        (n % 256) as u8,
        ((n / 256) % 256) as u8,
        ((n / 65536) % 256) as u8,
        ((n / 16777216) % 256) as u8,
    ]
}

/// The frame that carries `payload`.
pub open spec fn frame_bytes(payload: Seq<u8>) -> Seq<u8> {
    le_bytes(payload.len()) + payload
}

/// The payload length that the first frame of `b` declares.
pub open spec fn declared_len(b: Seq<u8>) -> int {
    le_u32(b.take(4))
}

/// The payload of the first frame of `b`, when `b` holds a whole frame whose
/// declared length is within bounds.
pub open spec fn frame_payload(b: Seq<u8>) -> Option<Seq<u8>> {
    if b.len() >= 4 && declared_len(b) <= MAX_FRAME_LEN && b.len() - 4 >= declared_len(b) {
        Some(b.subrange(4, 4 + declared_len(b)))
    } else {
        None
    }
}

/// Message for a payload too large to be framed.
pub open spec fn oversized_payload_msg(len: nat) -> Seq<char> {
    "encoded fault record exceeds "@ + decimal(MAX_FRAME_LEN as nat) + " bytes ("@ + decimal(len)
        + " actual)"@
}

/// Message for a length prefix beyond the bound.
pub open spec fn oversized_prefix_msg(len: nat) -> Seq<char> {
    "frame length "@ + decimal(len) + " exceeds MAX_FRAME_LEN="@ + decimal(MAX_FRAME_LEN as nat)
}

/// Message for a stream that ends inside a length prefix.
pub open spec fn truncated_prefix_msg() -> Seq<char> {
    "fault-sink read len: early eof"@
}

/// Message for a frame whose payload ends early.
pub open spec fn truncated_payload_msg() -> Seq<char> {
    "fault-sink read payload: early eof"@
}

/// Little-endian encoding of a length that fits in a frame.
fn length_prefix(len: usize) -> (out: [u8; 4])
    requires
        len <= MAX_FRAME_LEN,
    ensures
        out@ == le_bytes(len as nat),
{
    let b0 = (len % 256) as u8;
    let b1 = ((len / 256) % 256) as u8;
    let b2 = ((len / 65536) % 256) as u8;
    let b3 = ((len / 16777216) % 256) as u8;
    let out = [b0, b1, b2, b3];
    assert(out@ =~= le_bytes(len as nat));
    out
}

/// The encoding of a length within bounds reads back as that length.
pub proof fn lemma_le_bytes_roundtrip(n: nat)
    requires
        n <= MAX_FRAME_LEN,
    ensures
        le_bytes(n).len() == 4,
        le_u32(le_bytes(n)) == n,
{
    assert(n / 16777216 == 0);
    assert(n == n % 256 + 256 * ((n / 256) % 256) + 65536 * ((n / 65536) % 256)) by (nonlinear_arith)
        requires
            n <= 65536,
    ;
}

fn message_for_oversized_payload(len: usize) -> (m: String)
    ensures
        m@ == oversized_payload_msg(len as nat),
{
    let a = concat("encoded fault record exceeds ", decimal_string(MAX_FRAME_LEN as u64).as_str());
    let b = concat(a.as_str(), " bytes (");
    let c = concat(b.as_str(), decimal_string(len as u64).as_str());
    concat(c.as_str(), " actual)")
}

fn message_for_oversized_prefix(len: u64) -> (m: String)
    ensures
        m@ == oversized_prefix_msg(len as nat),
{
    let a = concat("frame length ", decimal_string(len).as_str());
    let b = concat(a.as_str(), " exceeds MAX_FRAME_LEN=");
    concat(b.as_str(), decimal_string(MAX_FRAME_LEN as u64).as_str())
}

/// Frames an encoded fault record: the little-endian length followed by the
/// payload.
///
/// A payload longer than [`MAX_FRAME_LEN`] is refused with `Internal`.
pub fn encode_frame(payload: &[u8]) -> (r: Result<Vec<u8>, SovdError>)
    ensures
        payload@.len() <= MAX_FRAME_LEN ==> (r matches Ok(out) && out@ == frame_bytes(payload@)),
        payload@.len() > MAX_FRAME_LEN ==> (r matches Err(e) && is_internal(
            e,
            oversized_payload_msg(payload@.len()),
        )),
{
    if payload.len() > MAX_FRAME_LEN {
        return Err(SovdError::Internal(message_for_oversized_payload(payload.len())));
    }
    let prefix = length_prefix(payload.len());
    let mut out: Vec<u8> = Vec::new();
    let mut i: usize = 0;
    while i < 4
        invariant
            i <= 4,
            out@ == prefix@.take(i as int),
        decreases 4 - i,
    {
        out.push(prefix[i]);
        proof {
            assert(out@ =~= prefix@.take(i + 1));
        }
        i = i + 1;
    }
    let mut j: usize = 0;
    while j < payload.len()
        invariant
            j <= payload@.len(),
            out@ == prefix@ + payload@.take(j as int),
        decreases payload@.len() - j,
    {
        out.push(payload[j]);
        proof {
            assert(out@ =~= prefix@ + payload@.take(j + 1));
        }
        j = j + 1;
    }
    proof {
        assert(payload@.take(payload@.len() as int) =~= payload@);
    }
    Ok(out)
}

/// Reads the payload length from a frame's four-byte prefix.
///
/// A length beyond [`MAX_FRAME_LEN`] is refused with `InvalidRequest`.
pub fn frame_payload_len(prefix: [u8; 4]) -> (r: Result<usize, SovdError>)
    ensures
        le_u32(prefix@) <= MAX_FRAME_LEN ==> (r matches Ok(n) && n == le_u32(prefix@)),
        le_u32(prefix@) > MAX_FRAME_LEN ==> (r matches Err(e) && is_invalid_request(
            e,
            oversized_prefix_msg(le_u32(prefix@) as nat),
        )),
{
    let len: u64 = prefix[0] as u64 + 256 * (prefix[1] as u64) + 65536 * (prefix[2] as u64)
        + 16777216 * (prefix[3] as u64);
    if len > MAX_FRAME_LEN as u64 {
        Err(SovdError::InvalidRequest(message_for_oversized_prefix(len)))
    } else {
        Ok(len as usize)
    }
}

/// Decides what the bytes read before the end of a stream, at most four,
/// make of a length prefix: none at all is a clean end of the stream
/// (`Ok(None)`); one to three bytes are a prefix cut off, a `Transport`
/// error; four bytes are a prefix, read as by [`frame_payload_len`].
pub fn read_prefix(got: &[u8]) -> (r: Result<Option<usize>, SovdError>)
    requires
        got@.len() <= 4,
    ensures
        got@.len() == 0 ==> r matches Ok(None),
        1 <= got@.len() <= 3 ==> (r matches Err(e) && is_transport(e, truncated_prefix_msg())),
        got@.len() == 4 && le_u32(got@) <= MAX_FRAME_LEN ==> (r matches Ok(Some(n)) && n == le_u32(
            got@,
        )),
        got@.len() == 4 && le_u32(got@) > MAX_FRAME_LEN ==> (r matches Err(e) && is_invalid_request(
            e,
            oversized_prefix_msg(le_u32(got@) as nat),
        )),
{
    if got.len() == 0 {
        return Ok(None);
    }
    if got.len() < 4 {
        return Err(SovdError::Transport(String::from_str("fault-sink read len: early eof")));
    }
    let prefix: [u8; 4] = [got[0], got[1], got[2], got[3]];
    assert(prefix@ =~= got@);
    match frame_payload_len(prefix) {
        Ok(n) => Ok(Some(n)),
        Err(e) => Err(e),
    }
}

/// Reads the first frame out of `bytes`.
///
/// No bytes at all means the stream ended cleanly before a frame began:
/// `Ok(None)`. One to three bytes are a length prefix cut off, a
/// `Transport` error. A length prefix beyond [`MAX_FRAME_LEN`] is refused
/// with `InvalidRequest`; a payload that ends early is a `Transport` error.
/// Bytes after the first frame are left alone.
pub fn decode_frame(bytes: &[u8]) -> (r: Result<Option<Vec<u8>>, SovdError>)
    ensures
        bytes@.len() == 0 ==> r matches Ok(None),
        1 <= bytes@.len() < 4 ==> (r matches Err(e) && is_transport(e, truncated_prefix_msg())),
        bytes@.len() >= 4 && declared_len(bytes@) > MAX_FRAME_LEN ==> (r matches Err(e)
            && is_invalid_request(e, oversized_prefix_msg(declared_len(bytes@) as nat))),
        bytes@.len() >= 4 && declared_len(bytes@) <= MAX_FRAME_LEN && bytes@.len() - 4
            < declared_len(bytes@) ==> (r matches Err(e) && is_transport(e, truncated_payload_msg())),
        frame_payload(bytes@) is Some ==> (r matches Ok(Some(p)) && p@ == frame_payload(bytes@)->0),
{
    if bytes.len() == 0 {
        return Ok(None);
    }
    if bytes.len() < 4 {
        return Err(SovdError::Transport(String::from_str("fault-sink read len: early eof")));
    }
    let prefix: [u8; 4] = [bytes[0], bytes[1], bytes[2], bytes[3]];
    assert(prefix@ =~= bytes@.take(4));
    let len = match frame_payload_len(prefix) {
        Ok(n) => n,
        Err(e) => {
            return Err(e);
        },
    };
    if bytes.len() - 4 < len {
        return Err(SovdError::Transport(String::from_str("fault-sink read payload: early eof")));
    }
    let end: usize = 4 + len;
    let mut out: Vec<u8> = Vec::new();
    let mut j: usize = 0;
    while j < len
        invariant
            j <= len,
            end == 4 + len,
            4 + len <= bytes@.len(),
            out@ == bytes@.subrange(4, 4 + j),
        decreases len - j,
    {
        out.push(bytes[4 + j]);
        proof {
            assert(out@ =~= bytes@.subrange(4, 4 + j + 1));
        }
        j = j + 1;
    }
    Ok(Some(out))
}

/// Reading a frame gives back the payload it was made from, and leaves what
/// follows it untouched: the first frame of `frame_bytes(p) + rest` carries
/// `p`, and the bytes after it are `rest`.
pub proof fn lemma_frame_roundtrip(payload: Seq<u8>, rest: Seq<u8>)
    requires
        payload.len() <= MAX_FRAME_LEN,
    ensures
        frame_payload(frame_bytes(payload) + rest) == Some(payload),
        (frame_bytes(payload) + rest).subrange(
            4 + payload.len() as int,
            (frame_bytes(payload) + rest).len() as int,
        ) == rest,
{
    let b = frame_bytes(payload) + rest;
    lemma_le_bytes_roundtrip(payload.len());
    assert(b.take(4) =~= le_bytes(payload.len()));
    assert(b.subrange(4, 4 + payload.len() as int) =~= payload);
    assert(b.subrange(4 + payload.len() as int, b.len() as int) =~= rest);
}

} // verus!

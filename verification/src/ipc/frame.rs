//! How IPC messages are framed on the socket: a 4-byte big-endian length
//! (of the type code and the payload), a 2-byte big-endian type code, then
//! the payload.

use vstd::prelude::*;
use crate::error::LatticeError;
use crate::ipc::{message_code, MessageType, MAX_MESSAGE_SIZE};
use crate::query::lexer::{decimal_chars, push_decimal};
use crate::text::string_of;

verus! {

/// The four bytes of a `u32`, most significant first.
pub open spec fn be32(v: u32) -> Seq<u8> {
    seq![(v >> 24u32) as u8, ((v >> 16u32) & 0xff) as u8, ((v >> 8u32) & 0xff) as u8, (v & 0xff) as u8]
}

/// The two bytes of a `u16`, most significant first.
pub open spec fn be16(v: u16) -> Seq<u8> {
    seq![(v >> 8u16) as u8, (v & 0xff) as u8]
}

/// The value of four bytes, most significant first.
pub open spec fn be32_value(b: Seq<u8>) -> u32 {
    ((b[0] as u32) << 24u32) | ((b[1] as u32) << 16u32) | ((b[2] as u32) << 8u32) | (b[3] as u32)
}

/// The value of two bytes, most significant first.
pub open spec fn be16_value(b: Seq<u8>) -> u16 {
    (((b[0] as u16) << 8u16) | (b[1] as u16)) as u16
}

/// The length a frame announces: the type code's two bytes and the
/// payload, cut to 32 bits.
pub open spec fn frame_length(payload_len: nat) -> u32 {
    (payload_len as u32).wrapping_add(2)
}

/// A framed message.
pub open spec fn frame_bytes(t: MessageType, payload: Seq<u8>) -> Seq<u8> {
    be32(frame_length(payload.len())) + be16(message_code(t)) + payload
}

/// What a frame's 6 header bytes announce: a failure when the length is
/// over the limit or the type code unknown; else the type and the payload's
/// length (the announced length less the code's two bytes, at least 0).
pub open spec fn header_reading(h: Seq<u8>) -> Option<(u16, u32)> {
    if be32_value(h.take(4)) > MAX_MESSAGE_SIZE {
        None
    } else {
        Some((be16_value(h.subrange(4, 6)), if be32_value(h.take(4)) >= 2 { (be32_value(h.take(4)) - 2) as u32 } else { 0 }))
    }
}

/// Frame a message.
pub fn encode_frame(msg_type: MessageType, payload: &[u8]) -> (r: Vec<u8>)
    ensures
        r@ == frame_bytes(msg_type, payload@),
{
    let length: u32 = (payload.len() as u32).wrapping_add(2);
    let code = msg_type.code();
    let mut out: Vec<u8> = Vec::new();
    out.push((length >> 24u32) as u8);
    out.push(((length >> 16u32) & 0xff) as u8);
    out.push(((length >> 8u32) & 0xff) as u8);
    out.push((length & 0xff) as u8);
    out.push((code >> 8u16) as u8);
    out.push((code & 0xff) as u8);
    let ghost head = out@;
    assert(head =~= be32(length) + be16(code));
    let mut i: usize = 0;
    while i < payload.len()
        invariant
            i <= payload@.len(),
            out@ == head + payload@.take(i as int),
        decreases payload@.len() - i,
    {
        out.push(payload[i]);
        assert(out@ =~= head + payload@.take(i + 1));
        i = i + 1;
    }
    assert(payload@.take(i as int) =~= payload@);
    out
}

/// Read a frame's 6 header bytes: the message type and the payload's
/// length. A length over the limit is `Serialization` ("Message too
/// large: <n>"); an unknown type code is refused as `MessageType::from_u16`
/// refuses it.
pub fn decode_header(header: &[u8; 6]) -> (r: Result<(MessageType, usize), LatticeError>)
    ensures
        match header_reading(header@) {
            None => r matches Err(LatticeError::Serialization(m)) && m@ == "Message too large: "@ + decimal_chars(
                be32_value(header@.take(4)) as nat,
            ),
            Some((code, len)) => if exists|t: MessageType| message_code(t) == code {
                r matches Ok((t, n)) && message_code(t) == code && n == len
            } else {
                r matches Err(LatticeError::InvalidPredicate(m)) && m@ == "Unknown message type: "@ + decimal_chars(
                    code as nat,
                )
            },
        },
{
    let length: u32 = ((header[0] as u32) << 24u32) | ((header[1] as u32) << 16u32) | ((header[2] as u32) << 8u32) | (
    header[3] as u32);
    assert(length == be32_value(header@.take(4)));
    if length > MAX_MESSAGE_SIZE {
        let mut m = string_of("Message too large: ");
        push_decimal(&mut m, length as u64);
        return Err(LatticeError::Serialization(m));
    }
    let code: u16 = (((header[4] as u16) << 8u16) | (header[5] as u16)) as u16;
    assert(code == be16_value(header@.subrange(4, 6)));
    let msg_type = match MessageType::from_u16(code) {
        Ok(t) => t,
        Err(e) => return Err(e),
    };
    let payload_len: u32 = if length >= 2 { length - 2 } else { 0 };
    Ok((msg_type, payload_len as usize))
}

/// The header of a framed message reads back as its type and its payload's
/// length, for any payload within the size limit.
pub proof fn lemma_frame_roundtrip(t: MessageType, payload: Seq<u8>)
    requires
        payload.len() + 2 <= MAX_MESSAGE_SIZE,
    ensures
        header_reading(frame_bytes(t, payload).take(6)) == Some((message_code(t), payload.len() as u32)),
{
    let f = frame_bytes(t, payload);
    let n = frame_length(payload.len());
    let c = message_code(t);
    assert(n == payload.len() + 2);
    assert(f.take(6).take(4) =~= be32(n));
    assert(f.take(6).subrange(4, 6) =~= be16(c));
    assert(((((n >> 24u32) as u8) as u32) << 24u32) | (((((n >> 16u32) & 0xff) as u8) as u32) << 16u32) | (((((n
        >> 8u32) & 0xff) as u8) as u32) << 8u32) | (((n & 0xff) as u8) as u32) == n) by (bit_vector);
    assert((((((c >> 8u16) as u8) as u16) << 8u16) | (((c & 0xff) as u8) as u16)) as u16 == c) by (bit_vector);
}

} // verus!

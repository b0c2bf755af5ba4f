//! Length-prefixed framing: every message on the wire is a big-endian `u16`
//! length followed by that many bytes of payload.

use vstd::prelude::*;
use vstd::slice::{slice_subrange, slice_to_vec};

verus! {

/// The largest payload that fits behind a two-byte length.
pub const MAX_PAYLOAD: usize = 65535;

/// What can go wrong while a packet is sent or received.
#[derive(Debug, Clone, Copy, PartialEq, Eq, Structural)]
pub enum Error {
    /// The payload is not a packet.
    DecodeError,
    /// The packet has no encoding.
    EncodeError,
    /// The payload is longer than a `u16` can say.
    ErrPacketTooBig,
    /// The stream ended, or failed, before the frame was complete.
    IoError,
}

impl Error {
    /// A short text for the error.
    pub fn description(&self) -> (text: String)
        ensures
            text@ == (match *self {
                Error::DecodeError => "Packet could not be decoded"@,
                Error::EncodeError => "Packet could not be encoded"@,
                Error::ErrPacketTooBig => "Packet size must fit into an u16"@,
                Error::IoError => "Stream failed or ended before the packet was complete"@,
            }),
    {
        match *self {
            Error::DecodeError => "Packet could not be decoded".to_owned(),
            Error::EncodeError => "Packet could not be encoded".to_owned(),
            Error::ErrPacketTooBig => "Packet size must fit into an u16".to_owned(),
            Error::IoError => "Stream failed or ended before the packet was complete".to_owned(),
        }
    }
}

/// The two bytes of `n`, most significant first.
pub open spec fn u16_bytes(n: u16) -> Seq<u8> {
    seq![(n / 256) as u8, (n % 256) as u8]
}

/// The number that two big-endian bytes stand for.
pub open spec fn u16_value(bytes: Seq<u8>) -> int
    recommends
        bytes.len() == 2,
{
    bytes[0] * 256 + bytes[1]
}

/// The frame of a payload: its length in two bytes, then the payload. A
/// payload of more than 65535 bytes has no frame.
pub open spec fn encode_frame(payload: Seq<u8>) -> Option<Seq<u8>> {
    if payload.len() > MAX_PAYLOAD {
        None
    } else {
        Some(u16_bytes(payload.len() as u16) + payload)
    }
}

/// The payload of the frame that `bytes` starts with, if `bytes` holds a
/// whole frame.
pub open spec fn decode_frame(bytes: Seq<u8>) -> Option<Seq<u8>> {
    if bytes.len() < 2 {
        None
    } else {
        let size = u16_value(bytes.subrange(0, 2));
        if bytes.len() < 2 + size {
            None
        } else {
            Some(bytes.subrange(2, 2 + size))
        }
    }
}

/// Splits a length into its two big-endian bytes.
pub fn encode_u16(input: u16) -> (out: [u8; 2])
    ensures
        out@ == u16_bytes(input),
{
    let hi: u8 = (input >> 8) as u8;
    let lo: u8 = (input % 256) as u8;
    assert(input >> 8 == input / 256) by (bit_vector);
    let out = [hi, lo];
    assert(out@ =~= u16_bytes(input));
    out
}

/// Reads a length back from its two big-endian bytes.
pub fn decode_u16(bytes: &[u8]) -> (out: u16)
    requires
        bytes@.len() == 2,
    ensures
        out == u16_value(bytes@),
{
    let hi: u16 = bytes[0] as u16;
    let lo: u16 = bytes[1] as u16;
    hi * 256 + lo
}

/// Takes one frame from the front of `reader`: gives its payload and the
/// number of bytes that the frame took. Fails with `IoError`, and only so,
/// when `reader` ends before the frame does.
pub fn read(reader: &[u8]) -> (out: Result<(Vec<u8>, usize), Error>)
    ensures
        match decode_frame(reader@) {
            Some(payload) => out matches Ok((body, used)) && body@ == payload && used == 2
                + payload.len(),
            None => out == Err::<(Vec<u8>, usize), Error>(Error::IoError),
        },
{
    if reader.len() < 2 {
        return Err(Error::IoError);
    }
    let head = slice_subrange(reader, 0, 2);
    let size: usize = decode_u16(head) as usize;
    if reader.len() - 2 < size {
        return Err(Error::IoError);
    }
    let body = slice_subrange(reader, 2, 2 + size);
    let body = slice_to_vec(body);
    Ok((body, 2 + size))
}

/// Appends the frame of `payload` to `writer`. A payload of more than 65535
/// bytes is refused with `ErrPacketTooBig`, and then nothing is written.
pub fn write(writer: &mut Vec<u8>, payload: &[u8]) -> (out: Result<(), Error>)
    ensures
        match encode_frame(payload@) {
            Some(frame) => out == Ok::<(), Error>(()) && final(writer)@ == old(writer)@ + frame,
            None => out == Err::<(), Error>(Error::ErrPacketTooBig) && final(writer)@ == old(
                writer,
            )@,
        },
{
    if payload.len() > MAX_PAYLOAD {
        return Err(Error::ErrPacketTooBig);
    }
    let size = encode_u16(payload.len() as u16);
    let ghost before = writer@;
    writer.push(size[0]);
    writer.push(size[1]);
    writer.extend_from_slice(payload);
    assert(writer@ =~= before + (u16_bytes(payload.len() as u16) + payload@));
    Ok(())
}

/// Decoding the two bytes of a length gives the length back.
pub proof fn lemma_u16_roundtrip(n: u16)
    ensures
        u16_bytes(n).len() == 2,
        u16_value(u16_bytes(n)) == n,
{
}

/// A frame is never longer than 65537 bytes, and a payload has a frame
/// exactly when it is at most 65535 bytes long.
pub proof fn lemma_frame_size(payload: Seq<u8>)
    ensures
        encode_frame(payload) is Some <==> payload.len() <= MAX_PAYLOAD,
        encode_frame(payload) matches Some(frame) ==> frame.len() == 2 + payload.len()
            && frame.len() <= 2 + MAX_PAYLOAD,
{
}

/// Framing round-trip: a payload that has a frame is read back from it
/// unchanged, whatever follows the frame on the stream.
pub proof fn lemma_frame_roundtrip(payload: Seq<u8>, rest: Seq<u8>)
    ensures
        encode_frame(payload) matches Some(frame) ==> decode_frame(frame + rest) == Some(payload),
{
    if payload.len() <= MAX_PAYLOAD {
        let frame = encode_frame(payload)->0;
        let bytes = frame + rest;
        lemma_u16_roundtrip(payload.len() as u16);
        assert(bytes.subrange(0, 2) =~= u16_bytes(payload.len() as u16));
        assert(bytes.subrange(2, 2 + payload.len() as int) =~= payload);
    }
}

} // verus!

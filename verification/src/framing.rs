//! Length-prefixed messages on a byte stream.
//!
//! A message is a little-endian unsigned 32-bit length followed by exactly
//! that many bytes. The functions here work on bytes in memory; moving them
//! over a connection is the caller's business.

use vstd::prelude::*;

verus! {

/// The number encoded by four little-endian bytes.
pub open spec fn le_value(b0: u8, b1: u8, b2: u8, b3: u8) -> int {
    b0 as int + 256 * (b1 as int) + 65536 * (b2 as int) + 16777216 * (b3 as int)
}

/// The four little-endian bytes of a length.
pub open spec fn le_bytes(length: u32) -> Seq<u8> {
    seq![
        (length as int % 256) as u8,
        (length as int / 256 % 256) as u8,
        (length as int / 65536 % 256) as u8,
        (length as int / 16777216) as u8,
    ]
}

/// A payload behind its length prefix.
pub open spec fn framed(payload: Seq<u8>) -> Seq<u8>
    recommends
        payload.len() <= u32::MAX,
{
    le_bytes(payload.len() as u32) + payload
}

/// The first message of a stream and what follows it; `None` where the
/// stream ends before the message is complete.
pub open spec fn unframed(stream: Seq<u8>) -> Option<(Seq<u8>, Seq<u8>)> {
    if stream.len() < 4 {
        None
    } else {
        let length = le_value(stream[0], stream[1], stream[2], stream[3]);
        if stream.len() < 4 + length {
            None
        } else {
            Some((stream.subrange(4, 4 + length), stream.subrange(4 + length, stream.len() as int)))
        }
    }
}

/// Encodes a length as four little-endian bytes.
pub fn encode_length(length: u32) -> (prefix: [u8; 4])
    ensures
        prefix@ == le_bytes(length),
        le_value(prefix[0], prefix[1], prefix[2], prefix[3]) == length,
{
    let prefix: [u8; 4] = [
        (length % 256) as u8,
        (length / 256 % 256) as u8,
        (length / 65536 % 256) as u8,
        (length / 16777216) as u8,
    ];
    assert(prefix@ =~= le_bytes(length));
    prefix
}

/// Decodes four little-endian bytes as a length.
pub fn decode_length(prefix: &[u8; 4]) -> (length: u32)
    ensures
        length == le_value(prefix[0], prefix[1], prefix[2], prefix[3]),
{
    let b0: u32 = prefix[0] as u32;
    let b1: u32 = prefix[1] as u32;
    let b2: u32 = prefix[2] as u32;
    let b3: u32 = prefix[3] as u32;
    b0 + 256 * b1 + 65536 * b2 + 16777216 * b3
}

/// Puts a payload behind its length prefix. A payload whose length does not
/// fit in 32 bits cannot be framed.
pub fn frame(payload: &Vec<u8>) -> (message: Option<Vec<u8>>)
    ensures
        message.is_some() <==> payload.len() <= u32::MAX,
        message.is_some() ==> message.unwrap()@ == framed(payload@),
{
    if payload.len() > u32::MAX as usize {
        return None;
    }
    let prefix = encode_length(payload.len() as u32);
    let mut message: Vec<u8> = Vec::new();
    message.push(prefix[0]);
    message.push(prefix[1]);
    message.push(prefix[2]);
    message.push(prefix[3]);
    let mut i: usize = 0;
    while i < payload.len()
        invariant
            i <= payload.len(),
            message@ == le_bytes(payload.len() as u32) + payload@.subrange(0, i as int),
        decreases payload.len() - i,
    {
        message.push(payload[i]);
        i += 1;
    }
    assert(payload@.subrange(0, i as int) =~= payload@);
    Some(message)
}

/// Reads the first message of a stream held in memory: the payload and the
/// number of bytes that the message took. `None` where the stream ends
/// before the message is complete.
pub fn unframe(stream: &Vec<u8>) -> (message: Option<(Vec<u8>, usize)>)
    ensures
        match message {
            Some((payload, consumed)) => {
                &&& consumed <= stream.len()
                &&& unframed(stream@) == Some(
                    (payload@, stream@.subrange(consumed as int, stream.len() as int)),
                )
                &&& consumed == 4 + payload.len()
            },
            None => unframed(stream@).is_none(),
        },
{
    if stream.len() < 4 {
        return None;
    }
    let prefix: [u8; 4] = [stream[0], stream[1], stream[2], stream[3]];
    let length = decode_length(&prefix);
    if stream.len() - 4 < length as usize {
        return None;
    }
    let end: usize = 4 + length as usize;
    let mut payload: Vec<u8> = Vec::new();
    let mut i: usize = 4;
    while i < end
        invariant
            4 <= i <= end <= stream.len(),
            payload@ == stream@.subrange(4, i as int),
        decreases end - i,
    {
        payload.push(stream[i]);
        i += 1;
    }
    Some((payload, end))
}

/// A length survives encoding and decoding.
pub proof fn lemma_length_round_trip(length: u32)
    ensures
        le_bytes(length).len() == 4,
        le_value(le_bytes(length)[0], le_bytes(length)[1], le_bytes(length)[2], le_bytes(length)[3])
            == length,
{
}

/// Framing round trip: whatever follows on the stream, reading a message
/// back from a framed payload yields that payload and leaves the rest.
pub proof fn lemma_framing_round_trip(payload: Seq<u8>, rest: Seq<u8>)
    requires
        payload.len() <= u32::MAX,
    ensures
        unframed(framed(payload) + rest) == Some((payload, rest)),
{
    lemma_length_round_trip(payload.len() as u32);
    let stream = framed(payload) + rest;
    assert(stream.len() == 4 + payload.len() + rest.len());
    assert(stream[0] == le_bytes(payload.len() as u32)[0]);
    assert(stream[1] == le_bytes(payload.len() as u32)[1]);
    assert(stream[2] == le_bytes(payload.len() as u32)[2]);
    assert(stream[3] == le_bytes(payload.len() as u32)[3]);
    assert(stream.subrange(4, 4 + payload.len() as int) =~= payload);
    assert(stream.subrange(4 + payload.len() as int, stream.len() as int) =~= rest);
}

} // verus!

//! The wire format of both channels: a four-byte length header, then that
//! many bytes of payload.

use vstd::prelude::*;
use vstd::slice::slice_subrange;

verus! {

/// Where the daemon listens for the bridge.
pub const BRIDGE_SOCKET_PATH: &'static str = "/tmp/shire_bridge.sock";

/// Where the daemon listens for control commands.
pub const CLI_SOCKET_PATH: &'static str = "/tmp/shire_cli.sock";

/// The order of the header's bytes.
#[derive(Debug, Clone, Copy, PartialEq, Eq, Structural)]
pub enum ByteOrder {
    /// Most significant byte first: the channels between the processes.
    Big,
    /// Least significant byte first: the browser's native messaging.
    Little,
}

/// The four bytes of a length, most significant first.
pub open spec fn big_endian(length: int) -> Seq<u8> {
    seq![
        (length / 16777216 % 256) as u8,
        (length / 65536 % 256) as u8,
        (length / 256 % 256) as u8,
        (length % 256) as u8,
    ]
}

/// The header that announces a payload of the given length.
pub open spec fn header_of(length: int, order: ByteOrder) -> Seq<u8> {
    match order {
        ByteOrder::Big => big_endian(length),
        ByteOrder::Little => big_endian(length).reverse(),
    }
}

/// The length that a header announces.
pub open spec fn length_of(header: Seq<u8>, order: ByteOrder) -> int {
    match order {
        ByteOrder::Big => header[0] * 16777216 + header[1] * 65536 + header[2] * 256 + header[3],
        ByteOrder::Little => header[3] * 16777216 + header[2] * 65536 + header[1] * 256
            + header[0],
    }
}

/// A message as it goes over the wire.
pub open spec fn framed(message: Seq<u8>, order: ByteOrder) -> Seq<u8> {
    header_of(message.len() as int, order) + message
}

/// A header announces the length that it was made for.
pub proof fn lemma_header_round_trip(length: int, order: ByteOrder)
    requires
        0 <= length <= u32::MAX,
    ensures
        header_of(length, order).len() == 4,
        length_of(header_of(length, order), order) == length,
{
    let b = big_endian(length);
    assert(b.len() == 4);
    assert(b.reverse().len() == 4);
    assert(b.reverse()[0] == b[3] && b.reverse()[1] == b[2] && b.reverse()[2] == b[1]
        && b.reverse()[3] == b[0]);
}

/// The header for a payload of the given length.
pub fn encode_length(length: u32, order: ByteOrder) -> (header: [u8; 4])
    ensures
        header@ == header_of(length as int, order),
{
    let b0: u8 = (length / 16777216 % 256) as u8;
    let b1: u8 = (length / 65536 % 256) as u8;
    let b2: u8 = (length / 256 % 256) as u8;
    let b3: u8 = (length % 256) as u8;
    let header = match order {
        ByteOrder::Big => [b0, b1, b2, b3],
        ByteOrder::Little => [b3, b2, b1, b0],
    };
    proof {
        let b = big_endian(length as int);
        assert(b.reverse().len() == 4);
        assert(b.reverse()[0] == b[3] && b.reverse()[1] == b[2] && b.reverse()[2] == b[1]
            && b.reverse()[3] == b[0]);
        assert(header@ =~= header_of(length as int, order));
    }
    header
}

/// The length that a header announces.
pub fn decode_length(header: &[u8; 4], order: ByteOrder) -> (length: u32)
    ensures
        length == length_of(header@, order),
{
    match order {
        ByteOrder::Big => header[0] as u32 * 16777216 + header[1] as u32 * 65536 + header[2] as u32
            * 256 + header[3] as u32,
        ByteOrder::Little => header[3] as u32 * 16777216 + header[2] as u32 * 65536
            + header[1] as u32 * 256 + header[0] as u32,
    }
}

/// Frames a message for the wire: its length in four bytes, then the
/// message. A message too long for the header gives `None`.
pub fn frame_message(message: &[u8], order: ByteOrder) -> (frame: Option<Vec<u8>>)
    ensures
        match frame {
            Some(bytes) => message@.len() <= u32::MAX && bytes@ == framed(message@, order),
            None => message@.len() > u32::MAX,
        },
{
    if message.len() > u32::MAX as usize {
        return None;
    }
    let header = encode_length(message.len() as u32, order);
    let mut bytes: Vec<u8> = Vec::new();
    bytes.push(header[0]);
    bytes.push(header[1]);
    bytes.push(header[2]);
    bytes.push(header[3]);
    assert(bytes@ =~= header@);
    let mut i: usize = 0;
    while i < message.len()
        invariant
            i <= message@.len(),
            bytes@ == header@ + message@.take(i as int),
        decreases message.len() - i,
    {
        bytes.push(message[i]);
        assert(bytes@ =~= header@ + message@.take(i + 1));
        i += 1;
    }
    assert(message@.take(message@.len() as int) =~= message@);
    Some(bytes)
}

/// Takes the first message off a buffer of received bytes: the payload and
/// the number of bytes that header and payload took. A buffer that does not
/// yet hold a whole message gives `None`.
pub fn unframe_message(buffer: &[u8], order: ByteOrder) -> (message: Option<(Vec<u8>, usize)>)
    ensures
        match message {
            Some((payload, used)) => {
                &&& buffer@.len() >= 4
                &&& used == 4 + length_of(buffer@.take(4), order)
                &&& used <= buffer@.len()
                &&& payload@ == buffer@.subrange(4, used as int)
            },
            None => buffer@.len() < 4 || buffer@.len() < 4 + length_of(buffer@.take(4), order),
        },
{
    if buffer.len() < 4 {
        return None;
    }
    let header: [u8; 4] = [buffer[0], buffer[1], buffer[2], buffer[3]];
    assert(header@ =~= buffer@.take(4));
    let length = decode_length(&header, order) as usize;
    if buffer.len() - 4 < length {
        return None;
    }
    let body = slice_subrange(buffer, 4, 4 + length);
    let mut payload: Vec<u8> = Vec::new();
    let mut i: usize = 0;
    while i < body.len()
        invariant
            i <= body@.len(),
            payload@ == body@.take(i as int),
        decreases body.len() - i,
    {
        payload.push(body[i]);
        assert(payload@ =~= body@.take(i + 1));
        i += 1;
    }
    assert(body@.take(body@.len() as int) =~= body@);
    Some((payload, 4 + length))
}

/// What was framed is what comes off the wire, whatever follows it.
pub proof fn lemma_frame_round_trip(message: Seq<u8>, rest: Seq<u8>, order: ByteOrder)
    requires
        message.len() <= u32::MAX,
    ensures
        length_of((framed(message, order) + rest).take(4), order) == message.len(),
        (framed(message, order) + rest).subrange(4, 4 + message.len() as int) == message,
{
    lemma_header_round_trip(message.len() as int, order);
    let wire = framed(message, order) + rest;
    assert(wire.take(4) =~= header_of(message.len() as int, order));
    assert(wire.subrange(4, 4 + message.len() as int) =~= message);
}

} // verus!

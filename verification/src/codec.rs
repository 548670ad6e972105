//! The packet codec: the fixed 84-byte header layout, encoded and decoded
//! as little-endian `u32` fields.
//!
//! Header layout, byte offsets: magic at 0, sequence at 4, packet type at 8,
//! command at 12, sixteen argument words at 16 + 4*i, payload length at 80.
//! A payload of exactly `data_length` bytes follows the header on the wire.

use vstd::bytes::*;
use vstd::prelude::*;

verus! {

/// Byte length of every packet header.
pub const HEADER_LEN: usize = 84;

/// Constant at offset 0 of every packet; a mismatch means the stream is
/// desynchronized.
pub const MAGIC: u32 = 0x12345678;

/// Number of `u32` argument slots in a header.
pub const ARG_COUNT: usize = 16;

/// Command code of a heartbeat packet; inbound, it also carries the
/// process-list text dump.
pub const CMD_HEARTBEAT: u32 = 0;

/// Command code of the hello / list-process request.
pub const CMD_HELLO: u32 = 3;

/// Command code of the reload request.
pub const CMD_RELOAD: u32 = 4;

/// Command code of a memory-read request and of its response.
pub const CMD_MEM_READ: u32 = 9;

/// Command code of a memory-write request.
pub const CMD_MEM_WRITE: u32 = 10;

/// Packet type of a plain request.
pub const TYPE_REQUEST: u32 = 0;

/// Packet type of a request with a trailing payload.
pub const TYPE_REQUEST_WITH_DATA: u32 = 1;

/// Little-endian bytes of the first `n` argument words, concatenated.
pub open spec fn spec_args_bytes(args: Seq<u32>, n: int) -> Seq<u8>
    decreases n,
{
    if n <= 0 {
        Seq::empty()
    } else {
        spec_args_bytes(args, n - 1) + spec_u32_to_le_bytes(args[n - 1])
    }
}

/// The 84 header bytes for the given field values.
pub open spec fn spec_encode_header(
    sequence: u32,
    packet_type: u32,
    command: u32,
    args: Seq<u32>,
    data_length: u32,
) -> Seq<u8> {
    spec_u32_to_le_bytes(MAGIC) + spec_u32_to_le_bytes(sequence) + spec_u32_to_le_bytes(packet_type)
        + spec_u32_to_le_bytes(command) + spec_args_bytes(args, ARG_COUNT as int)
        + spec_u32_to_le_bytes(data_length)
}

pub proof fn lemma_args_bytes_len(args: Seq<u32>, n: int)
    requires
        0 <= n,
    ensures
        spec_args_bytes(args, n).len() == 4 * n,
    decreases n,
{
    lemma_auto_spec_u32_to_from_le_bytes();
    if n > 0 {
        lemma_args_bytes_len(args, n - 1);
    }
}

pub proof fn lemma_encode_header_len(
    sequence: u32,
    packet_type: u32,
    command: u32,
    args: Seq<u32>,
    data_length: u32,
)
    ensures
        spec_encode_header(sequence, packet_type, command, args, data_length).len()
            == HEADER_LEN as int,
{
    lemma_auto_spec_u32_to_from_le_bytes();
    lemma_args_bytes_len(args, ARG_COUNT as int);
}

/// The header fields this client reads out of an inbound header.
///
/// The sixteen argument words of inbound packets are never consulted, so
/// decoding leaves them out.
#[derive(Clone, Copy, Debug)]
pub struct DecodedHeader {
    pub magic: u32,
    pub sequence: u32,
    pub packet_type: u32,
    pub command: u32,
    pub data_length: u32,
}

/// The `u32` stored little-endian at byte offset `off`.
pub open spec fn spec_field_at(b: Seq<u8>, off: int) -> u32 {
    spec_u32_from_le_bytes(b.subrange(off, off + 4))
}

/// The decoded view of 84 header bytes.
pub open spec fn spec_decode_header(b: Seq<u8>) -> DecodedHeader
    recommends
        b.len() == HEADER_LEN,
{
    DecodedHeader {
        magic: spec_field_at(b, 0),
        sequence: spec_field_at(b, 4),
        packet_type: spec_field_at(b, 8),
        command: spec_field_at(b, 12),
        data_length: spec_field_at(b, 80),
    }
}

/// Encodes one header. The result is always exactly 84 bytes.
pub fn encode_header(
    sequence: u32,
    packet_type: u32,
    command: u32,
    args: &[u32; 16],
    data_length: u32,
) -> (r: Vec<u8>)
    ensures
        r@ == spec_encode_header(sequence, packet_type, command, args@, data_length),
        r@.len() == HEADER_LEN,
{
    proof {
        lemma_auto_spec_u32_to_from_le_bytes();
        lemma_args_bytes_len(args@, ARG_COUNT as int);
    }
    let mut buf = u32_to_le_bytes(MAGIC);
    let mut field = u32_to_le_bytes(sequence);
    buf.append(&mut field);
    let mut field = u32_to_le_bytes(packet_type);
    buf.append(&mut field);
    let mut field = u32_to_le_bytes(command);
    buf.append(&mut field);
    let ghost prefix = buf@;
    for i in 0..16
        invariant
            buf@ == prefix + spec_args_bytes(args@, i as int),
    {
        let mut word = u32_to_le_bytes(args[i]);
        buf.append(&mut word);
    }
    let mut field = u32_to_le_bytes(data_length);
    buf.append(&mut field);
    buf
}

/// Decodes the fields of one 84-byte header.
pub fn decode_header(buf: &[u8]) -> (r: DecodedHeader)
    requires
        buf@.len() == HEADER_LEN,
    ensures
        r == spec_decode_header(buf@),
{
    DecodedHeader {
        magic: u32_from_le_bytes(&buf[0..4]),
        sequence: u32_from_le_bytes(&buf[4..8]),
        packet_type: u32_from_le_bytes(&buf[8..12]),
        command: u32_from_le_bytes(&buf[12..16]),
        data_length: u32_from_le_bytes(&buf[80..84]),
    }
}

/// The `u32` stored little-endian in the first four bytes of `b`: how a
/// four-byte value read from the target's memory is interpreted.
pub fn read_u32_le(b: &[u8]) -> (r: u32)
    requires
        b@.len() >= 4,
    ensures
        r == spec_u32_from_le_bytes(b@.subrange(0, 4)),
{
    u32_from_le_bytes(&b[0..4])
}

/// The `u16` stored little-endian in the first two bytes of `b`.
pub fn read_u16_le(b: &[u8]) -> (r: u16)
    requires
        b@.len() >= 2,
    ensures
        r == spec_u16_from_le_bytes(b@.subrange(0, 2)),
{
    u16_from_le_bytes(&b[0..2])
}

/// The four little-endian bytes of `v`: what a four-byte write of `v` to the
/// target's memory sends.
pub fn write_u32_le(v: u32) -> (r: Vec<u8>)
    ensures
        r@ == spec_u32_to_le_bytes(v),
        r@.len() == 4,
{
    u32_to_le_bytes(v)
}

/// The two little-endian bytes of `v`.
pub fn write_u16_le(v: u16) -> (r: Vec<u8>)
    ensures
        r@ == spec_u16_to_le_bytes(v),
        r@.len() == 2,
{
    u16_to_le_bytes(v)
}

/// Law: reading back a stored little-endian `u32` gives the stored value.
pub proof fn lemma_u32_le_round_trip(v: u32)
    ensures
        spec_u32_from_le_bytes(spec_u32_to_le_bytes(v)) == v,
{
    lemma_auto_spec_u32_to_from_le_bytes();
    assert(spec_u32_to_le_bytes(v).len() == 4);
}

/// Law: decoding an encoded header gives back the magic and every field the
/// encoder was handed.
pub proof fn lemma_header_round_trip(
    sequence: u32,
    packet_type: u32,
    command: u32,
    args: Seq<u32>,
    data_length: u32,
)
    ensures
        ({
            let h = spec_decode_header(
                spec_encode_header(sequence, packet_type, command, args, data_length),
            );
            h.magic == MAGIC && h.sequence == sequence && h.packet_type == packet_type
                && h.command == command && h.data_length == data_length
        }),
{
    lemma_auto_spec_u32_to_from_le_bytes();
    lemma_args_bytes_len(args, ARG_COUNT as int);
    let b = spec_encode_header(sequence, packet_type, command, args, data_length);
    assert(b.subrange(0, 4) =~= spec_u32_to_le_bytes(MAGIC));
    assert(b.subrange(4, 8) =~= spec_u32_to_le_bytes(sequence));
    assert(b.subrange(8, 12) =~= spec_u32_to_le_bytes(packet_type));
    assert(b.subrange(12, 16) =~= spec_u32_to_le_bytes(command));
    assert(b.subrange(80, 84) =~= spec_u32_to_le_bytes(data_length));
}

} // verus!

use ntr::codec::{
    decode_header, encode_header, read_u16_le, read_u32_le, write_u16_le, write_u32_le,
    CMD_MEM_WRITE, HEADER_LEN, MAGIC, TYPE_REQUEST_WITH_DATA,
};

fn u32_at(buf: &[u8], off: usize) -> u32 {
    read_u32_le(&buf[off..])
}

#[test]
fn encoded_header_is_84_bytes() {
    let args = [0u32; 16];
    let buf = encode_header(1000, 0, 0, &args, 0);
    assert_eq!(buf.len(), HEADER_LEN);
}

#[test]
fn encoded_header_layout_is_little_endian() {
    let mut args = [0u32; 16];
    args[0] = 7;
    args[1] = 0x1000;
    args[2] = 4;
    let buf = encode_header(1000, 0, 9, &args, 0);
    // magic 0x12345678, little-endian
    assert_eq!(&buf[0..4], &[0x78, 0x56, 0x34, 0x12]);
    // sequence 1000 = 0x3e8
    assert_eq!(&buf[4..8], &[0xe8, 0x03, 0x00, 0x00]);
    // packet type 0
    assert_eq!(&buf[8..12], &[0, 0, 0, 0]);
    // command 9
    assert_eq!(&buf[12..16], &[9, 0, 0, 0]);
    // args at 16 + 4 * i
    assert_eq!(u32_at(&buf, 16), 7);
    assert_eq!(u32_at(&buf, 20), 0x1000);
    assert_eq!(u32_at(&buf, 24), 4);
    for i in 3..16 {
        assert_eq!(u32_at(&buf, 16 + 4 * i), 0);
    }
    // data length at 80
    assert_eq!(u32_at(&buf, 80), 0);
}

#[test]
fn encode_then_decode_reproduces_fields() {
    let mut args = [0u32; 16];
    args[0] = 0xDEAD;
    args[5] = 42;
    let buf = encode_header(0xDEADBEEF, TYPE_REQUEST_WITH_DATA, CMD_MEM_WRITE, &args, 123);
    let h = decode_header(&buf);
    assert_eq!(h.magic, MAGIC);
    assert_eq!(h.sequence, 0xDEADBEEF);
    assert_eq!(h.packet_type, TYPE_REQUEST_WITH_DATA);
    assert_eq!(h.command, CMD_MEM_WRITE);
    assert_eq!(h.data_length, 123);
}

#[test]
fn decode_reads_handwritten_header() {
    let mut buf = vec![0u8; 84];
    buf[0..4].copy_from_slice(&[0x78, 0x56, 0x34, 0x12]);
    buf[4..8].copy_from_slice(&[0xd0, 0x07, 0x00, 0x00]); // 2000
    buf[12..16].copy_from_slice(&[0x00, 0x00, 0x00, 0x00]); // heartbeat
    buf[80..84].copy_from_slice(&[0x10, 0x00, 0x00, 0x00]); // 16 payload bytes
    let h = decode_header(&buf);
    assert_eq!(h.magic, MAGIC);
    assert_eq!(h.sequence, 2000);
    assert_eq!(h.command, 0);
    assert_eq!(h.data_length, 16);
}

#[test]
fn u32_le_round_trips_through_bytes() {
    let b = write_u32_le(0xCAFEBABE);
    assert_eq!(b, vec![0xBE, 0xBA, 0xFE, 0xCA]);
    assert_eq!(read_u32_le(&b), 0xCAFEBABE);
}

#[test]
fn u16_le_round_trips_through_bytes() {
    let b = write_u16_le(0xBEEF);
    assert_eq!(b, vec![0xEF, 0xBE]);
    assert_eq!(read_u16_le(&b), 0xBEEF);
}

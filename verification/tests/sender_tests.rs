use ntr::codec::{decode_header, read_u32_le, CMD_HEARTBEAT, CMD_HELLO, CMD_MEM_READ, CMD_MEM_WRITE, CMD_RELOAD, MAGIC};
use ntr::ntr_sender::{NtrSender, INITIAL_SEQ, SEQ_STRIDE};

#[test]
fn new_sender_starts_at_initial_sequence_ready_to_heartbeat() {
    let s = NtrSender::new();
    assert_eq!(s.current_seq, INITIAL_SEQ);
    assert!(s.is_heartbeat_sendable());
}

#[test]
fn sendable_flag_can_be_cleared_and_set() {
    let mut s = NtrSender::new();
    s.set_is_heartbeat_sendable(false);
    assert!(!s.is_heartbeat_sendable());
    s.set_is_heartbeat_sendable(true);
    assert!(s.is_heartbeat_sendable());
}

#[test]
fn sequence_numbers_increase_by_stride_across_interleaved_sends() {
    let mut s = NtrSender::new();
    let p1 = s.send_heartbeat_packet();
    let p2 = s.send_mem_read_packet(0x100, 8, 31);
    let p3 = s.send_hello_packet();
    let p4 = s.send_mem_write_packet(0x200, 31, &vec![1, 2, 3]);
    let seqs = [
        decode_header(&p1).sequence,
        decode_header(&p2).sequence,
        decode_header(&p3).sequence,
        decode_header(&p4[0..84]).sequence,
    ];
    assert_eq!(seqs, [1000, 2000, 3000, 4000]);
    for w in seqs.windows(2) {
        assert_eq!(w[1], w[0] + SEQ_STRIDE);
    }
    assert_eq!(s.current_seq, 5000);
}

#[test]
fn mem_read_packet_has_command_9_and_pid_addr_size_args() {
    let mut s = NtrSender::new();
    let p = s.send_mem_read_packet(0x1000, 4, 7);
    assert_eq!(p.len(), 84);
    let h = decode_header(&p);
    assert_eq!(h.magic, MAGIC);
    assert_eq!(h.command, CMD_MEM_READ);
    assert_eq!(h.packet_type, 0);
    assert_eq!(h.data_length, 0);
    assert_eq!(read_u32_le(&p[16..]), 7); // pid
    assert_eq!(read_u32_le(&p[20..]), 0x1000); // address
    assert_eq!(read_u32_le(&p[24..]), 4); // size
    for i in 3..16 {
        assert_eq!(read_u32_le(&p[16 + 4 * i..]), 0);
    }
}

#[test]
fn mem_write_packet_is_header_then_payload() {
    let mut s = NtrSender::new();
    let data = vec![0xDE, 0xAD, 0xBE, 0xEF];
    let p = s.send_mem_write_packet(0x2000, 7, &data);
    assert_eq!(p.len(), 88);
    let h = decode_header(&p[0..84]);
    assert_eq!(h.command, CMD_MEM_WRITE);
    assert_eq!(h.packet_type, 1);
    assert_eq!(h.data_length, 4);
    assert_eq!(read_u32_le(&p[16..]), 7); // pid
    assert_eq!(read_u32_le(&p[20..]), 0x2000); // address
    assert_eq!(read_u32_le(&p[24..]), 4); // length
    assert_eq!(&p[84..88], &[0xDE, 0xAD, 0xBE, 0xEF]);
}

#[test]
fn empty_mem_write_packet_has_no_payload() {
    let mut s = NtrSender::new();
    let p = s.send_mem_write_packet(0x2000, 7, &vec![]);
    assert_eq!(p.len(), 84);
    assert_eq!(decode_header(&p).data_length, 0);
}

#[test]
fn control_packets_carry_their_commands() {
    let mut s = NtrSender::new();
    let hb = s.send_heartbeat_packet();
    let hello = s.send_hello_packet();
    let reload = s.send_reload_packet();
    assert_eq!(decode_header(&hb).command, CMD_HEARTBEAT);
    assert_eq!(decode_header(&hello).command, CMD_HELLO);
    assert_eq!(decode_header(&reload).command, CMD_RELOAD);
    for p in [&hb, &hello, &reload] {
        let h = decode_header(p);
        assert_eq!(h.packet_type, 0);
        assert_eq!(h.data_length, 0);
        for i in 0..16 {
            assert_eq!(read_u32_le(&p[16 + 4 * i..]), 0);
        }
    }
}

#[test]
fn sending_does_not_touch_the_heartbeat_flag() {
    let mut s = NtrSender::new();
    s.set_is_heartbeat_sendable(false);
    let _ = s.send_mem_read_packet(0, 1, 1);
    assert!(!s.is_heartbeat_sendable());
    s.set_is_heartbeat_sendable(true);
    let _ = s.send_mem_write_packet(0, 1, &vec![9]);
    assert!(s.is_heartbeat_sendable());
}

use ntr::codec::{decode_header, CMD_HEARTBEAT};
use ntr::heartbeat::{heartbeat_tick, HeartbeatTimer, HEARTBEAT_INTERVAL_MS};
use ntr::ntr_sender::NtrSender;

#[test]
fn first_heartbeat_goes_out_once_the_interval_has_passed() {
    let mut sender = NtrSender::new();
    let mut timer = HeartbeatTimer { last_send_ms: 0 };
    // too early
    assert!(heartbeat_tick(&mut sender, &mut timer, 500).is_none());
    assert_eq!(timer.last_send_ms, 0);
    // due
    let sent = heartbeat_tick(&mut sender, &mut timer, HEARTBEAT_INTERVAL_MS);
    let packet = sent.expect("heartbeat was due");
    let h = decode_header(&packet[0..84]);
    assert_eq!(h.command, CMD_HEARTBEAT);
    assert_eq!(h.sequence, 1000);
    assert_eq!(h.data_length, 0);
    assert_eq!(timer.last_send_ms, HEARTBEAT_INTERVAL_MS);
    assert!(!sender.is_heartbeat_sendable());
}

#[test]
fn no_second_heartbeat_before_the_minimum_interval() {
    let mut sender = NtrSender::new();
    let mut timer = HeartbeatTimer { last_send_ms: 0 };
    assert!(heartbeat_tick(&mut sender, &mut timer, 1000).is_some());
    // acknowledged at once, but the interval has not passed
    sender.set_is_heartbeat_sendable(true);
    assert!(heartbeat_tick(&mut sender, &mut timer, 1500).is_none());
    assert!(heartbeat_tick(&mut sender, &mut timer, 1999).is_none());
    assert!(heartbeat_tick(&mut sender, &mut timer, 2000).is_some());
}

#[test]
fn no_second_heartbeat_without_an_acknowledgement() {
    let mut sender = NtrSender::new();
    let mut timer = HeartbeatTimer { last_send_ms: 0 };
    assert!(heartbeat_tick(&mut sender, &mut timer, 1000).is_some());
    // ample time, but no acknowledgement was observed
    assert!(heartbeat_tick(&mut sender, &mut timer, 5000).is_none());
    assert!(heartbeat_tick(&mut sender, &mut timer, 60_000).is_none());
    // the acknowledgement allows the next heartbeat
    sender.set_is_heartbeat_sendable(true);
    assert!(heartbeat_tick(&mut sender, &mut timer, 61_000).is_some());
}

#[test]
fn idle_ticks_change_nothing() {
    let mut sender = NtrSender::new();
    sender.set_is_heartbeat_sendable(false);
    let mut timer = HeartbeatTimer { last_send_ms: 7 };
    assert!(heartbeat_tick(&mut sender, &mut timer, 100_000).is_none());
    assert_eq!(timer.last_send_ms, 7);
    assert_eq!(sender.current_seq, 1000);
}

#[test]
fn heartbeats_share_the_connection_sequence() {
    let mut sender = NtrSender::new();
    let mut timer = HeartbeatTimer { last_send_ms: 0 };
    let _request = sender.send_mem_read_packet(0, 4, 1); // sequence 1000
    let hb = heartbeat_tick(&mut sender, &mut timer, 1000).expect("due");
    assert_eq!(decode_header(&hb).sequence, 2000);
}

//! Heartbeat pacing: at most one heartbeat per interval, and none until
//! the last one was acknowledged.
//!
//! A dedicated thread wakes up every few hundred milliseconds, locks the
//! sender, and calls [`heartbeat_tick`] with the current reading of a
//! monotonic millisecond clock. The sendable flag (the sender's
//! `is_heartbeat_sendable` flag) closes on every send and opens again only
//! when the receiver sees a heartbeat-command packet.
//!
//! [`HbState`] and the functions over it are the ghost model of that loop:
//! one state per moment, one transition per tick or acknowledgement. The
//! lemmas at the end are the pacing laws, proved over every possible trace
//! of transitions.

use crate::codec::{spec_encode_header, CMD_HEARTBEAT, TYPE_REQUEST};
use crate::ntr_sender::{spec_zero_args, NtrSender, SEQ_STRIDE};
use vstd::prelude::*;

verus! {

/// Minimum number of milliseconds between two heartbeat sends.
pub const HEARTBEAT_INTERVAL_MS: u64 = 1000;

/// The heartbeat loop's private state: when the last heartbeat left.
#[derive(Clone, Copy, Debug)]
pub struct HeartbeatTimer {
    /// Clock reading, in milliseconds, at the last heartbeat send; at
    /// connection start, the reading when the loop began.
    pub last_send_ms: u64,
}

/// A heartbeat is due: the flag allows one and the interval has elapsed.
pub open spec fn spec_heartbeat_due(sendable: bool, last_send_ms: u64, now_ms: u64) -> bool {
    sendable && now_ms - last_send_ms >= HEARTBEAT_INTERVAL_MS
}

/// One pass of the heartbeat loop, with the sender locked and `now_ms` the
/// current reading of a monotonic millisecond clock. When a heartbeat is
/// due it builds the packet, lowers the flag, and resets the timer;
/// otherwise it changes nothing. The caller writes the returned bytes to
/// the stream before releasing the sender.
pub fn heartbeat_tick(sender: &mut NtrSender, timer: &mut HeartbeatTimer, now_ms: u64) -> (r:
    Option<Vec<u8>>)
    requires
        old(sender).current_seq + SEQ_STRIDE <= u32::MAX,
        old(timer).last_send_ms <= now_ms,
    ensures
        r is Some <==> spec_heartbeat_due(
            old(sender).is_heartbeat_sendable,
            old(timer).last_send_ms,
            now_ms,
        ),
        r matches Some(b) ==> b@ == spec_encode_header(
            old(sender).current_seq,
            TYPE_REQUEST,
            CMD_HEARTBEAT,
            spec_zero_args(),
            0,
        ),
        r is Some ==> final(sender).current_seq == old(sender).current_seq + SEQ_STRIDE
            && !final(sender).is_heartbeat_sendable && final(timer).last_send_ms == now_ms,
        r is None ==> *final(sender) == *old(sender) && *final(timer) == *old(timer),
        ({
            let s = HbState {
                sendable: old(sender).is_heartbeat_sendable,
                last_send_ms: old(timer).last_send_ms,
            };
            let stepped = spec_hb_next(s, HbEvent::Tick { now_ms });
            final(sender).is_heartbeat_sendable == stepped.sendable
                && final(timer).last_send_ms == stepped.last_send_ms
        }),
{
    if now_ms - timer.last_send_ms >= HEARTBEAT_INTERVAL_MS && sender.is_heartbeat_sendable() {
        let b = sender.send_heartbeat_packet();
        sender.set_is_heartbeat_sendable(false);
        timer.last_send_ms = now_ms;
        Some(b)
    } else {
        None
    }
}

/// An event the heartbeat flag reacts to: a loop tick at a clock reading, or
/// a heartbeat acknowledgement observed by the receiver.
#[derive(PartialEq, Eq, Structural)]
pub enum HbEvent {
    Tick { now_ms: u64 },
    Ack,
}

/// The pacing state: the sendable flag and the last-send time.
pub struct HbState {
    pub sendable: bool,
    pub last_send_ms: u64,
}

/// The clock reading of a tick event.
pub open spec fn spec_tick_time(e: HbEvent) -> u64 {
    match e {
        HbEvent::Tick { now_ms } => now_ms,
        HbEvent::Ack => 0,
    }
}

/// The event `e`, arriving in state `s`, sends a heartbeat.
pub open spec fn spec_hb_sends(s: HbState, e: HbEvent) -> bool {
    e is Tick && spec_heartbeat_due(s.sendable, s.last_send_ms, spec_tick_time(e))
}

/// The state after event `e` arrives in state `s`: an acknowledgement opens
/// the flag; a tick that sends lowers it and resets the timer; any other
/// tick changes nothing.
pub open spec fn spec_hb_next(s: HbState, e: HbEvent) -> HbState {
    match e {
        HbEvent::Ack => HbState { sendable: true, last_send_ms: s.last_send_ms },
        HbEvent::Tick { now_ms } => if spec_heartbeat_due(s.sendable, s.last_send_ms, now_ms) {
            HbState { sendable: false, last_send_ms: now_ms }
        } else {
            s
        },
    }
}

/// The state after the whole trace `es` has arrived, starting from `s0`.
pub open spec fn spec_hb_run(s0: HbState, es: Seq<HbEvent>) -> HbState
    decreases es.len(),
{
    if es.len() == 0 {
        s0
    } else {
        spec_hb_next(spec_hb_run(s0, es.drop_last()), es.last())
    }
}

/// The event at index `i` of the trace sends a heartbeat.
pub open spec fn spec_sends_at(s0: HbState, es: Seq<HbEvent>, i: int) -> bool {
    0 <= i < es.len() && spec_hb_sends(spec_hb_run(s0, es.take(i)), es[i])
}

/// The tick readings along the trace never decrease: what a monotonic clock
/// guarantees.
pub open spec fn spec_ticks_monotone(es: Seq<HbEvent>) -> bool {
    forall|k1: int, k2: int|
        0 <= k1 <= k2 < es.len() && es[k1] is Tick && es[k2] is Tick ==> spec_tick_time(es[k1])
            <= spec_tick_time(es[k2])
}

/// After a send, the flag stays down as long as no acknowledgement
/// arrives.
pub proof fn lemma_no_ack_keeps_flag_down(s0: HbState, es: Seq<HbEvent>, i: int, m: int)
    requires
        spec_sends_at(s0, es, i),
        i < m <= es.len(),
        forall|k: int| i < k < m ==> es[k] != HbEvent::Ack,
    ensures
        !spec_hb_run(s0, es.take(m)).sendable,
    decreases m,
{
    assert(es.take(m).drop_last() =~= es.take(m - 1));
    assert(es.take(m).last() == es[m - 1]);
    if m == i + 1 {
    } else {
        lemma_no_ack_keeps_flag_down(s0, es, i, m - 1);
    }
}

/// After a send, the recorded last-send time never falls below that send's
/// clock reading.
pub proof fn lemma_last_send_grows(s0: HbState, es: Seq<HbEvent>, i: int, m: int)
    requires
        spec_sends_at(s0, es, i),
        spec_ticks_monotone(es),
        i < m <= es.len(),
    ensures
        spec_hb_run(s0, es.take(m)).last_send_ms >= spec_tick_time(es[i]),
    decreases m,
{
    assert(es.take(m).drop_last() =~= es.take(m - 1));
    assert(es.take(m).last() == es[m - 1]);
    if m == i + 1 {
    } else {
        lemma_last_send_grows(s0, es, i, m - 1);
    }
}

/// Law: minimum interval. Under a monotonic clock, two heartbeat sends on
/// one connection are never less than [`HEARTBEAT_INTERVAL_MS`] apart,
/// whatever trace of ticks and acknowledgements lies between them.
pub proof fn lemma_heartbeat_min_interval(s0: HbState, es: Seq<HbEvent>, i: int, j: int)
    requires
        spec_ticks_monotone(es),
        spec_sends_at(s0, es, i),
        spec_sends_at(s0, es, j),
        i < j,
    ensures
        spec_tick_time(es[j]) >= spec_tick_time(es[i]) + HEARTBEAT_INTERVAL_MS,
{
    lemma_last_send_grows(s0, es, i, j);
}

/// Law: acknowledgement required. Once a heartbeat is sent, no further
/// heartbeat is sent until the receiver has observed an acknowledgement.
pub proof fn lemma_heartbeat_requires_ack(s0: HbState, es: Seq<HbEvent>, i: int, j: int)
    requires
        spec_sends_at(s0, es, i),
        spec_sends_at(s0, es, j),
        i < j,
    ensures
        exists|k: int| i < k < j && es[k] == HbEvent::Ack,
{
    if !(exists|k: int| i < k < j && es[k] == HbEvent::Ack) {
        lemma_no_ack_keeps_flag_down(s0, es, i, j);
        assert(false);
    }
}

} // verus!

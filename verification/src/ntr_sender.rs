//! The sequenced sender: the one component that numbers outbound packets.
//!
//! Every packet of a connection is built here, so the sequence counter grows
//! by exactly [`SEQ_STRIDE`] per packet, whichever operation sent it. The
//! functions return the bytes to transmit; the transport layer around the
//! library must write each returned buffer to the stream as one contiguous
//! chunk, and must hold exclusive access to the sender while it does so, so
//! that two packets never interleave on the wire.

use crate::codec::{
    encode_header, spec_encode_header, ARG_COUNT, CMD_HEARTBEAT, CMD_HELLO, CMD_MEM_READ,
    CMD_MEM_WRITE, CMD_RELOAD, HEADER_LEN, TYPE_REQUEST, TYPE_REQUEST_WITH_DATA,
};
use vstd::prelude::*;

verus! {

/// Sequence number carried by the first packet of a connection.
pub const INITIAL_SEQ: u32 = 1000;

/// Fixed amount the sequence number grows by with every packet.
pub const SEQ_STRIDE: u32 = 1000;

/// An argument block with `a0`, `a1`, `a2` in the first three slots and zero
/// in the remaining thirteen.
pub open spec fn spec_args3(a0: u32, a1: u32, a2: u32) -> Seq<u32> {
    Seq::new(
        ARG_COUNT as nat,
        |i: int|
            if i == 0 {
                a0
            } else if i == 1 {
                a1
            } else if i == 2 {
                a2
            } else {
                0u32
            },
    )
}

/// The all-zero argument block.
pub open spec fn spec_zero_args() -> Seq<u32> {
    Seq::new(ARG_COUNT as nat, |i: int| 0u32)
}

/// The sequence counter and the heartbeat flag of one connection.
///
/// The transport layer keeps one value of this type per connection, behind a
/// mutual-exclusion boundary shared by every thread that sends.
#[derive(Clone, Copy, Debug)]
pub struct NtrSender {
    /// Sequence number the next packet will carry.
    pub current_seq: u32,
    /// True when the next heartbeat may be sent: initially, and again once
    /// the receiver has seen a heartbeat acknowledgement.
    pub is_heartbeat_sendable: bool,
}

impl NtrSender {
    /// A sender in the initial state of a fresh connection.
    pub fn new() -> (r: Self)
        ensures
            r.current_seq == INITIAL_SEQ,
            r.is_heartbeat_sendable,
    {
        NtrSender { current_seq: INITIAL_SEQ, is_heartbeat_sendable: true }
    }

    /// Whether a heartbeat may be sent now.
    pub fn is_heartbeat_sendable(&self) -> (r: bool)
        ensures
            r == self.is_heartbeat_sendable,
    {
        self.is_heartbeat_sendable
    }

    /// Sets the heartbeat flag.
    pub fn set_is_heartbeat_sendable(&mut self, b: bool)
        ensures
            final(self).is_heartbeat_sendable == b,
            final(self).current_seq == old(self).current_seq,
    {
        self.is_heartbeat_sendable = b;
    }

    /// Builds one packet carrying the current sequence number and advances
    /// the counter by the stride.
    fn send_packet(&mut self, packet_type: u32, cmd: u32, args: &[u32; 16], data_len: u32) -> (r:
        Vec<u8>)
        requires
            old(self).current_seq + SEQ_STRIDE <= u32::MAX,
        ensures
            r@ == spec_encode_header(old(self).current_seq, packet_type, cmd, args@, data_len),
            r@.len() == HEADER_LEN,
            final(self).current_seq == old(self).current_seq + SEQ_STRIDE,
            final(self).is_heartbeat_sendable == old(self).is_heartbeat_sendable,
    {
        let buf = encode_header(self.current_seq, packet_type, cmd, args, data_len);
        self.current_seq = self.current_seq + SEQ_STRIDE;
        buf
    }

    /// Builds one payload-free request whose first three argument words are
    /// `arg0`, `arg1`, `arg2`.
    fn send_empty_packet(&mut self, cmd: u32, arg0: u32, arg1: u32, arg2: u32) -> (r: Vec<u8>)
        requires
            old(self).current_seq + SEQ_STRIDE <= u32::MAX,
        ensures
            r@ == spec_encode_header(
                old(self).current_seq,
                TYPE_REQUEST,
                cmd,
                spec_args3(arg0, arg1, arg2),
                0,
            ),
            final(self).current_seq == old(self).current_seq + SEQ_STRIDE,
            final(self).is_heartbeat_sendable == old(self).is_heartbeat_sendable,
    {
        let mut args = [0u32; 16];
        args[0] = arg0;
        args[1] = arg1;
        args[2] = arg2;
        proof {
            assert(args@ =~= spec_args3(arg0, arg1, arg2));
        }
        self.send_packet(TYPE_REQUEST, cmd, &args, 0)
    }

    /// The memory-read request: command 9, arguments `[pid, addr, size, 0, ...]`.
    pub fn send_mem_read_packet(&mut self, addr: u32, size: u32, pid: u32) -> (r: Vec<u8>)
        requires
            old(self).current_seq + SEQ_STRIDE <= u32::MAX,
        ensures
            r@ == spec_encode_header(
                old(self).current_seq,
                TYPE_REQUEST,
                CMD_MEM_READ,
                spec_args3(pid, addr, size),
                0,
            ),
            final(self).current_seq == old(self).current_seq + SEQ_STRIDE,
            final(self).is_heartbeat_sendable == old(self).is_heartbeat_sendable,
    {
        self.send_empty_packet(CMD_MEM_READ, pid, addr, size)
    }

    /// The memory-write request: a command-10 header whose arguments are
    /// `[pid, addr, len, 0, ...]`, followed immediately by the payload bytes.
    pub fn send_mem_write_packet(&mut self, addr: u32, pid: u32, buf: &Vec<u8>) -> (r: Vec<u8>)
        requires
            old(self).current_seq + SEQ_STRIDE <= u32::MAX,
            buf@.len() <= u32::MAX,
        ensures
            r@ == spec_encode_header(
                old(self).current_seq,
                TYPE_REQUEST_WITH_DATA,
                CMD_MEM_WRITE,
                spec_args3(pid, addr, buf@.len() as u32),
                buf@.len() as u32,
            ) + buf@,
            final(self).current_seq == old(self).current_seq + SEQ_STRIDE,
            final(self).is_heartbeat_sendable == old(self).is_heartbeat_sendable,
    {
        let len = buf.len() as u32;
        let mut args = [0u32; 16];
        args[0] = pid;
        args[1] = addr;
        args[2] = len;
        proof {
            assert(args@ =~= spec_args3(pid, addr, len));
        }
        let mut out = self.send_packet(TYPE_REQUEST_WITH_DATA, CMD_MEM_WRITE, &args, len);
        let mut payload = vstd::slice::slice_to_vec(buf.as_slice());
        out.append(&mut payload);
        out
    }

    /// The heartbeat request: command 0, no arguments, no payload.
    pub fn send_heartbeat_packet(&mut self) -> (r: Vec<u8>)
        requires
            old(self).current_seq + SEQ_STRIDE <= u32::MAX,
        ensures
            r@ == spec_encode_header(
                old(self).current_seq,
                TYPE_REQUEST,
                CMD_HEARTBEAT,
                spec_zero_args(),
                0,
            ),
            final(self).current_seq == old(self).current_seq + SEQ_STRIDE,
            final(self).is_heartbeat_sendable == old(self).is_heartbeat_sendable,
    {
        let args = [0u32; 16];
        proof {
            assert(args@ =~= spec_zero_args());
        }
        self.send_packet(TYPE_REQUEST, CMD_HEARTBEAT, &args, 0)
    }

    /// The hello / list-process request: command 3, no arguments, no payload.
    pub fn send_hello_packet(&mut self) -> (r: Vec<u8>)
        requires
            old(self).current_seq + SEQ_STRIDE <= u32::MAX,
        ensures
            r@ == spec_encode_header(
                old(self).current_seq,
                TYPE_REQUEST,
                CMD_HELLO,
                spec_zero_args(),
                0,
            ),
            final(self).current_seq == old(self).current_seq + SEQ_STRIDE,
            final(self).is_heartbeat_sendable == old(self).is_heartbeat_sendable,
    {
        let args = [0u32; 16];
        proof {
            assert(args@ =~= spec_zero_args());
        }
        self.send_packet(TYPE_REQUEST, CMD_HELLO, &args, 0)
    }

    /// The reload request: command 4, no arguments, no payload.
    pub fn send_reload_packet(&mut self) -> (r: Vec<u8>)
        requires
            old(self).current_seq + SEQ_STRIDE <= u32::MAX,
        ensures
            r@ == spec_encode_header(
                old(self).current_seq,
                TYPE_REQUEST,
                CMD_RELOAD,
                spec_zero_args(),
                0,
            ),
            final(self).current_seq == old(self).current_seq + SEQ_STRIDE,
            final(self).is_heartbeat_sendable == old(self).is_heartbeat_sendable,
    {
        let args = [0u32; 16];
        proof {
            assert(args@ =~= spec_zero_args());
        }
        self.send_packet(TYPE_REQUEST, CMD_RELOAD, &args, 0)
    }
}

/// Sequence number carried by the `n`-th packet (counting from zero) of a
/// connection whose counter started at `start`.
pub open spec fn spec_nth_sequence(start: u32, n: nat) -> int {
    start + n * SEQ_STRIDE
}

/// Law: sequence monotonicity. Every send advances the counter by exactly
/// the stride, so across any interleaving of heartbeats and caller requests
/// the observed sequence numbers grow strictly, stride by stride.
pub proof fn lemma_sequence_monotonic(start: u32, i: nat, j: nat)
    requires
        i < j,
    ensures
        spec_nth_sequence(start, i) + SEQ_STRIDE <= spec_nth_sequence(start, j),
        spec_nth_sequence(start, j) - spec_nth_sequence(start, i) == (j - i) * SEQ_STRIDE,
{
    assert(i * 1000 + 1000 <= j * 1000 && j * 1000 - i * 1000 == (j - i) * 1000)
        by (nonlinear_arith)
        requires
            i < j,
    ;
}

} // verus!

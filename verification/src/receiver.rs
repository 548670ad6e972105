//! The receiver's demultiplexer: where each inbound packet goes.
//!
//! The thread that owns the inbound half of the stream reads one 84-byte
//! header, then exactly `data_length` payload bytes, and asks this module
//! what to do with them. A heartbeat-command packet acknowledges the last
//! heartbeat; a heartbeat-command payload holding the end-of-list marker is
//! the process-list text dump; a memory-read-command payload is the answer
//! to a memory read. Everything else is dropped.

use crate::codec::{DecodedHeader, CMD_HEARTBEAT, CMD_MEM_READ, MAGIC};
use vstd::prelude::*;

verus! {

/// The marker line the server ends every process-list dump with:
/// the bytes of `end of process list.`
pub open spec fn spec_marker() -> Seq<u8> {
    seq![
        101u8,
        110u8,
        100u8,
        32u8,
        111u8,
        102u8,
        32u8,
        112u8,
        114u8,
        111u8,
        99u8,
        101u8,
        115u8,
        115u8,
        32u8,
        108u8,
        105u8,
        115u8,
        116u8,
        46u8,
    ]
}

/// The marker bytes as a vector.
pub fn marker_bytes() -> (r: Vec<u8>)
    ensures
        r@ == spec_marker(),
{
    let mut m: Vec<u8> = Vec::new();
    m.push(101u8);
    m.push(110u8);
    m.push(100u8);
    m.push(32u8);
    m.push(111u8);
    m.push(102u8);
    m.push(32u8);
    m.push(112u8);
    m.push(114u8);
    m.push(111u8);
    m.push(99u8);
    m.push(101u8);
    m.push(115u8);
    m.push(115u8);
    m.push(32u8);
    m.push(108u8);
    m.push(105u8);
    m.push(115u8);
    m.push(116u8);
    m.push(46u8);
    proof {
        assert(m@ =~= spec_marker());
    }
    m
}

/// `pat` occurs in `data` starting at index `i`.
pub open spec fn spec_match_at(data: Seq<u8>, pat: Seq<u8>, i: int) -> bool {
    0 <= i && i + pat.len() <= data.len() && data.subrange(i, i + pat.len()) == pat
}

/// `pat` occurs somewhere in `data`.
pub open spec fn spec_contains(data: Seq<u8>, pat: Seq<u8>) -> bool {
    exists|i: int| spec_match_at(data, pat, i)
}

/// Compares `pat` against `data` at index `i`.
pub fn matches_at(data: &[u8], pat: &[u8], i: usize) -> (r: bool)
    requires
        i + pat@.len() <= data@.len(),
    ensures
        r == spec_match_at(data@, pat@, i as int),
{
    let n = data.len();
    let pat_len = pat.len();
    let mut j: usize = 0;
    while j < pat_len
        invariant
            n == data@.len(),
            pat_len == pat@.len(),
            j <= pat@.len(),
            i + pat@.len() <= data@.len(),
            forall|k: int| 0 <= k < j ==> data@[i + k] == pat@[k],
        decreases pat@.len() - j,
    {
        if data[i + j] != pat[j] {
            proof {
                assert(!spec_match_at(data@, pat@, i as int)) by {
                    if spec_match_at(data@, pat@, i as int) {
                        assert(data@.subrange(i as int, i + pat@.len())[j as int] == data@[i + j]);
                    }
                }
            }
            return false;
        }
        j = j + 1;
    }
    proof {
        assert(data@.subrange(i as int, i + pat@.len()) =~= pat@);
    }
    true
}

/// Whether `pat` occurs anywhere in `data`.
pub fn contains_pattern(data: &[u8], pat: &[u8]) -> (r: bool)
    ensures
        r == spec_contains(data@, pat@),
{
    if pat.len() == 0 {
        proof {
            assert(data@.subrange(0, 0) =~= pat@);
            assert(spec_match_at(data@, pat@, 0));
        }
        return true;
    }
    if pat.len() > data.len() {
        proof {
            assert(forall|i: int| !spec_match_at(data@, pat@, i));
        }
        return false;
    }
    let end = data.len() - pat.len();
    let mut i: usize = 0;
    while i <= end
        invariant
            1 <= pat@.len() <= data@.len() <= usize::MAX,
            end == data@.len() - pat@.len(),
            i <= end + 1,
            forall|i2: int| 0 <= i2 < i ==> !spec_match_at(data@, pat@, i2),
        decreases end + 1 - i,
    {
        if matches_at(data, pat, i) {
            return true;
        }
        i = i + 1;
    }
    false
}

/// Where one inbound payload goes.
#[derive(Debug)]
pub enum Delivery {
    /// Hand the payload to the caller waiting on the process-list channel.
    ProcessList(Vec<u8>),
    /// Hand the payload to the caller waiting on the memory-read channel.
    MemRead(Vec<u8>),
    /// Silently drop the payload.
    Dropped,
}

/// What the receiver must do after one packet: allow the next heartbeat,
/// and deliver the payload somewhere (or nowhere).
#[derive(Debug)]
pub struct RecvStep {
    /// True exactly when the packet acknowledges a heartbeat, so the next
    /// heartbeat may be sent.
    pub enable_heartbeat: bool,
    /// Where the payload goes.
    pub delivery: Delivery,
}

/// True when an inbound header carries the expected magic; on a mismatch the
/// stream is desynchronized and the connection must be torn down.
pub fn magic_matches(h: &DecodedHeader) -> (r: bool)
    ensures
        r == (h.magic == MAGIC),
{
    h.magic == MAGIC
}

/// Routes one inbound packet: `command` from its header, `data` the payload
/// of exactly `data_length` bytes (empty when the header announced none).
pub fn route_packet(command: u32, data: Vec<u8>) -> (r: RecvStep)
    ensures
        r.enable_heartbeat == (command == CMD_HEARTBEAT),
        (r.delivery is ProcessList) <==> (command == CMD_HEARTBEAT && data@.len() > 0
            && spec_contains(data@, spec_marker())),
        (r.delivery is MemRead) <==> (command == CMD_MEM_READ && data@.len() > 0),
        (r.delivery matches Delivery::ProcessList(p) ==> p@ == data@),
        (r.delivery matches Delivery::MemRead(p) ==> p@ == data@),
{
    let enable_heartbeat = command == CMD_HEARTBEAT;
    if data.len() > 0 {
        if command == CMD_HEARTBEAT {
            let marker = marker_bytes();
            if contains_pattern(data.as_slice(), marker.as_slice()) {
                return RecvStep { enable_heartbeat, delivery: Delivery::ProcessList(data) };
            }
        } else if command == CMD_MEM_READ {
            return RecvStep { enable_heartbeat, delivery: Delivery::MemRead(data) };
        }
    }
    RecvStep { enable_heartbeat, delivery: Delivery::Dropped }
}

} // verus!

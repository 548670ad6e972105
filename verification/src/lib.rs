//! Client-side logic for a remote-debugging protocol spoken over a byte
//! stream: a fixed 84-byte little-endian packet header, a sequenced sender
//! that numbers every outbound packet, a receiver that demultiplexes the
//! three inbound response kinds, a rate-limited heartbeat, and a parser that
//! extracts a process id from the server's process-list text.
//!
//! The library is transport-free: every function here works on plain values
//! and byte buffers. A thin layer around it owns the socket and the threads,
//! writes the buffers these functions build, and feeds back what it reads.

pub mod codec;
pub mod heartbeat;
pub mod ntr_sender;
pub mod process_list;
pub mod receiver;

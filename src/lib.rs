//! Typed byte buffers and the framing of synchronization signal packets.
//!
//! A [`packet::PacketBuf`] is filled by a [`packet::PacketBufWriter`] and consumed by a
//! [`packet::PacketBufReader`]; values go through them in their in-memory layout
//! (see [`plain::Plain`]). [`packet::SyncSignalPacket`] frames a [`signal::SyncSignal`]
//! and a payload on top of these.
use vstd::prelude::*;

/// Packet buffers, typed cursors and the packet codec
pub mod packet;

/// Values that travel as their in-memory bytes
pub mod plain;

/// Sync signals
pub mod signal;

verus! {

/// What went wrong with a stream or a storage.
#[derive(Debug, Clone, Copy, PartialEq, Eq, Structural)]
pub enum IoKind {
    /// The data ended before a value was complete.
    UnexpectedEof,
    /// Any other failure of the underlying stream.
    Other,
}

/// Errors of the codec layer.
#[derive(Debug, Clone, PartialEq, Eq)]
pub enum Error {
    /// Input/Output error, truncation included
    IO(IoKind),
    /// Bytes that no known framing explains, with the offset where this was found
    UnknownPacketLayout(usize),
    /// A byte range whose length is not the size of the target type
    CastFailed,
    /// Failure of a composed, higher-level codec
    Codec(String),
}

} // verus!

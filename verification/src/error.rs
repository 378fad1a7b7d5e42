//! Structural errors of the binary frame format.

use vstd::prelude::*;

verus! {

/// Why a byte blob is not a frame. Every variant names the byte offset in
/// the blob at which decoding stopped.
#[derive(Clone, Copy, Debug, PartialEq, Eq, Structural)]
pub enum FrameError {
    /// The input ends inside the section that starts at `offset`.
    Truncated { offset: usize },
    /// The frame header's connection type is none of the known values.
    UnknownConnectionType { offset: usize, value: u16 },
    /// The frame header's compression type is none of the known values.
    UnknownCompressionType { offset: usize, code: u8 },
    /// The packet header at `offset` carries a tag that no packet type has.
    UnknownPacketType { offset: usize, tag: u16 },
    /// The packet at `offset` declares a `size` below the `overhead` of its
    /// own headers, so it has no payload length.
    SizeBelowOverhead { offset: usize, size: u32, overhead: u32 },
}

} // verus!

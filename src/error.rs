use vstd::prelude::*;

verus! {

/// Failures reported by the buffers and the message builders.
#[derive(Debug, Clone, Copy, PartialEq, Eq, Structural)]
pub enum ProtocolError {
    /// A read or patch range falls outside the bytes held by the buffer.
    Bounds,
    /// An integer decode or patch was asked for over a range that is not 4 bytes long.
    InvalidRangeLength,
    /// A string meant to be written as a C-string holds a 0x00 byte.
    EmbeddedNull,
    /// A frame grew past what its 32-bit length field can declare.
    MessageTooLarge,
}

} // verus!

//! The conditions that end a request.

use vstd::prelude::*;

verus! {

/// The kind of value a read was asked for.
#[derive(Clone, Copy, Debug, PartialEq, Eq, Structural)]
pub enum Expected {
    /// A length-prefixed string.
    Text,
    /// A 32-bit float.
    Float32,
}

/// What stood in the stream where a value was expected.
#[derive(Clone, Copy, Debug, PartialEq, Eq, Structural)]
pub enum Found {
    /// The stream ended before the value's marker.
    EndOfStream,
    /// The stream ended inside the value: after its marker, before its last byte.
    Truncated,
    /// The marker of a value of another type (the byte as it was read).
    Marker(u8),
    /// A string of the given length in bytes, which is more than the buffer holds.
    Oversized(u32),
    /// A string whose bytes are not UTF-8.
    InvalidText,
}

/// A fatal condition. Each one aborts the request that met it.
#[derive(Clone, Copy, Debug, PartialEq, Eq, Structural)]
pub enum FtlError {
    /// The engine's socket cannot be opened or written to.
    ConnectionUnavailable,
    /// The engine does not know the command.
    UnknownCommand,
    /// A value of one type was expected and something else was found.
    DecodeError { expected: Expected, found: Found },
    /// A fixed-layout record does not start with the magic byte.
    CorruptRecord,
    /// No data came within the bound.
    Timeout,
}

impl Found {
    /// True of the two conditions under which more bytes could still complete the value.
    pub open spec fn ended_early(self) -> bool {
        self is EndOfStream || self is Truncated
    }
}

impl FtlError {
    /// True when the error says that the stream stopped short of a value, so that
    /// a stream which is still open may yet deliver it.
    pub open spec fn is_incomplete(self) -> bool {
        self matches FtlError::DecodeError { found, .. } && found.ended_early()
    }

    /// Tells whether reading more of an open stream could turn this error into a value.
    pub fn stream_ended_early(&self) -> (r: bool)
        ensures
            r == self.is_incomplete(),
    {
        match self {
            FtlError::DecodeError { found: Found::EndOfStream, .. } => true,
            FtlError::DecodeError { found: Found::Truncated, .. } => true,
            _ => false,
        }
    }
}

} // verus!

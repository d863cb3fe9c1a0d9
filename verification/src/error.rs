//! Errors raised while locating and reading a frame.

use vstd::prelude::*;

verus! {

/// Why a frame could not be read from the channel.
#[derive(Clone, Copy, Debug, PartialEq, Eq, Structural)]
pub enum ReceiveError {
    /// The channel ended before the expected part of a frame had arrived.
    StreamClosed,
    /// The 24 bytes after the alignment sequence are not 24 decimal digits.
    MalformedLength,
}

} // verus!

//! Reading one frame from a channel, a read at a time.
//!
//! The reader decides; whoever owns the channel performs the reads. It is asked how many bytes
//! the next read may return, is handed what the read returned, and says what follows.

use crate::error::ReceiveError;
use crate::length_field::{all_digits, decimal_value, parse_length};
use crate::marker::marker;
use crate::scanner::{blank_window, slide, Scanner};
use vstd::prelude::*;

verus! {

/// What a frame reader is waiting for.
pub enum ReaderState {
    /// Still looking for the alignment sequence; `window` holds the 41 most recent bytes.
    Scanning { window: Seq<u8> },
    /// Past the alignment sequence, with `field` read of the 24 bytes of the length field.
    Length { field: Seq<u8> },
    /// Past the length field, with `payload` read of the `expected` payload bytes.
    Payload { expected: nat, payload: Seq<u8> },
    /// The whole frame has been read.
    Complete { payload: Seq<u8> },
    /// The frame cannot be read.
    Failed { error: ReceiveError },
}

/// What the bytes of one read did to the reader.
#[derive(Clone, Copy, Debug, PartialEq, Eq, Structural)]
pub enum Progress {
    /// A byte before the frame went by. It may be shown on a diagnostic sink, which is flushed
    /// when `flush` is set.
    Skipped { byte: u8, flush: bool },
    /// `byte` completed the alignment sequence. It may be shown on the diagnostic sink, which
    /// is then flushed.
    Aligned { byte: u8 },
    /// Part of the frame was read; more is needed.
    Partial,
    /// The frame is complete; its payload can be taken.
    Complete,
    /// The frame cannot be read.
    Failed(ReceiveError),
}

/// A condition reported by a read that returned no data.
#[derive(Clone, Copy, Debug, PartialEq, Eq, Structural)]
pub enum ReadFault {
    /// The read would have had to wait.
    WouldBlock,
    /// The read was interrupted before it got any data.
    Interrupted,
    /// Any other failure of the channel.
    Other,
}

/// What to do about a read fault.
#[derive(Clone, Copy, Debug, PartialEq, Eq, Structural)]
pub enum FaultPolicy {
    /// Read again, as if nothing had happened.
    Retry,
    /// Give up and hand the channel's error on unchanged.
    Propagate,
}

/// A carriage return or a line feed.
pub open spec fn is_line_end(byte: u8) -> bool {
    byte == 0x0d || byte == 0x0a
}

/// The number of bytes that the next read may return at most: what the frame still lacks, as
/// far as one read can return it. Zero once nothing more is read.
pub open spec fn demand_of(state: ReaderState) -> nat {
    match state {
        ReaderState::Scanning { .. } => 1,
        ReaderState::Length { field } => if field.len() < 24 {
            (24 - field.len()) as nat
        } else {
            0
        },
        ReaderState::Payload { expected, payload } => if payload.len() >= expected {
            0
        } else if expected - payload.len() > usize::MAX {
            usize::MAX as nat
        } else {
            (expected - payload.len()) as nat
        },
        ReaderState::Complete { .. } => 0,
        ReaderState::Failed { .. } => 0,
    }
}

/// The state that follows a complete length field.
pub open spec fn after_length(field: Seq<u8>) -> ReaderState {
    if !all_digits(field) {
        ReaderState::Failed { error: ReceiveError::MalformedLength }
    } else if decimal_value(field) == 0 {
        ReaderState::Complete { payload: Seq::empty() }
    } else {
        ReaderState::Payload { expected: decimal_value(field), payload: Seq::empty() }
    }
}

/// The state after a read returned `chunk`.
pub open spec fn after_read(state: ReaderState, chunk: Seq<u8>) -> ReaderState {
    match state {
        ReaderState::Scanning { window } => {
            if slide(window, chunk[0]) == marker() {
                ReaderState::Length { field: Seq::empty() }
            } else {
                ReaderState::Scanning { window: slide(window, chunk[0]) }
            }
        },
        ReaderState::Length { field } => {
            if field.len() + chunk.len() < 24 {
                ReaderState::Length { field: field + chunk }
            } else {
                after_length(field + chunk)
            }
        },
        ReaderState::Payload { expected, payload } => {
            if payload.len() + chunk.len() < expected {
                ReaderState::Payload { expected, payload: payload + chunk }
            } else {
                ReaderState::Complete { payload: payload + chunk }
            }
        },
        ReaderState::Complete { .. } => state,
        ReaderState::Failed { .. } => state,
    }
}

/// What is reported of a read that returned `chunk`.
pub open spec fn progress_of(state: ReaderState, chunk: Seq<u8>) -> Progress {
    match after_read(state, chunk) {
        ReaderState::Scanning { .. } => Progress::Skipped {
            byte: chunk[0],
            flush: is_line_end(chunk[0]),
        },
        ReaderState::Length { .. } => if state is Scanning {
            Progress::Aligned { byte: chunk[0] }
        } else {
            Progress::Partial
        },
        ReaderState::Payload { .. } => Progress::Partial,
        ReaderState::Complete { .. } => Progress::Complete,
        ReaderState::Failed { error } => Progress::Failed(error),
    }
}

/// The state after the channel ended: a frame that is not complete never will be.
pub open spec fn after_end(state: ReaderState) -> ReaderState {
    match state {
        ReaderState::Complete { .. } => state,
        ReaderState::Failed { .. } => state,
        _ => ReaderState::Failed { error: ReceiveError::StreamClosed },
    }
}

/// A fault is passed over only while scanning for the alignment sequence, and only if the read
/// would have blocked or was interrupted.
pub open spec fn policy_of(state: ReaderState, fault: ReadFault) -> FaultPolicy {
    if state is Scanning && fault != ReadFault::Other {
        FaultPolicy::Retry
    } else {
        FaultPolicy::Propagate
    }
}

/// Which part of the frame is being read.
#[derive(Clone, Copy, Debug, PartialEq, Eq, Structural)]
enum Phase {
    Scanning,
    Length,
    Payload,
    Complete,
    Failed(ReceiveError),
}

/// Reads one frame: skips to the alignment sequence, reads the length field, then the payload.
pub struct FrameReader {
    phase: Phase,
    scanner: Scanner,
    buffer: Vec<u8>,
    expected: u128,
}

impl View for FrameReader {
    type V = ReaderState;

    closed spec fn view(&self) -> ReaderState {
        match self.phase {
            Phase::Scanning => ReaderState::Scanning { window: self.scanner@ },
            Phase::Length => ReaderState::Length { field: self.buffer@ },
            Phase::Payload => ReaderState::Payload {
                expected: self.expected as nat,
                payload: self.buffer@,
            },
            Phase::Complete => ReaderState::Complete { payload: self.buffer@ },
            Phase::Failed(error) => ReaderState::Failed { error },
        }
    }
}

impl FrameReader {
    /// The reader's parts fit together: in each state something is still to be read.
    pub closed spec fn wf(&self) -> bool {
        &&& self.scanner.wf()
        &&& self.phase == Phase::Length ==> self.buffer@.len() < 24
        &&& self.phase == Phase::Payload ==> self.buffer@.len() < self.expected
    }

    /// A reader at the start of a stream of unknown bytes.
    pub fn new() -> (reader: FrameReader)
        ensures
            reader.wf(),
            reader@ == (ReaderState::Scanning { window: blank_window() }),
    {
        FrameReader { phase: Phase::Scanning, scanner: Scanner::new(), buffer: Vec::new(), expected: 0 }
    }

    /// The number of bytes that the next read may return at most; zero once the frame is
    /// complete or has failed.
    pub fn demand(&self) -> (want: usize)
        requires
            self.wf(),
        ensures
            want == demand_of(self@),
    {
        match self.phase {
            Phase::Scanning => 1,
            Phase::Length => 24 - self.buffer.len(),
            Phase::Payload => {
                let missing: u128 = self.expected - self.buffer.len() as u128;
                if missing > usize::MAX as u128 {
                    usize::MAX
                } else {
                    missing as usize
                }
            },
            Phase::Complete => 0,
            Phase::Failed(_) => 0,
        }
    }

    /// Takes the bytes that a read returned.
    pub fn accept(&mut self, chunk: &[u8]) -> (progress: Progress)
        requires
            old(self).wf(),
            1 <= chunk@.len() <= demand_of(old(self)@),
        ensures
            final(self).wf(),
            final(self)@ == after_read(old(self)@, chunk@),
            progress == progress_of(old(self)@, chunk@),
    {
        match self.phase {
            Phase::Scanning => {
                let byte: u8 = chunk[0];
                if self.scanner.push(byte) {
                    self.phase = Phase::Length;
                    self.buffer.clear();
                    Progress::Aligned { byte }
                } else {
                    Progress::Skipped { byte, flush: byte == 0x0d || byte == 0x0a }
                }
            },
            Phase::Length => {
                append_bytes(&mut self.buffer, chunk);
                if self.buffer.len() < 24 {
                    Progress::Partial
                } else {
                    self.finish_length()
                }
            },
            Phase::Payload => {
                append_bytes(&mut self.buffer, chunk);
                if (self.buffer.len() as u128) < self.expected {
                    Progress::Partial
                } else {
                    self.phase = Phase::Complete;
                    Progress::Complete
                }
            },
            Phase::Complete => Progress::Complete,
            Phase::Failed(error) => Progress::Failed(error),
        }
    }

    /// Decides what follows the 24 bytes of the length field.
    fn finish_length(&mut self) -> (progress: Progress)
        requires
            old(self).scanner.wf(),
            old(self).phase == Phase::Length,
            old(self).buffer@.len() == 24,
        ensures
            final(self).wf(),
            final(self)@ == after_length(old(self).buffer@),
            progress == match after_length(old(self).buffer@) {
                ReaderState::Failed { error } => Progress::Failed(error),
                ReaderState::Complete { .. } => Progress::Complete,
                _ => Progress::Partial,
            },
    {
        match parse_length(self.buffer.as_slice()) {
            Err(error) => {
                self.phase = Phase::Failed(error);
                Progress::Failed(error)
            },
            Ok(length) => {
                self.buffer.clear();
                if length == 0 {
                    self.phase = Phase::Complete;
                    Progress::Complete
                } else {
                    self.expected = length;
                    self.phase = Phase::Payload;
                    Progress::Partial
                }
            },
        }
    }

    /// Takes note that the channel ended: a read returned no bytes.
    pub fn close(&mut self) -> (progress: Progress)
        requires
            old(self).wf(),
        ensures
            final(self).wf(),
            final(self)@ == after_end(old(self)@),
            progress == match after_end(old(self)@) {
                ReaderState::Complete { .. } => Progress::Complete,
                ReaderState::Failed { error } => Progress::Failed(error),
                _ => Progress::Partial,
            },
    {
        match self.phase {
            Phase::Complete => Progress::Complete,
            Phase::Failed(error) => Progress::Failed(error),
            _ => {
                self.phase = Phase::Failed(ReceiveError::StreamClosed);
                Progress::Failed(ReceiveError::StreamClosed)
            },
        }
    }

    /// Says what to do about a read that failed.
    pub fn on_fault(&self, fault: ReadFault) -> (policy: FaultPolicy)
        ensures
            policy == policy_of(self@, fault),
    {
        match (self.phase, fault) {
            (Phase::Scanning, ReadFault::WouldBlock) => FaultPolicy::Retry,
            (Phase::Scanning, ReadFault::Interrupted) => FaultPolicy::Retry,
            _ => FaultPolicy::Propagate,
        }
    }

    /// Hands out the payload of the frame, once it is complete.
    pub fn into_payload(self) -> (payload: Option<Vec<u8>>)
        ensures
            match self@ {
                ReaderState::Complete { payload: bytes } => payload.is_some() && payload.unwrap()@
                    == bytes,
                _ => payload.is_none(),
            },
    {
        match self.phase {
            Phase::Complete => Some(self.buffer),
            _ => None,
        }
    }
}

/// Appends `bytes` to `buffer`.
fn append_bytes(buffer: &mut Vec<u8>, bytes: &[u8])
    ensures
        final(buffer)@ == old(buffer)@ + bytes@,
{
    buffer.extend_from_slice(bytes);
    assert(buffer@ =~= old(buffer)@ + bytes@);
}

} // verus!

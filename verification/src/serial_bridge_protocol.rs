//! The messages of the bridge and the frames that carry them.
//!
//! A frame is the alignment sequence, then the payload's length as 24 decimal digits, then the
//! payload: the text of one message. Whatever precedes the alignment sequence on the channel is
//! skipped.

use crate::error::ReceiveError;
use crate::length_field::{
    all_digits, decimal_value, format_length, length_field, lemma_decimal_digits_shape,
    lemma_pow10_24,
};
use crate::marker::{
    first_marker_end, lemma_first_marker_end_is, lemma_first_marker_end_none,
    lemma_first_marker_end_some, marker,
    marker_ends_at, marker_free,
};
use crate::reader::{after_read, demand_of, FrameReader, Progress, ReaderState};
use crate::scanner::{lemma_window_matches, slide, window_after};
use vstd::prelude::*;
use vstd::slice::slice_subrange;

verus! {

pub use crate::marker::ALIGNMENT_SEQUENCE;

/// The guest is about to run a test.
#[derive(Debug, PartialEq, Eq)]
pub struct TestStart {
    /// Identifies this run of the test.
    pub execution_id: u128,
    /// Name of the test.
    pub name: String,
}

/// The guest has run a test.
#[derive(Debug, PartialEq, Eq)]
pub struct TestOutput {
    /// Identifies this run of the test.
    pub execution_id: u128,
    /// Name of the test.
    pub name: String,
    /// What the test printed.
    pub output: String,
    /// What the kernel logged while the test ran.
    pub dmesg: String,
    /// The exit code that the test left with.
    pub exitcode: u64,
    /// How long the test ran, in milliseconds.
    pub runtime_millis: u64,
}

/// What the guest tells the host.
#[derive(Debug, PartialEq, Eq)]
pub enum GuestToHostMsg {
    /// A test is starting.
    TestStart(TestStart),
    /// A test has finished.
    TestOutput(TestOutput),
    /// The guest asks which tests to run.
    WhatTestsShouldIRun(),
    /// No tests remain.
    Done(),
}

/// What the host tells the guest.
#[derive(Debug, PartialEq, Eq)]
pub enum HostToGuestMsg {
    /// The jobs to run, in order. An empty list means all of them.
    PleaseRunTheseTests(Vec<String>),
}

/// The bytes of the frame that carries `payload`.
pub open spec fn frame_bytes(payload: Seq<u8>) -> Seq<u8> {
    marker() + length_field(payload.len()) + payload
}

/// Writes the frame that carries the message text `msg` to the end of `stream`.
///
/// The frame is appended whole, so a writer that sends `stream` in one write and then flushes
/// never leaves half a frame behind.
pub fn send_message(stream: &mut Vec<u8>, msg: &[u8])
    requires
        old(stream)@.len() + 65 + msg@.len() <= usize::MAX,
    ensures
        final(stream)@ == old(stream)@ + frame_bytes(msg@),
{
    proof {
        lemma_pow10_24();
    }
    let field = format_length(msg.len() as u128).unwrap();
    proof {
        lemma_decimal_digits_shape(msg@.len(), 24);
    }
    stream.extend_from_slice(ALIGNMENT_SEQUENCE.as_slice());
    stream.extend_from_slice(field.as_slice());
    stream.extend_from_slice(msg);
    assert(stream@ =~= old(stream)@ + frame_bytes(msg@));
}

/// A frame found in a stream.
#[derive(Debug, PartialEq, Eq)]
pub struct Received {
    /// The text of the message that the frame carries.
    pub payload: Vec<u8>,
    /// The number of bytes up to and including the alignment sequence.
    pub preamble: usize,
    /// The number of bytes up to and including the payload.
    pub consumed: usize,
}

/// The first frame of `stream`: where its length field begins, and its payload.
///
/// The frame begins after the first alignment sequence. A length field that is not 24 digits
/// is malformed; a stream that ends before the frame does, however long the frame is said to
/// be, is closed early.
pub open spec fn first_frame(stream: Seq<u8>) -> Result<(int, Seq<u8>), ReceiveError> {
    match first_marker_end(stream) {
        None => Err(ReceiveError::StreamClosed),
        Some(start) => {
            let field = stream.subrange(start, start + 24);
            if stream.len() < start + 24 {
                Err(ReceiveError::StreamClosed)
            } else if !all_digits(field) {
                Err(ReceiveError::MalformedLength)
            } else if stream.len() < start + 24 + decimal_value(field) {
                Err(ReceiveError::StreamClosed)
            } else {
                Ok((start, stream.subrange(start + 24, start + 24 + decimal_value(field))))
            }
        },
    }
}

/// What a reader knows after `pos` bytes of `stream`, with `preamble` the end of the
/// alignment sequence once it was found.
pub open spec fn reading(stream: Seq<u8>, pos: int, preamble: int, state: ReaderState) -> bool {
    match state {
        ReaderState::Scanning { window } => {
            &&& window == window_after(stream.take(pos))
            &&& marker_free(stream, pos)
        },
        ReaderState::Length { field } => {
            &&& first_marker_end(stream) == Some(preamble)
            &&& pos == preamble + field.len()
            &&& field == stream.subrange(preamble, pos)
        },
        ReaderState::Payload { expected, payload } => {
            &&& first_marker_end(stream) == Some(preamble)
            &&& preamble + 24 <= pos
            &&& all_digits(stream.subrange(preamble, preamble + 24))
            &&& decimal_value(stream.subrange(preamble, preamble + 24)) == expected
            &&& pos == preamble + 24 + payload.len()
            &&& payload == stream.subrange(preamble + 24, pos)
        },
        ReaderState::Complete { payload } => {
            &&& first_frame(stream) == Ok::<(int, Seq<u8>), ReceiveError>((preamble, payload))
            &&& pos == preamble + 24 + payload.len()
        },
        ReaderState::Failed { error } => first_frame(stream) == Err::<
            (int, Seq<u8>),
            ReceiveError,
        >(error),
    }
}

/// One more byte that does not complete the alignment sequence, or that does.
proof fn lemma_step_scanning(stream: Seq<u8>, pos: int, window: Seq<u8>)
    requires
        0 <= pos < stream.len(),
        window == window_after(stream.take(pos)),
        marker_free(stream, pos),
    ensures
        slide(window, stream[pos]) == window_after(stream.take(pos + 1)),
        slide(window, stream[pos]) == marker() ==> first_marker_end(stream)
            == Some(pos + 1),
        slide(window, stream[pos]) != marker() ==> marker_free(stream, pos + 1),
{
    let seen = stream.take(pos + 1);
    assert(seen.drop_last() =~= stream.take(pos));
    assert(seen.last() == stream[pos]);
    lemma_window_matches(seen);
    assert(marker_ends_at(seen, pos + 1) == marker_ends_at(stream, pos + 1)) by {
        if pos + 1 >= 41 {
            assert(seen.subrange(pos + 1 - 41, pos + 1) =~= stream.subrange(pos + 1 - 41, pos + 1));
        }
    }
    if window_after(seen) == marker() {
        lemma_first_marker_end_is(stream, pos + 1);
    } else {
        assert forall|end: int| end <= pos + 1 implies !marker_ends_at(stream, end) by {
            if end <= pos {
                assert(!marker_ends_at(stream, end));
            }
        }
    }
}

/// Reading on keeps what the reader knows in step with the stream.
pub proof fn lemma_reading_step(
    stream: Seq<u8>,
    pos: int,
    preamble: int,
    state: ReaderState,
    n: int,
)
    requires
        0 <= pos,
        1 <= n <= demand_of(state),
        pos + n <= stream.len(),
        reading(stream, pos, preamble, state),
    ensures
        reading(
            stream,
            pos + n,
            if state is Scanning {
                pos + n
            } else {
                preamble
            },
            after_read(state, stream.subrange(pos, pos + n)),
        ),
{
    let chunk = stream.subrange(pos, pos + n);
    let next = after_read(state, chunk);
    match state {
        ReaderState::Scanning { window } => {
            lemma_step_scanning(stream, pos, window);
            assert(chunk[0] == stream[pos]);
            if next is Length {
                assert(stream.subrange(pos + 1, pos + 1) =~= Seq::<u8>::empty());
            }
        },
        ReaderState::Length { field } => {
            lemma_first_marker_end_some(stream);
            assert(field + chunk =~= stream.subrange(preamble, pos + n));
            if field.len() + n == 24 {
                assert(stream.subrange(pos + n, pos + n) =~= Seq::<u8>::empty());
                assert(stream.subrange(preamble + 24, preamble + 24 + 0) =~= Seq::<u8>::empty());
            }
        },
        ReaderState::Payload { expected, payload } => {
            lemma_first_marker_end_some(stream);
            assert(payload + chunk =~= stream.subrange(preamble + 24, pos + n));
        },
        _ => {},
    }
}

/// A stream that ends while a frame is being read holds no frame.
pub proof fn lemma_reading_end(stream: Seq<u8>, preamble: int, state: ReaderState)
    requires
        reading(stream, stream.len() as int, preamble, state),
        demand_of(state) >= 1,
    ensures
        first_frame(stream) == Err::<(int, Seq<u8>), ReceiveError>(ReceiveError::StreamClosed),
{
    if state is Scanning {
        lemma_first_marker_end_none(stream);
    }
}

/// Reads the first frame of `stream`, skipping whatever precedes its alignment sequence.
pub fn receive_message(stream: &[u8]) -> (received: Result<Received, ReceiveError>)
    ensures
        match received {
            Ok(frame) => {
                &&& first_frame(stream@) == Ok::<(int, Seq<u8>), ReceiveError>(
                    (frame.preamble as int, frame.payload@),
                )
                &&& frame.consumed == frame.preamble + 24 + frame.payload@.len()
                &&& frame.consumed <= stream@.len()
            },
            Err(error) => first_frame(stream@) == Err::<(int, Seq<u8>), ReceiveError>(error),
        },
{
    let mut reader = FrameReader::new();
    let mut pos: usize = 0;
    let mut preamble: usize = 0;
    proof {
        assert(stream@.take(0) =~= Seq::<u8>::empty());
        assert forall|end: int| end <= 0 implies !marker_ends_at(stream@, end) by {}
    }
    while pos < stream.len()
        invariant
            pos <= stream@.len(),
            reader.wf(),
            reading(stream@, pos as int, preamble as int, reader@),
            demand_of(reader@) >= 1,
        decreases stream@.len() - pos,
    {
        let want = reader.demand();
        let rest = stream.len() - pos;
        let n: usize = if want < rest {
            want
        } else {
            rest
        };
        let chunk = slice_subrange(stream, pos, pos + n);
        proof {
            lemma_reading_step(stream@, pos as int, preamble as int, reader@, n as int);
        }
        let progress = reader.accept(chunk);
        pos = pos + n;
        match progress {
            Progress::Aligned { .. } => {
                preamble = pos;
            },
            Progress::Complete => {
                let payload = reader.into_payload().unwrap();
                return Ok(Received { payload, preamble, consumed: pos });
            },
            Progress::Failed(error) => {
                return Err(error);
            },
            _ => {},
        }
    }
    proof {
        lemma_reading_end(stream@, preamble as int, reader@);
    }
    Err(ReceiveError::StreamClosed)
}

} // verus!

//! What holds of frames in every stream.

use crate::error::ReceiveError;
use crate::guest::{
    budget_of, jobs_after, step_after, waited_after, WaitOutcome, WaitReport, WaitStep,
    TEST_LIST_TIMEOUT_MILLIS,
};
use crate::length_field::{
    all_digits, decimal_value, length_field, lemma_decimal_digits_shape, lemma_digits_of_value,
    lemma_pow10_24, lemma_value_of_digits, LENGTH_LIMIT,
};
use crate::marker::{
    first_marker_end, lemma_first_marker_end_is, lemma_marker_overlap, lemma_marker_shape, marker,
    marker_ends_at, marker_free,
};
use crate::serial_bridge_protocol::{first_frame, frame_bytes};
use vstd::prelude::*;

verus! {

/// `bytes` ends with the first `count` bytes of the alignment sequence.
pub open spec fn ends_with_marker_start(bytes: Seq<u8>, count: int) -> bool {
    bytes.len() >= count && bytes.subrange(bytes.len() - count, bytes.len() as int)
        == marker().take(count)
}

/// Every length below ten to the 24th is written as exactly 24 digits that read back as the
/// same length.
pub proof fn law_length_round_trip(n: nat)
    requires
        n < LENGTH_LIMIT,
    ensures
        length_field(n).len() == 24,
        all_digits(length_field(n)),
        decimal_value(length_field(n)) == n,
{
    lemma_pow10_24();
    lemma_decimal_digits_shape(n, 24);
    lemma_value_of_digits(n, 24);
}

/// A length field is the only one for its length: 24 digits are what is written for the
/// number that they spell.
pub proof fn law_length_field_unique(field: Seq<u8>)
    requires
        field.len() == 24,
        all_digits(field),
    ensures
        length_field(decimal_value(field)) == field,
{
    lemma_digits_of_value(field);
}

/// After bytes that hold no alignment sequence, the first alignment sequence is found at its
/// own end and not before: the scan stops after exactly the length of the noise plus 41 bytes.
///
/// The alignment sequence begins and ends with `==`, so noise that ends with all but the last
/// one or two of its bytes completes it early; such noise is left out.
pub proof fn law_resync(noise: Seq<u8>, rest: Seq<u8>)
    requires
        marker_free(noise, noise.len() as int),
        !ends_with_marker_start(noise, 39),
        !ends_with_marker_start(noise, 40),
    ensures
        first_marker_end(noise + marker() + rest) == Some((noise.len() + 41) as int),
{
    let stream = noise + marker() + rest;
    let k = noise.len() as int;
    lemma_marker_shape();
    assert(stream.subrange(k, k + 41) =~= marker());
    assert forall|end: int| end <= k + 40 implies !marker_ends_at(stream, end) by {
        if marker_ends_at(stream, end) {
            let found = stream.subrange(end - 41, end);
            let d = k - (end - 41);
            if end <= k {
                assert(noise.subrange(end - 41, end) =~= found);
                assert(marker_ends_at(noise, end));
            } else if d <= 38 {
                assert(found[d] == stream[k]);
                assert(found[d + 1] == stream[k + 1]);
                lemma_marker_overlap(d);
            } else {
                assert(noise.subrange(k - d, k) =~= found.take(d));
                assert(ends_with_marker_start(noise, d));
            }
        }
    }
    lemma_first_marker_end_is(stream, k + 41);
}

/// A frame that follows noise is found whole, whatever comes after it: the payload read is
/// the payload framed, and the length field begins right after the noise and the alignment
/// sequence.
pub proof fn law_frame_after_noise(noise: Seq<u8>, payload: Seq<u8>, rest: Seq<u8>)
    requires
        marker_free(noise, noise.len() as int),
        !ends_with_marker_start(noise, 39),
        !ends_with_marker_start(noise, 40),
        payload.len() < LENGTH_LIMIT,
    ensures
        first_frame(noise + frame_bytes(payload) + rest) == Ok::<(int, Seq<u8>), ReceiveError>(
            ((noise.len() + 41) as int, payload),
        ),
{
    let stream = noise + frame_bytes(payload) + rest;
    let start = (noise.len() + 41) as int;
    let tail = length_field(payload.len()) + payload + rest;
    assert(stream =~= noise + marker() + tail);
    law_resync(noise, tail);
    lemma_marker_shape();
    law_length_round_trip(payload.len());
    assert(stream.subrange(start, start + 24) =~= length_field(payload.len()));
    assert(stream.subrange(start + 24, start + 24 + payload.len()) =~= payload);
}

/// Reading the frame that was written for a payload gives that payload back.
pub proof fn law_frame_round_trip(payload: Seq<u8>)
    requires
        payload.len() < LENGTH_LIMIT,
    ensures
        first_frame(frame_bytes(payload)) == Ok::<(int, Seq<u8>), ReceiveError>((41, payload)),
{
    let noise = Seq::<u8>::empty();
    assert(frame_bytes(payload) =~= noise + frame_bytes(payload) + Seq::<u8>::empty());
    assert(!ends_with_marker_start(noise, 39));
    assert(!ends_with_marker_start(noise, 40));
    law_frame_after_noise(noise, payload, Seq::<u8>::empty());
}

/// The guest never waits past its bound, and a host that stays silent makes it run everything.
///
/// Whatever time has passed, the time waited and the time still granted come to no more than
/// the whole time to wait. Silence for the time granted ends the wait as timed out, and the
/// jobs to run are then none in particular: the empty list.
pub proof fn law_fail_open(waited: nat, silent: u64)
    ensures
        waited_after(waited, silent as nat) + budget_of(waited_after(waited, silent as nat))
            == TEST_LIST_TIMEOUT_MILLIS,
        silent >= budget_of(waited) ==> step_after(waited, WaitReport::Silent(silent))
            == WaitStep::Settled(WaitOutcome::TimedOut),
        jobs_after(WaitOutcome::TimedOut) == Ok::<Seq<String>, ReceiveError>(Seq::empty()),
{
}

} // verus!

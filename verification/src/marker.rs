//! The alignment sequence that precedes every frame, and where it occurs in a byte stream.

use vstd::prelude::*;

verus! {

/// Number of bytes in the alignment sequence.
pub const MARKER_LEN: usize = 41;

/// The alignment sequence: `=="'= ALIGNMENT SEQUENCE - SOLSTICE ="'==`.
///
/// It holds no zero byte, so a window of zero bytes never equals it.
pub const ALIGNMENT_SEQUENCE: [u8; 41] = [
    0x3d, 0x3d, 0x22, 0x27, 0x3d, 0x20, 0x41, 0x4c, 0x49, 0x47, 0x4e, 0x4d, 0x45, 0x4e, 0x54, 0x20,
    0x53, 0x45, 0x51, 0x55, 0x45, 0x4e, 0x43, 0x45, 0x20, 0x2d, 0x20, 0x53, 0x4f, 0x4c, 0x53, 0x54,
    0x49, 0x43, 0x45, 0x20, 0x3d, 0x22, 0x27, 0x3d, 0x3d,
];

/// The alignment sequence as a sequence of bytes.
pub open spec fn marker() -> Seq<u8> {
    ALIGNMENT_SEQUENCE@
}

/// The alignment sequence fills `s` from `end - 41` up to `end`.
pub open spec fn marker_ends_at(s: Seq<u8>, end: int) -> bool {
    41 <= end <= s.len() && s.subrange(end - 41, end) == marker()
}

/// No alignment sequence is complete within the first `upto` bytes of `s`.
pub open spec fn marker_free(s: Seq<u8>, upto: int) -> bool {
    forall|end: int| end <= upto ==> !marker_ends_at(s, end)
}

/// The number of bytes of `s` up to and including its first alignment sequence, if it holds one.
#[verifier::opaque]
pub open spec fn first_marker_end(s: Seq<u8>) -> Option<int> {
    if exists|end: int| marker_ends_at(s, end) {
        Some(choose|end: int| marker_ends_at(s, end) && marker_free(s, end - 1))
    } else {
        None
    }
}

/// The alignment sequence has 41 bytes, none of them zero.
pub proof fn lemma_marker_shape()
    ensures
        marker().len() == 41,
        forall|i: int| 0 <= i < 41 ==> #[trigger] marker()[i] != 0,
{
}

/// The alignment sequence begins with `==`, and that pair occurs in it again only at its end.
pub proof fn lemma_marker_overlap(d: int)
    requires
        0 <= d <= 39,
        marker()[d] == marker()[0],
        marker()[d + 1] == marker()[1],
    ensures
        d == 0 || d == 39,
{
}

/// An end offset before which no alignment sequence is complete is the first one.
pub proof fn lemma_first_marker_end_is(s: Seq<u8>, end: int)
    requires
        marker_ends_at(s, end),
        marker_free(s, end - 1),
    ensures
        first_marker_end(s) == Some(end),
{
    reveal(first_marker_end);
    let found = choose|e: int| marker_ends_at(s, e) && marker_free(s, e - 1);
    assert(marker_ends_at(s, found) && marker_free(s, found - 1));
    if found < end {
        assert(found <= end - 1);
    } else if end < found {
        assert(end <= found - 1);
    }
}

/// A stream with no complete alignment sequence has no first one.
pub proof fn lemma_first_marker_end_none(s: Seq<u8>)
    requires
        marker_free(s, s.len() as int),
    ensures
        first_marker_end(s).is_none(),
{
    reveal(first_marker_end);
    assert forall|end: int| !marker_ends_at(s, end) by {
        if end <= s.len() {
            assert(!marker_ends_at(s, end));
        }
    }
}

/// The first alignment sequence, where there is one, is complete at its end offset and nowhere
/// before.
pub proof fn lemma_first_marker_end_some(s: Seq<u8>)
    requires
        first_marker_end(s).is_some(),
    ensures
        marker_ends_at(s, first_marker_end(s).unwrap()),
        marker_free(s, first_marker_end(s).unwrap() - 1),
{
    reveal(first_marker_end);
    let e0 = choose|end: int| marker_ends_at(s, end);
    lemma_least_marker_end(s, e0);
}

/// Below any complete alignment sequence there is a first one.
proof fn lemma_least_marker_end(s: Seq<u8>, end: int)
    requires
        marker_ends_at(s, end),
    ensures
        exists|e: int| marker_ends_at(s, e) && marker_free(s, e - 1),
    decreases end,
{
    if marker_free(s, end - 1) {
    } else {
        let lower = choose|e: int| e <= end - 1 && marker_ends_at(s, e);
        lemma_least_marker_end(s, lower);
    }
}

} // verus!

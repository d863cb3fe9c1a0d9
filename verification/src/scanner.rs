//! The sliding window that finds the alignment sequence in a stream of unknown bytes.

use crate::marker::{marker, marker_ends_at, lemma_marker_shape, ALIGNMENT_SEQUENCE};
use std::collections::VecDeque;
use vstd::prelude::*;

verus! {

/// The window before any byte was seen: 41 zero bytes.
pub open spec fn blank_window() -> Seq<u8> {
    Seq::new(41, |i: int| 0u8)
}

/// The window after one more byte: the oldest byte leaves, the new one enters at the end.
pub open spec fn slide(window: Seq<u8>, byte: u8) -> Seq<u8> {
    window.skip(1).push(byte)
}

/// The window after the bytes of `seen` went through it one by one.
pub open spec fn window_after(seen: Seq<u8>) -> Seq<u8>
    decreases seen.len(),
{
    if seen.len() == 0 {
        blank_window()
    } else {
        slide(window_after(seen.drop_last()), seen.last())
    }
}

/// The window holds the last 41 bytes of the zero bytes it started with followed by all that
/// it has seen.
pub proof fn lemma_window_is_tail(seen: Seq<u8>)
    ensures
        window_after(seen) == (blank_window() + seen).skip(seen.len() as int),
    decreases seen.len(),
{
    if seen.len() == 0 {
        assert((blank_window() + seen).skip(0) =~= blank_window());
    } else {
        lemma_window_is_tail(seen.drop_last());
        let before = (blank_window() + seen.drop_last()).skip(seen.len() - 1);
        assert(slide(before, seen.last()) =~= (blank_window() + seen).skip(seen.len() as int));
    }
}

/// The window equals the alignment sequence exactly when the bytes seen end with it. The zero
/// bytes that the window starts with never take part in a match, because the alignment
/// sequence holds no zero byte.
pub proof fn lemma_window_matches(seen: Seq<u8>)
    ensures
        window_after(seen) == marker() <==> marker_ends_at(seen, seen.len() as int),
{
    lemma_window_is_tail(seen);
    lemma_marker_shape();
    let window = (blank_window() + seen).skip(seen.len() as int);
    if seen.len() >= 41 {
        assert(window =~= seen.subrange(seen.len() - 41, seen.len() as int));
    } else {
        assert(window[0] == 0);
        assert(marker()[0] != 0);
    }
}

/// A sliding window over the 41 most recent bytes of a stream.
pub struct Scanner {
    window: VecDeque<u8>,
}

impl View for Scanner {
    type V = Seq<u8>;

    closed spec fn view(&self) -> Seq<u8> {
        self.window@
    }
}

impl Scanner {
    /// The window always holds exactly 41 bytes.
    pub closed spec fn wf(&self) -> bool {
        self.window@.len() == 41
    }

    /// A scanner that has seen nothing: its window holds zero bytes only.
    pub fn new() -> (scanner: Scanner)
        ensures
            scanner.wf(),
            scanner@ == blank_window(),
    {
        let mut window: VecDeque<u8> = VecDeque::new();
        let mut i: usize = 0;
        while i < 41
            invariant
                i <= 41,
                window@.len() == i,
                forall|k: int| 0 <= k < i ==> window@[k] == 0,
            decreases 41 - i,
        {
            window.push_back(0u8);
            i += 1;
        }
        assert(window@ =~= blank_window());
        Scanner { window }
    }

    /// Whether the window now equals the alignment sequence.
    pub fn is_aligned(&self) -> (aligned: bool)
        requires
            self.wf(),
        ensures
            aligned == (self@ == marker()),
    {
        let mut i: usize = 0;
        while i < 41
            invariant
                i <= 41,
                self.window@.len() == 41,
                forall|k: int| 0 <= k < i ==> self.window@[k] == marker()[k],
            decreases 41 - i,
        {
            if self.window[i] != ALIGNMENT_SEQUENCE[i] {
                return false;
            }
            i += 1;
        }
        assert(self.window@ =~= marker());
        true
    }

    /// Takes one byte into the window and says whether the alignment sequence is now complete.
    pub fn push(&mut self, byte: u8) -> (aligned: bool)
        requires
            old(self).wf(),
        ensures
            final(self).wf(),
            final(self)@ == slide(old(self)@, byte),
            aligned == (final(self)@ == marker()),
    {
        self.window.push_back(byte);
        let _ = self.window.pop_front();
        assert(self.window@ =~= slide(old(self)@, byte));
        self.is_aligned()
    }
}

} // verus!

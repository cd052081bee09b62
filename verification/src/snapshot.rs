//! One captured stack window.

use vstd::prelude::*;

verus! {

/// The size of a stack word, in bytes.
pub const WORD_BYTES: u64 = 8;

/// The user stack words `[sp, end())` captured with one sample.
pub struct StackSnapshot {
    /// The thread's stack pointer when the sample was taken.
    pub sp: u64,
    /// The lowest slot that belongs to a caller of the leaf frame.
    pub stable_start: u64,
    /// The captured words, lowest address first.
    pub words: Vec<u64>,
}

impl StackSnapshot {
    /// The address just past the last captured word.
    pub open spec fn limit(&self) -> int {
        self.sp + self.words@.len() * WORD_BYTES
    }

    /// Whether `limit()` is an address at all.
    pub open spec fn fits(&self) -> bool {
        self.limit() <= u64::MAX
    }

    /// The captured word that contains the byte at `addr`.
    pub open spec fn word_at(&self, addr: int) -> Option<u64> {
        if self.sp <= addr < self.limit() {
            Some(self.words@[(addr - self.sp) / WORD_BYTES as int])
        } else {
            None
        }
    }

    /// Whether `self` agrees with `window` on every word from `self`'s stable start up
    /// to the end of `window`.
    pub open spec fn agrees_above_stable_start(&self, window: &StackSnapshot) -> bool {
        forall|addr: int|
            self.stable_start <= addr < window.limit() ==> #[trigger] self.word_at(addr)
                == window.word_at(addr)
    }

    /// Whether `self` carries the stack of `window` on past the end of `window`: it
    /// starts inside `window` and ends above it, its stable part begins above its own
    /// leaf frame and inside `window`, the two share one word grid, and they agree on
    /// the stable part of their overlap.
    pub open spec fn is_continuation_of(&self, window: &StackSnapshot) -> bool {
        &&& window.sp < self.sp < window.limit() < self.limit()
        &&& self.sp < self.stable_start < window.limit()
        &&& (self.stable_start - self.sp) % WORD_BYTES as int == 0
        &&& (self.stable_start - window.sp) % WORD_BYTES as int == 0
        &&& self.agrees_above_stable_start(window)
    }

    /// Whether the ends that a comparison of `self` with `window` looks at are
    /// addresses.
    pub open spec fn comparable_with(&self, window: &StackSnapshot) -> bool {
        window.sp < self.sp ==> {
            &&& window.fits()
            &&& self.sp < window.limit() ==> self.fits()
        }
    }

    pub fn end(&self) -> (end: u64)
        requires
            self.fits(),
        ensures
            end == self.limit(),
    {
        self.sp + self.words.len() as u64 * WORD_BYTES
    }

    /// The word at `addr`, if it lies inside this snapshot.
    pub fn get(&self, addr: u64) -> (word: Option<u64>)
        ensures
            word == self.word_at(addr as int),
    {
        if addr < self.sp {
            return None;
        }
        let index: u64 = (addr - self.sp) / WORD_BYTES;
        if index < self.words.len() as u64 {
            Some(self.words[index as usize])
        } else {
            None
        }
    }

    /// Whether `self`, captured by an earlier sample, continues `window` past its end.
    /// Only words at or above this snapshot's stable start are compared: words below it
    /// belong to the leaf frame and can change between samples.
    pub fn continues(&self, window: &StackSnapshot) -> (result: bool)
        requires
            self.comparable_with(window),
        ensures
            result == self.is_continuation_of(window),
    {
        if self.sp <= window.sp || self.sp >= window.end() || self.end() <= window.end()
            || self.stable_start <= self.sp || self.stable_start >= window.end() {
            return false;
        }
        let stable_offset: u64 = self.stable_start - self.sp;
        let window_offset: u64 = self.stable_start - window.sp;
        if stable_offset % WORD_BYTES != 0 || window_offset % WORD_BYTES != 0 {
            return false;
        }
        assert(stable_offset / WORD_BYTES <= self.words.len());
        assert(window_offset / WORD_BYTES <= window.words.len());
        let self_start: usize = (stable_offset / WORD_BYTES) as usize;
        let window_start: usize = (window_offset / WORD_BYTES) as usize;
        let overlap_words: usize = ((window.end() - self.stable_start) / WORD_BYTES) as usize;
        assert(window_start + overlap_words == window.words.len());
        let mut i: usize = 0;
        while i < overlap_words
            invariant
                i <= overlap_words,
                self_start + overlap_words <= self.words.len(),
                window_start + overlap_words == window.words.len(),
                self.stable_start == self.sp + self_start * WORD_BYTES,
                self.stable_start == window.sp + window_start * WORD_BYTES,
                forall|k: int|
                    0 <= k < i ==> #[trigger] self.words@[self_start + k]
                        == window.words@[window_start + k],
            decreases overlap_words - i,
        {
            if self.words[self_start + i] != window.words[window_start + i] {
                proof {
                    let addr = self.stable_start + i * WORD_BYTES;
                    assert(self.word_at(addr) == Some(self.words@[self_start + i]));
                    assert(window.word_at(addr) == Some(window.words@[window_start + i]));
                }
                return false;
            }
            i += 1;
        }
        assert forall|addr: int| self.stable_start <= addr < window.limit() implies
            #[trigger] self.word_at(addr) == window.word_at(addr) by {
            let k = (addr - self.stable_start) / WORD_BYTES as int;
            assert(self.words@[self_start + k] == window.words@[window_start + k]);
        }
        true
    }
}

} // verus!

//! The recent stack windows of one thread.

use crate::filtering::{lemma_filter_index, lemma_filter_pairwise, lemma_filter_take_next};
use crate::snapshot::StackSnapshot;
use std::collections::VecDeque;
use vstd::prelude::*;

verus! {

/// The stack windows of one thread that may still be current, newest first. Retirement and
/// covering keep only snapshots that extend further up the stack than every newer one, so
/// the count stays bounded by the stack depth.
pub struct ThreadStackSnapshots {
    ring: VecDeque<StackSnapshot>,
}

impl View for ThreadStackSnapshots {
    type V = Seq<StackSnapshot>;

    /// The windows, newest first.
    closed spec fn view(&self) -> Seq<StackSnapshot> {
        self.ring@
    }
}

/// Whether the words of `newer`, or at least its stable part, start no higher than the
/// stable part of `older`.
pub open spec fn starts_below_stable_part(newer: StackSnapshot, older: StackSnapshot) -> bool {
    newer.sp <= older.stable_start || newer.stable_start <= older.stable_start
}

/// Whether `newer` covers the stable part of `older`: it starts no higher, and it ends no
/// lower.
pub open spec fn covers(newer: StackSnapshot, older: StackSnapshot) -> bool {
    starts_below_stable_part(newer, older) && older.limit() <= newer.limit()
}

/// The windows that `newer` does not cover.
pub open spec fn not_covered_by(newer: StackSnapshot) -> spec_fn(StackSnapshot) -> bool {
    |older: StackSnapshot| !covers(newer, older)
}

/// The windows whose stable part starts at `sp` or above.
pub open spec fn stable_from(sp: u64) -> spec_fn(StackSnapshot) -> bool {
    |snapshot: StackSnapshot| snapshot.stable_start >= sp
}

/// What a thread that holds `ring` holds after `snapshot` was added.
pub open spec fn pushed(ring: Seq<StackSnapshot>, snapshot: StackSnapshot) -> Seq<StackSnapshot> {
    seq![snapshot] + ring.filter(not_covered_by(snapshot))
}

/// What a thread that holds `ring` holds after the frames below `sp` have returned.
pub open spec fn retired(ring: Seq<StackSnapshot>, sp: u64) -> Seq<StackSnapshot> {
    ring.filter(stable_from(sp))
}

/// No window covers an older one.
pub open spec fn uncovered(ring: Seq<StackSnapshot>) -> bool {
    forall|newer: int, older: int|
        0 <= newer < older < ring.len() ==> !covers(
            #[trigger] ring[newer],
            #[trigger] ring[older],
        )
}

/// Every window reaches further up the stack than every newer one.
pub open spec fn extends_further(ring: Seq<StackSnapshot>) -> bool {
    forall|newer: int, older: int|
        0 <= newer < older < ring.len() ==> (#[trigger] ring[newer]).limit() < (
        #[trigger] ring[older]).limit()
}

/// The stable part of every window starts at `sp` or above.
pub open spec fn all_stable_from(ring: Seq<StackSnapshot>, sp: u64) -> bool {
    forall|i: int| 0 <= i < ring.len() ==> (#[trigger] ring[i]).stable_start >= sp
}

/// The end of every window is an address.
pub open spec fn all_fit(ring: Seq<StackSnapshot>) -> bool {
    forall|i: int| 0 <= i < ring.len() ==> (#[trigger] ring[i]).fits()
}

/// The ends that adding `snapshot` compares are addresses.
pub open spec fn ends_comparable(ring: Seq<StackSnapshot>, snapshot: StackSnapshot) -> bool {
    forall|i: int|
        0 <= i < ring.len() && starts_below_stable_part(snapshot, #[trigger] ring[i]) ==> {
            &&& ring[i].fits()
            &&& snapshot.fits()
        }
}

/// The window that a read looks at after following `chain`: the last window followed,
/// or `window` itself.
pub open spec fn tip(
    ring: Seq<StackSnapshot>,
    window: StackSnapshot,
    chain: Seq<usize>,
) -> StackSnapshot {
    if chain.len() > 0 {
        ring[chain.last() as int]
    } else {
        window
    }
}

/// Whether `next` is the newest window that continues `from`, leaving out those in
/// `used`.
pub open spec fn is_next_hop(
    ring: Seq<StackSnapshot>,
    from: StackSnapshot,
    used: Seq<usize>,
    next: usize,
) -> bool {
    &&& next < ring.len()
    &&& !used.contains(next)
    &&& ring[next as int].is_continuation_of(&from)
    &&& forall|newer: usize|
        newer < next && !used.contains(newer) ==> !(#[trigger] ring[newer as int]).is_continuation_of(&from)
}

/// Whether no window outside `used` continues `from`.
pub open spec fn has_no_hop(
    ring: Seq<StackSnapshot>,
    from: StackSnapshot,
    used: Seq<usize>,
) -> bool {
    forall|i: usize|
        i < ring.len() && !used.contains(i) ==> !(#[trigger] ring[i as int]).is_continuation_of(&from)
}

/// Whether `chain` with its first `known` hops given was followed hop by hop from
/// there.
pub open spec fn followed_from(
    ring: Seq<StackSnapshot>,
    window: StackSnapshot,
    chain: Seq<usize>,
    known: nat,
) -> bool {
    forall|k: int|
        known <= k < chain.len() ==> is_next_hop(
            ring,
            tip(ring, window, #[trigger] chain.take(k)),
            chain.take(k),
            chain[k],
        )
}

/// Whether `from` cannot answer a read of `addr`, but a window that continues it might.
pub open spec fn is_read_past(from: StackSnapshot, addr: u64) -> bool {
    from.sp <= addr && from.word_at(addr as int) is None
}

/// Whether a read of `addr` that starts with `before` followed gets to where `followed`
/// is followed: it takes one hop after another, each because `addr` lies past the window
/// at hand.
pub open spec fn reaches(
    ring: Seq<StackSnapshot>,
    window: StackSnapshot,
    before: Seq<usize>,
    addr: u64,
    followed: Seq<usize>,
) -> bool {
    &&& before.len() <= followed.len()
    &&& followed.take(before.len() as int) == before
    &&& followed_from(ring, window, followed, before.len())
    &&& forall|k: int|
        before.len() <= k < followed.len() ==> is_read_past(
            tip(ring, window, #[trigger] followed.take(k)),
            addr,
        )
}

/// Whether a read of `addr` that starts with `before` followed ends with `after`
/// followed and `word` read: it hops for as long as it must and can, and answers from
/// the last window.
pub open spec fn reads(
    ring: Seq<StackSnapshot>,
    window: StackSnapshot,
    before: Seq<usize>,
    addr: u64,
    after: Seq<usize>,
    word: Option<u64>,
) -> bool {
    let last = tip(ring, window, after);
    &&& reaches(ring, window, before, addr, after)
    &&& word == last.word_at(addr as int)
    &&& is_read_past(last, addr) ==> has_no_hop(ring, last, after)
}

/// Whether the ends that a search for the next hop looks at are addresses. The search
/// goes no further than the first window that continues `from`.
pub open spec fn search_comparable(
    ring: Seq<StackSnapshot>,
    from: StackSnapshot,
    used: Seq<usize>,
) -> bool {
    forall|i: usize|
        i < ring.len() && !used.contains(i) && (forall|newer: usize|
            newer < i && !used.contains(newer) ==> !(
            #[trigger] ring[newer as int]).is_continuation_of(&from)) ==> (
        #[trigger] ring[i as int]).comparable_with(&from)
}

/// Whether the ends that a read of `addr` looks at are addresses. They are if all ends
/// are; else those of the windows that the searches on the way compare must be.
pub open spec fn read_comparable(
    ring: Seq<StackSnapshot>,
    window: StackSnapshot,
    before: Seq<usize>,
    addr: u64,
) -> bool {
    ||| window.fits() && all_fit(ring)
    ||| forall|followed: Seq<usize>| #[trigger]
        reaches(ring, window, before, addr, followed) && is_read_past(
            tip(ring, window, followed),
            addr,
        ) ==> search_comparable(ring, tip(ring, window, followed), followed)
}

/// Dropping windows leaves no window covered by a newer one, every window reaching further
/// than every newer one, and all ends addresses, each if that is how it was.
proof fn lemma_filter_invariants(ring: Seq<StackSnapshot>, keep: spec_fn(StackSnapshot) -> bool)
    ensures
        uncovered(ring) ==> uncovered(ring.filter(keep)),
        extends_further(ring) ==> extends_further(ring.filter(keep)),
        all_fit(ring) ==> all_fit(ring.filter(keep)),
{
    if uncovered(ring) {
        lemma_filter_pairwise(
            ring,
            keep,
            |newer: StackSnapshot, older: StackSnapshot| !covers(newer, older),
        );
    }
    if extends_further(ring) {
        lemma_filter_pairwise(
            ring,
            keep,
            |newer: StackSnapshot, older: StackSnapshot| newer.limit() < older.limit(),
        );
    }
    assert forall|i: int| 0 <= i < ring.filter(keep).len() implies ring.contains(
        #[trigger] ring.filter(keep)[i],
    ) by {
        lemma_filter_index(ring, keep, i);
    }
}

/// Retiring keeps what dropping windows keeps, and leaves no stable part below `sp`.
pub proof fn lemma_retired_invariants(ring: Seq<StackSnapshot>, sp: u64)
    ensures
        uncovered(ring) ==> uncovered(retired(ring, sp)),
        extends_further(ring) ==> extends_further(retired(ring, sp)),
        all_fit(ring) ==> all_fit(retired(ring, sp)),
        all_stable_from(retired(ring, sp), sp),
{
    lemma_filter_invariants(ring, stable_from(sp));
    assert forall|i: int| 0 <= i < retired(ring, sp).len() implies (
    #[trigger] retired(ring, sp)[i]).stable_start >= sp by {
        lemma_filter_index(ring, stable_from(sp), i);
    }
}

/// Adding a window keeps no window covered by a newer one, all ends addresses if its own is
/// one, and every window reaching further than every newer one if those below its stack
/// pointer were retired.
pub proof fn lemma_pushed_invariants(ring: Seq<StackSnapshot>, snapshot: StackSnapshot)
    ensures
        uncovered(ring) ==> uncovered(pushed(ring, snapshot)),
        extends_further(ring) && all_stable_from(ring, snapshot.sp) ==> extends_further(
            pushed(ring, snapshot),
        ),
        all_fit(ring) && snapshot.fits() ==> all_fit(pushed(ring, snapshot)),
{
    let keep = not_covered_by(snapshot);
    let after = pushed(ring, snapshot);
    lemma_filter_invariants(ring, keep);
    assert forall|i: int| 0 < i < after.len() implies !covers(snapshot, #[trigger] after[i])
        && ring.contains(after[i]) && after[i] == ring.filter(keep)[i - 1] by {
        lemma_filter_index(ring, keep, i - 1);
    }
}

/// Whether `index` is among `indices`.
fn contains_index(indices: &[usize], index: usize) -> (found: bool)
    ensures
        found == indices@.contains(index),
{
    let mut i: usize = 0;
    while i < indices.len()
        invariant
            i <= indices@.len(),
            forall|k: int| 0 <= k < i ==> indices@[k] != index,
        decreases indices@.len() - i,
    {
        if indices[i] == index {
            return true;
        }
        i += 1;
    }
    false
}

impl Default for ThreadStackSnapshots {
    fn default() -> (snapshots: Self)
        ensures
            snapshots@ == Seq::<StackSnapshot>::empty(),
            uncovered(snapshots@),
            extends_further(snapshots@),
            all_fit(snapshots@),
    {
        ThreadStackSnapshots { ring: VecDeque::new() }
    }
}

impl ThreadStackSnapshots {
    /// The windows, newest first.
    pub fn ring(&self) -> (ring: &VecDeque<StackSnapshot>)
        ensures
            ring@ == self@,
    {
        &self.ring
    }

    /// Adds the newest snapshot. Older snapshots whose stable part it fully covers are
    /// dropped: it holds fresher words for all of their addresses.
    pub fn push(&mut self, snapshot: StackSnapshot)
        requires
            ends_comparable(old(self)@, snapshot),
        ensures
            final(self)@ == pushed(old(self)@, snapshot),
            uncovered(old(self)@) ==> uncovered(final(self)@),
            extends_further(old(self)@) && all_stable_from(old(self)@, snapshot.sp)
                ==> extends_further(final(self)@),
            all_fit(old(self)@) && snapshot.fits() ==> all_fit(final(self)@),
    {
        let ghost before: Seq<StackSnapshot> = self@;
        let ghost keep = not_covered_by(snapshot);
        let count: usize = self.ring.len();
        let mut i: usize = 0;
        proof {
            reveal(Seq::filter);
        }
        while i < count
            invariant
                i <= count,
                count == before.len(),
                keep == not_covered_by(snapshot),
                self.ring@ == before.skip(i as int) + before.take(i as int).filter(keep),
                ends_comparable(before, snapshot),
            decreases count - i,
        {
            proof {
                lemma_filter_take_next(before, i as int, keep);
            }
            if let Some(older) = self.ring.pop_front() {
                assert(older == before[i as int]);
                let starts_below: bool = snapshot.sp <= older.stable_start || snapshot.stable_start
                    <= older.stable_start;
                if !starts_below || older.end() > snapshot.end() {
                    self.ring.push_back(older);
                }
            }
            i += 1;
        }
        assert(before.take(count as int) =~= before);
        self.ring.push_front(snapshot);
        proof {
            lemma_pushed_invariants(before, snapshot);
        }
    }

    /// Drops the snapshots whose stable frames have returned by the time of a sample at
    /// `sp`: the thread's stack pointer is now above their lowest trusted slot, so the
    /// words there have been overwritten or will be.
    pub fn retire_returned(&mut self, sp: u64)
        ensures
            final(self)@ == retired(old(self)@, sp),
            all_stable_from(final(self)@, sp),
            uncovered(old(self)@) ==> uncovered(final(self)@),
            extends_further(old(self)@) ==> extends_further(final(self)@),
            all_fit(old(self)@) ==> all_fit(final(self)@),
    {
        let ghost before: Seq<StackSnapshot> = self@;
        let ghost keep = stable_from(sp);
        let count: usize = self.ring.len();
        let mut i: usize = 0;
        proof {
            reveal(Seq::filter);
        }
        while i < count
            invariant
                i <= count,
                count == before.len(),
                keep == stable_from(sp),
                self.ring@ == before.skip(i as int) + before.take(i as int).filter(keep),
            decreases count - i,
        {
            proof {
                lemma_filter_take_next(before, i as int, keep);
            }
            if let Some(snapshot) = self.ring.pop_front() {
                assert(snapshot == before[i as int]);
                if snapshot.stable_start >= sp {
                    self.ring.push_back(snapshot);
                }
            }
            i += 1;
        }
        assert(before.take(count as int) =~= before);
        proof {
            lemma_retired_invariants(before, sp);
        }
    }

    /// The word at `addr` past the end of `window`, read from the snapshots that
    /// continue it. `chain` holds the indices of the snapshots followed so far and is
    /// extended only when a read needs another hop.
    pub fn read_past(&self, window: &StackSnapshot, chain: &mut Vec<usize>, addr: u64) -> (word:
        Option<u64>)
        requires
            read_comparable(self@, *window, old(chain)@, addr),
            old(chain)@.len() > 0 ==> old(chain)@.last() < self@.len(),
        ensures
            reads(self@, *window, old(chain)@, addr, final(chain)@, word),
            final(chain)@.len() > 0 ==> final(chain)@.last() < self@.len(),
    {
        let ghost before: Seq<usize> = chain@;
        assert(chain@.take(before.len() as int) =~= before);
        loop
            invariant
                before == old(chain)@,
                read_comparable(self@, *window, before, addr),
                chain@.len() > 0 ==> chain@.last() < self@.len(),
                reaches(self@, *window, before, addr, chain@),
            decreases u64::MAX - tip(self@, *window, chain@).limit(),
        {
            assert(self.ring.len() == self@.len());
            let last: &StackSnapshot = if chain.len() > 0 {
                let index: usize = chain[chain.len() - 1];
                assert(index == chain@.last());
                &self.ring[index]
            } else {
                window
            };
            if let Some(value) = last.get(addr) {
                return Some(value);
            }
            // Continuations only start above the sp of the last one.
            if addr < last.sp {
                return None;
            }
            match self.find_continuation(last, chain.as_slice()) {
                Some(next) => {
                    let ghost shorter: Seq<usize> = chain@;
                    chain.push(next);
                    assert(chain@.take(shorter.len() as int) =~= shorter);
                    assert(chain@.take(before.len() as int) =~= before);
                    assert forall|k: int| 0 <= k < shorter.len() implies #[trigger] chain@.take(k)
                        == shorter.take(k) by {
                        assert(chain@.take(k) =~= shorter.take(k));
                    }
                },
                None => {
                    return None;
                },
            }
        }
    }

    /// The index of the newest snapshot that continues `window`, skipping the indices in
    /// `used`.
    fn find_continuation(&self, window: &StackSnapshot, used: &[usize]) -> (next: Option<usize>)
        requires
            search_comparable(self@, *window, used@),
        ensures
            match next {
                Some(index) => is_next_hop(self@, *window, used@, index),
                None => has_no_hop(self@, *window, used@),
            },
    {
        let mut index: usize = 0;
        while index < self.ring.len()
            invariant
                index <= self@.len(),
                search_comparable(self@, *window, used@),
                forall|newer: usize|
                    newer < index && !used@.contains(newer) ==> !(
                    #[trigger] self@[newer as int]).is_continuation_of(window),
            decreases self@.len() - index,
        {
            assert(self.ring@ == self@);
            if !contains_index(used, index) && self.ring[index].continues(window) {
                return Some(index);
            }
            index += 1;
        }
        None
    }
}

} // verus!

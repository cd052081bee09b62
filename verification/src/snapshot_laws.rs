//! What holds of stack windows across operations.

use crate::filtering::{lemma_filter_again, lemma_filter_contains, lemma_filter_index};
use crate::snapshot::{StackSnapshot, WORD_BYTES};
use crate::thread_snapshots::{
    covers, extends_further, followed_from, is_next_hop, is_read_past, lemma_pushed_invariants,
    lemma_retired_invariants, not_covered_by, pushed, reaches, reads, retired, stable_from, tip,
};
use vstd::prelude::*;

verus! {

/// Words of the leaf frame have no say: two windows that differ below their stable start
/// only continue the same windows.
pub proof fn leaf_words_do_not_matter(a: StackSnapshot, b: StackSnapshot, window: StackSnapshot)
    requires
        a.sp == b.sp,
        a.stable_start == b.stable_start,
        a.words@.len() == b.words@.len(),
        forall|addr: int| a.stable_start <= addr ==> #[trigger] a.word_at(addr) == b.word_at(addr),
    ensures
        a.is_continuation_of(&window) == b.is_continuation_of(&window),
{
    assert forall|addr: int| a.stable_start <= addr < window.limit() implies a.word_at(addr)
        == #[trigger] b.word_at(addr) by {
        assert(a.word_at(addr) == b.word_at(addr));
    }
    assert(a.agrees_above_stable_start(&window) ==> b.agrees_above_stable_start(&window));
    assert(b.agrees_above_stable_start(&window) ==> a.agrees_above_stable_start(&window)) by {
        if b.agrees_above_stable_start(&window) {
            assert forall|addr: int| a.stable_start <= addr < window.limit() implies
                #[trigger] a.word_at(addr) == window.word_at(addr) by {
                assert(b.word_at(addr) == window.word_at(addr));
            }
        }
    }
}

/// A window and one that continues it both hold, word for word, the stable part of their
/// overlap.
pub proof fn continuation_matches_overlap(
    snapshot: StackSnapshot,
    window: StackSnapshot,
    addr: int,
)
    requires
        snapshot.is_continuation_of(&window),
        snapshot.stable_start <= addr < window.limit(),
    ensures
        window.word_at(addr) is Some,
        snapshot.word_at(addr) == window.word_at(addr),
{
}

/// One differing word in the stable part of the overlap rules a window out.
pub proof fn mismatch_is_no_continuation(
    snapshot: StackSnapshot,
    window: StackSnapshot,
    addr: int,
)
    requires
        snapshot.stable_start <= addr < window.limit(),
        snapshot.word_at(addr) != window.word_at(addr),
    ensures
        !snapshot.is_continuation_of(&window),
{
}

/// Each hop leads to a window that starts and ends further up the stack.
pub proof fn hops_move_up(
    ring: Seq<StackSnapshot>,
    window: StackSnapshot,
    chain: Seq<usize>,
    known: nat,
    i: int,
    j: int,
)
    requires
        followed_from(ring, window, chain, known),
        known <= i < j <= chain.len(),
    ensures
        tip(ring, window, chain.take(i)).sp < tip(ring, window, chain.take(j)).sp,
        tip(ring, window, chain.take(i)).limit() < tip(ring, window, chain.take(j)).limit(),
    decreases j - i,
{
    assert(is_next_hop(
        ring,
        tip(ring, window, chain.take(j - 1)),
        chain.take(j - 1),
        chain[j - 1],
    ));
    assert(chain.take(j).last() == chain[j - 1]);
    if i < j - 1 {
        hops_move_up(ring, window, chain, known, i, j - 1);
    }
}

/// An address below the window at hand is out of reach of every hop from there.
pub proof fn hops_never_reach_below(
    ring: Seq<StackSnapshot>,
    window: StackSnapshot,
    chain: Seq<usize>,
    known: nat,
    i: int,
    addr: u64,
)
    requires
        followed_from(ring, window, chain, known),
        known <= i <= chain.len(),
        addr < tip(ring, window, chain.take(i)).sp,
    ensures
        tip(ring, window, chain).word_at(addr as int) is None,
{
    assert(chain.take(chain.len() as int) =~= chain);
    if i < chain.len() {
        hops_move_up(ring, window, chain, known, i, chain.len() as int);
    }
}

/// A chain never comes back to a window, so it is no longer than the ring, whatever
/// windows it started with, given that there was none twice.
pub proof fn chain_never_revisits(
    ring: Seq<StackSnapshot>,
    window: StackSnapshot,
    chain: Seq<usize>,
    known: nat,
)
    requires
        followed_from(ring, window, chain, known),
        known <= chain.len(),
        chain.take(known as int).no_duplicates(),
        forall|k: int| 0 <= k < known ==> (#[trigger] chain[k]) < ring.len(),
    ensures
        chain.no_duplicates(),
        chain.len() <= ring.len(),
{
    assert forall|k: int| known <= k < chain.len() implies chain[k] < ring.len() && !chain.take(
        k,
    ).contains(#[trigger] chain[k]) by {
        let prefix = chain.take(k);
        assert(is_next_hop(ring, tip(ring, window, prefix), prefix, chain[k]));
    }
    assert forall|i: int, j: int| 0 <= i < j < chain.len() implies chain[i] != chain[j] by {
        if j < known {
            let start = chain.take(known as int);
            assert(start[i] == chain[i] && start[j] == chain[j]);
        } else {
            assert(chain.take(j)[i] == chain[i]);
            assert(!chain.take(j).contains(chain[j]));
        }
    }
    let visited = chain.map_values(|index: usize| index as int);
    assert forall|i: int, j: int| 0 <= i < j < visited.len() implies visited[i] != visited[j] by {
        assert(chain[i] != chain[j]);
    }
    visited.unique_seq_to_set();
    let all = vstd::set_lib::set_int_range(0, ring.len() as int);
    vstd::set_lib::lemma_int_range(0, ring.len() as int);
    assert forall|index: int| visited.to_set().contains(index) implies all.contains(index) by {
        let k = choose|k: int| 0 <= k < visited.len() && visited[k] == index;
        assert(chain[k] < ring.len());
    }
    vstd::set_lib::lemma_len_subset(visited.to_set(), all);
}

/// A window that was followed does not continue the window at hand, so leaving out the
/// followed ones loses nothing.
pub proof fn followed_windows_do_not_continue(
    ring: Seq<StackSnapshot>,
    window: StackSnapshot,
    chain: Seq<usize>,
    i: int,
)
    requires
        followed_from(ring, window, chain, 0),
        0 <= i < chain.len(),
    ensures
        !ring[chain[i] as int].is_continuation_of(&tip(ring, window, chain)),
{
    assert(chain.take(chain.len() as int) =~= chain);
    assert(chain.take(i + 1).last() == chain[i]);
    if i + 1 < chain.len() {
        hops_move_up(ring, window, chain, 0, i + 1, chain.len() as int);
    }
}

/// Where a read ends and what it gives are determined by where it starts.
pub proof fn read_is_determined(
    ring: Seq<StackSnapshot>,
    window: StackSnapshot,
    before: Seq<usize>,
    addr: u64,
    after1: Seq<usize>,
    word1: Option<u64>,
    after2: Seq<usize>,
    word2: Option<u64>,
)
    requires
        reads(ring, window, before, addr, after1, word1),
        reads(ring, window, before, addr, after2, word2),
    ensures
        after1 == after2,
        word1 == word2,
{
    if after1.len() <= after2.len() {
        lemma_shorter_read_is_prefix(ring, window, before, addr, after1, word1, after2, word2);
    } else {
        lemma_shorter_read_is_prefix(ring, window, before, addr, after2, word2, after1, word1);
    }
}

proof fn lemma_shorter_read_is_prefix(
    ring: Seq<StackSnapshot>,
    window: StackSnapshot,
    before: Seq<usize>,
    addr: u64,
    after1: Seq<usize>,
    word1: Option<u64>,
    after2: Seq<usize>,
    word2: Option<u64>,
)
    requires
        reads(ring, window, before, addr, after1, word1),
        reads(ring, window, before, addr, after2, word2),
        after1.len() <= after2.len(),
    ensures
        after1 == after2,
{
    lemma_same_hops(ring, window, before, addr, after1, after2, after1.len() as int);
    assert(after1.take(after1.len() as int) =~= after1);
    if after1.len() < after2.len() {
        let k = after1.len() as int;
        assert(is_next_hop(ring, tip(ring, window, after2.take(k)), after2.take(k), after2[k]));
        assert(is_read_past(tip(ring, window, after2.take(k)), addr));
        assert(ring[after2[k] as int].is_continuation_of(&tip(ring, window, after1)));
    } else {
        assert(after2.take(after1.len() as int) =~= after2);
    }
}

/// Two chains that were followed from the same start agree as far as both go.
proof fn lemma_same_hops(
    ring: Seq<StackSnapshot>,
    window: StackSnapshot,
    before: Seq<usize>,
    addr: u64,
    chain1: Seq<usize>,
    chain2: Seq<usize>,
    k: int,
)
    requires
        reaches(ring, window, before, addr, chain1),
        reaches(ring, window, before, addr, chain2),
        before.len() <= k <= chain1.len(),
        k <= chain2.len(),
    ensures
        chain1.take(k) == chain2.take(k),
    decreases k,
{
    if k > before.len() {
        lemma_same_hops(ring, window, before, addr, chain1, chain2, k - 1);
        let prefix = chain1.take(k - 1);
        let from = tip(ring, window, prefix);
        assert(is_next_hop(ring, from, prefix, chain1[k - 1]));
        assert(is_next_hop(ring, tip(ring, window, chain2.take(k - 1)), chain2.take(k - 1), chain2[k - 1]));
        let next1 = chain1[k - 1];
        let next2 = chain2[k - 1];
        assert(ring[next1 as int].is_continuation_of(&from));
        assert(ring[next2 as int].is_continuation_of(&from));
        assert(chain1.take(k) =~= prefix.push(next1));
        assert(chain2.take(k) =~= prefix.push(next2));
    }
}

/// Reading an address again, with the chain that the first read left, gives the same word
/// and leaves the chain alone.
pub proof fn reading_again_changes_nothing(
    ring: Seq<StackSnapshot>,
    window: StackSnapshot,
    before: Seq<usize>,
    addr: u64,
    after: Seq<usize>,
    word: Option<u64>,
)
    requires
        reads(ring, window, before, addr, after, word),
    ensures
        reads(ring, window, after, addr, after, word),
{
    assert(after.take(after.len() as int) =~= after);
}

/// Reads that move up the stack may share a chain: a read of `addr2` that goes on from
/// where a read of a lower `addr1` ended gives what it gives when started afresh.
pub proof fn ascending_reads_share_a_chain(
    ring: Seq<StackSnapshot>,
    window: StackSnapshot,
    before: Seq<usize>,
    addr1: u64,
    between: Seq<usize>,
    word1: Option<u64>,
    addr2: u64,
    after: Seq<usize>,
    word2: Option<u64>,
)
    requires
        addr1 <= addr2,
        reads(ring, window, before, addr1, between, word1),
        reads(ring, window, between, addr2, after, word2),
    ensures
        reads(ring, window, before, addr2, after, word2),
{
    assert forall|k: int| 0 <= k <= between.len() implies #[trigger] after.take(k)
        == between.take(k) by {
        assert(after.take(between.len() as int).take(k) =~= after.take(k));
    }
    assert forall|k: int| before.len() <= k < after.len() implies is_next_hop(
        ring,
        tip(ring, window, #[trigger] after.take(k)),
        after.take(k),
        after[k],
    ) && is_read_past(tip(ring, window, after.take(k)), addr2) by {
        if k < between.len() {
            assert(after.take(between.len() as int)[k] == after[k]);
            assert(is_next_hop(
                ring,
                tip(ring, window, between.take(k)),
                between.take(k),
                between[k],
            ));
            assert(is_read_past(tip(ring, window, between.take(k)), addr1));
        }
    }
}

/// A word that a read gives is held at that address by the window itself or by one of the
/// thread's windows.
pub proof fn read_words_are_held(
    ring: Seq<StackSnapshot>,
    window: StackSnapshot,
    before: Seq<usize>,
    addr: u64,
    after: Seq<usize>,
    word: Option<u64>,
)
    requires
        reads(ring, window, before, addr, after, word),
        before.len() > 0 ==> before.last() < ring.len(),
        word is Some,
    ensures
        window.word_at(addr as int) == word || exists|i: int|
            0 <= i < ring.len() && (#[trigger] ring[i]).word_at(addr as int) == word,
{
    if after.len() > 0 {
        if after.len() > before.len() {
            let k = after.len() - 1;
            assert(is_next_hop(ring, tip(ring, window, after.take(k)), after.take(k), after[k]));
        } else {
            assert(after =~= before);
        }
        assert(ring[after.last() as int].word_at(addr as int) == word);
    }
}

/// A fresh read of an address inside the window gives the window's own word, whatever
/// older windows say.
pub proof fn current_window_comes_first(
    ring: Seq<StackSnapshot>,
    window: StackSnapshot,
    addr: u64,
    after: Seq<usize>,
    word: Option<u64>,
)
    requires
        reads(ring, window, Seq::empty(), addr, after, word),
        window.word_at(addr as int) is Some,
    ensures
        after == Seq::<usize>::empty(),
        word == window.word_at(addr as int),
{
    if after.len() > 0 {
        assert(after.take(0) =~= Seq::<usize>::empty());
        assert(is_read_past(tip(ring, window, after.take(0)), addr));
    }
    assert(after =~= Seq::<usize>::empty());
}

/// A chain leaves no gap: every address from the window's stack pointer to the end of the
/// last window followed is held on the way.
pub proof fn chain_leaves_no_gap(
    ring: Seq<StackSnapshot>,
    window: StackSnapshot,
    chain: Seq<usize>,
    addr: int,
)
    requires
        followed_from(ring, window, chain, 0),
        window.sp <= addr < tip(ring, window, chain).limit(),
    ensures
        exists|k: int|
            0 <= k <= chain.len() && tip(ring, window, #[trigger] chain.take(k)).word_at(addr) is Some,
    decreases chain.len(),
{
    assert(chain.take(chain.len() as int) =~= chain);
    if tip(ring, window, chain).word_at(addr) is None {
        let shorter = chain.drop_last();
        let k = chain.len() - 1;
        assert(chain.take(k) =~= shorter);
        assert(is_next_hop(ring, tip(ring, window, chain.take(k)), chain.take(k), chain[k]));
        assert forall|i: int| 0 <= i <= k implies #[trigger] shorter.take(i) == chain.take(i) by {
            assert(shorter.take(i) =~= chain.take(i));
        }
        assert forall|i: int| 0 <= i < k implies is_next_hop(
            ring,
            tip(ring, window, #[trigger] shorter.take(i)),
            shorter.take(i),
            shorter[i],
        ) by {
            assert(is_next_hop(ring, tip(ring, window, chain.take(i)), chain.take(i), chain[i]));
        }
        chain_leaves_no_gap(ring, window, shorter, addr);
        let held = choose|i: int|
            0 <= i <= shorter.len() && tip(ring, window, #[trigger] shorter.take(i)).word_at(
                addr,
            ) is Some;
        assert(chain.take(held) == shorter.take(held));
    }
}

/// A fresh read gives a word exactly for the addresses from the window's stack pointer to
/// the end of the last window followed.
pub proof fn fresh_read_succeeds_up_to_the_last_window(
    ring: Seq<StackSnapshot>,
    window: StackSnapshot,
    addr: u64,
    after: Seq<usize>,
    word: Option<u64>,
)
    requires
        reads(ring, window, Seq::empty(), addr, after, word),
    ensures
        word is Some <==> window.sp <= addr < tip(ring, window, after).limit(),
{
    if after.len() > 0 {
        let k = after.len() - 1;
        assert(is_next_hop(ring, tip(ring, window, after.take(k)), after.take(k), after[k]));
        assert(is_read_past(tip(ring, window, after.take(k)), addr));
        assert(after.take(0) =~= Seq::<usize>::empty());
        assert(is_read_past(tip(ring, window, after.take(0)), addr));
    }
}

/// A read never follows a window whose stable frames have returned.
pub proof fn returned_frames_are_never_followed(
    ring: Seq<StackSnapshot>,
    sp: u64,
    from: StackSnapshot,
    used: Seq<usize>,
    next: usize,
)
    requires
        is_next_hop(retired(ring, sp), from, used, next),
    ensures
        retired(ring, sp)[next as int].stable_start >= sp,
        ring.contains(retired(ring, sp)[next as int]),
{
    lemma_filter_index(ring, stable_from(sp), next as int);
}

/// After a sample at `sp` has retired the returned windows and added its own, no window
/// trusts a word below `sp`, given that the sample's own does not.
pub proof fn nothing_below_the_latest_sample_is_trusted(
    ring: Seq<StackSnapshot>,
    sp: u64,
    snapshot: StackSnapshot,
    i: int,
)
    requires
        snapshot.stable_start >= sp,
        0 <= i < pushed(retired(ring, sp), snapshot).len(),
    ensures
        pushed(retired(ring, sp), snapshot)[i].stable_start >= sp,
{
    if i > 0 {
        let keep = not_covered_by(snapshot);
        lemma_filter_index(retired(ring, sp), keep, i - 1);
        lemma_filter_contains(ring, stable_from(sp), retired(ring, sp).filter(keep)[i - 1]);
    }
}

/// Retiring keeps the windows whose stable part starts at `sp` or above, and no others.
pub proof fn retired_keeps_stable_windows(
    ring: Seq<StackSnapshot>,
    sp: u64,
    snapshot: StackSnapshot,
)
    ensures
        retired(ring, sp).contains(snapshot) <==> ring.contains(snapshot) && snapshot.stable_start
            >= sp,
{
    lemma_filter_contains(ring, stable_from(sp), snapshot);
}

/// Retiring twice is retiring once, at the higher stack pointer.
pub proof fn retiring_twice_is_retiring_once(ring: Seq<StackSnapshot>, sp1: u64, sp2: u64)
    ensures
        retired(retired(ring, sp1), sp2) == retired(
            ring,
            if sp1 <= sp2 {
                sp2
            } else {
                sp1
            },
        ),
    decreases ring.len(),
{
    reveal(Seq::filter);
    if ring.len() > 0 {
        retiring_twice_is_retiring_once(ring.drop_last(), sp1, sp2);
        let kept = retired(ring, sp1);
        if stable_from(sp1)(ring.last()) {
            assert(kept.drop_last() =~= retired(ring.drop_last(), sp1));
        }
    }
}

/// After a push the pushed window is the newest, every other window was there before, and
/// a window that was there before is gone exactly if the new one covers it.
pub proof fn push_drops_exactly_the_covered(
    ring: Seq<StackSnapshot>,
    snapshot: StackSnapshot,
    older: StackSnapshot,
)
    ensures
        pushed(ring, snapshot)[0] == snapshot,
        pushed(ring, snapshot).skip(1).contains(older) <==> ring.contains(older) && !covers(
            snapshot,
            older,
        ),
{
    lemma_filter_contains(ring, not_covered_by(snapshot), older);
    assert(pushed(ring, snapshot).skip(1) =~= ring.filter(not_covered_by(snapshot)));
}

/// A push loses no stable address: whatever some window held in its stable part, some
/// window holds afterwards. If it is the new one, its word is fresher.
pub proof fn push_keeps_stable_addresses(
    ring: Seq<StackSnapshot>,
    snapshot: StackSnapshot,
    i: int,
    addr: int,
)
    requires
        snapshot.sp <= snapshot.stable_start,
        0 <= i < ring.len(),
        ring[i].stable_start <= addr,
        ring[i].word_at(addr) is Some,
    ensures
        snapshot.word_at(addr) is Some || pushed(ring, snapshot).contains(ring[i]),
        exists|j: int|
            0 <= j < pushed(ring, snapshot).len() && (#[trigger] pushed(ring, snapshot)[j]).word_at(
                addr,
            ) is Some,
{
    let after = pushed(ring, snapshot);
    if covers(snapshot, ring[i]) {
        assert(after[0] == snapshot);
        assert(snapshot.word_at(addr) is Some);
    } else {
        let kept = ring.filter(not_covered_by(snapshot));
        lemma_filter_contains(ring, not_covered_by(snapshot), ring[i]);
        assert(ring.contains(ring[i]));
        let k = choose|k: int| 0 <= k < kept.len() && kept[k] == ring[i];
        assert(after[k + 1] == ring[i]);
    }
}

/// Two windows of one range do not stay together: the later one takes the place of the
/// earlier one.
pub proof fn same_range_is_replaced(
    ring: Seq<StackSnapshot>,
    earlier: StackSnapshot,
    later: StackSnapshot,
)
    requires
        later.sp == earlier.sp,
        later.stable_start == earlier.stable_start,
        later.limit() == earlier.limit(),
    ensures
        pushed(pushed(ring, earlier), later) == pushed(ring, later),
{
    let keep = not_covered_by(later);
    let first = seq![earlier];
    let rest = ring.filter(not_covered_by(earlier));
    assert(not_covered_by(earlier) =~= keep);
    Seq::filter_distributes_over_add(first, rest, keep);
    assert(first.filter(keep) =~= Seq::<StackSnapshot>::empty()) by {
        reveal_with_fuel(Seq::filter, 2);
        assert(first.drop_last() =~= Seq::<StackSnapshot>::empty());
    }
    lemma_filter_again(ring, keep);
    assert(pushed(ring, earlier).filter(keep) =~= rest);
}

/// What a thread holds after `samples`, oldest first: each sample retires the windows that
/// have returned by then, and adds its own.
pub open spec fn after_samples(samples: Seq<StackSnapshot>) -> Seq<StackSnapshot>
    decreases samples.len(),
{
    if samples.len() == 0 {
        Seq::empty()
    } else {
        let latest = samples.last();
        pushed(retired(after_samples(samples.drop_last()), latest.sp), latest)
    }
}

/// Retirement and covering keep every window reaching further up the stack than every
/// newer one: after a sample, whatever it captured, that holds if it held before.
pub proof fn sample_keeps_windows_extending_further(
    ring: Seq<StackSnapshot>,
    snapshot: StackSnapshot,
)
    requires
        extends_further(ring),
    ensures
        extends_further(pushed(retired(ring, snapshot.sp), snapshot)),
{
    lemma_retired_invariants(ring, snapshot.sp);
    lemma_pushed_invariants(retired(ring, snapshot.sp), snapshot);
}

/// However many samples there were, every window reaches further up the stack than every
/// newer one.
pub proof fn windows_extend_further_after_samples(samples: Seq<StackSnapshot>)
    ensures
        extends_further(after_samples(samples)),
    decreases samples.len(),
{
    if samples.len() > 0 {
        windows_extend_further_after_samples(samples.drop_last());
        sample_keeps_windows_extending_further(
            after_samples(samples.drop_last()),
            samples.last(),
        );
    }
}

/// The count stays bounded by the stack depth: however many samples there were, none of
/// which ends above `top`, there is at most one window more than there are bytes between
/// the latest stack pointer and `top`, and, if all ends lie on one word grid, at most one
/// more than there are words.
pub proof fn count_is_bounded_by_stack_depth(samples: Seq<StackSnapshot>, top: int)
    requires
        samples.len() > 0,
        forall|i: int| 0 <= i < samples.len() ==> (#[trigger] samples[i]).limit() <= top,
    ensures
        after_samples(samples).len() <= top - samples.last().sp + 1,
        (forall|i: int|
            0 <= i < samples.len() ==> (top - (#[trigger] samples[i]).limit()) % WORD_BYTES as int
                == 0) ==> after_samples(samples).len() <= (top - samples.last().sp)
            / WORD_BYTES as int + 1,
{
    let ring = after_samples(samples);
    windows_extend_further_after_samples(samples);
    assert forall|i: int| 0 <= i < ring.len() implies samples.contains(#[trigger] ring[i]) by {
        lemma_windows_are_samples(samples, i);
    }
    assert(ring[0] == samples.last());
    lemma_limits_spread(ring, 1, ring.len() - 1);
    if forall|i: int|
        0 <= i < samples.len() ==> (top - (#[trigger] samples[i]).limit()) % WORD_BYTES as int == 0 {
        assert forall|i: int, j: int| 0 <= i < j < ring.len() implies (
        #[trigger] ring[i]).limit() + WORD_BYTES <= (#[trigger] ring[j]).limit() by {
            assert(samples.contains(ring[i]) && samples.contains(ring[j]));
        }
        lemma_limits_spread(ring, WORD_BYTES as int, ring.len() - 1);
    }
}

/// Every window that is held was captured by one of the samples.
proof fn lemma_windows_are_samples(samples: Seq<StackSnapshot>, i: int)
    requires
        0 <= i < after_samples(samples).len(),
    ensures
        samples.contains(after_samples(samples)[i]),
    decreases samples.len(),
{
    if samples.len() > 0 {
        let earlier = after_samples(samples.drop_last());
        let latest = samples.last();
        let held = after_samples(samples)[i];
        if i == 0 {
            assert(samples[samples.len() - 1] == held);
        } else {
            lemma_filter_index(retired(earlier, latest.sp), not_covered_by(latest), i - 1);
            lemma_filter_contains(earlier, stable_from(latest.sp), held);
            let k = choose|k: int| 0 <= k < earlier.len() && earlier[k] == held;
            lemma_windows_are_samples(samples.drop_last(), k);
            let source = choose|k: int|
                0 <= k < samples.len() - 1 && samples.drop_last()[k] == held;
            assert(samples[source] == held);
        }
    }
}

/// Where each window ends at least `step` above the next newer one, the ends spread by
/// `step` for each window.
proof fn lemma_limits_spread(ring: Seq<StackSnapshot>, step: int, i: int)
    requires
        0 <= i < ring.len(),
        forall|newer: int, older: int|
            0 <= newer < older < ring.len() ==> (#[trigger] ring[newer]).limit() + step <= (
            #[trigger] ring[older]).limit(),
    ensures
        ring[i].limit() >= ring[0].limit() + i * step,
    decreases i,
{
    if i > 0 {
        lemma_limits_spread(ring, step, i - 1);
        assert(ring[i - 1].limit() + step <= ring[i].limit());
        assert((i - 1) * step + step == i * step) by (nonlinear_arith);
    } else {
        assert(i * step == 0) by (nonlinear_arith)
            requires
                i == 0,
        ;
    }
}

} // verus!

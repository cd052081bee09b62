//! What a read past the end of a window gives, hop by hop.
//!
//! Each law speaks of a call's own result: `call_ensures(f, args, result)` is what a caller
//! of `f` with `args` knows of the `result`.

use crate::snapshot::StackSnapshot;
use crate::snapshot_laws::read_is_determined;
use crate::thread_snapshots::{
    has_no_hop, is_next_hop, is_read_past, reaches, reads, tip, ThreadStackSnapshots,
};
use crate::window_laws::continuing_windows_match;
use vstd::prelude::*;

verus! {

/// Any address can be read if all ends are addresses and the chain ends in one of the
/// thread's windows, as an empty chain and a chain that a read has left do.
pub proof fn any_address_can_be_read(
    snapshots: ThreadStackSnapshots,
    window: StackSnapshot,
    chain: &mut Vec<usize>,
    addr: u64,
)
    requires
        window.sp + window.words@.len() * 8 <= u64::MAX,
        forall|i: int|
            0 <= i < snapshots@.len() ==> (#[trigger] snapshots@[i]).sp
                + snapshots@[i].words@.len() * 8 <= u64::MAX,
        old(chain)@.len() > 0 ==> old(chain)@.last() < snapshots@.len(),
    ensures
        call_requires(ThreadStackSnapshots::read_past, (&snapshots, &window, chain, addr)),
        forall|word: Option<u64>|
            call_ensures(
                ThreadStackSnapshots::read_past,
                (&snapshots, &window, chain, addr),
                word,
            ) && final(chain)@.len() > 0 ==> final(chain)@.last() < snapshots@.len(),
{
}

/// A read answers from the last window followed, or from the current window if none was
/// followed, and from no other: it gives that window's word at the address, and gives
/// nothing exactly if that window does not hold the address. The chain that it was given
/// stays the start of the chain.
pub proof fn read_answers_from_the_last_window_followed(
    snapshots: ThreadStackSnapshots,
    window: StackSnapshot,
    chain: &mut Vec<usize>,
    addr: u64,
    word: Option<u64>,
)
    requires
        call_ensures(ThreadStackSnapshots::read_past, (&snapshots, &window, chain, addr), word),
    ensures
        ({
            let last = if final(chain)@.len() == 0 {
                window
            } else {
                snapshots@[final(chain)@[final(chain)@.len() - 1] as int]
            };
            &&& word is Some <==> last.sp <= addr < last.sp + last.words@.len() * 8
            &&& word is Some ==> word == Some(last.words@[(addr - last.sp) / 8])
        }),
        old(chain)@.len() <= final(chain)@.len(),
        final(chain)@.take(old(chain)@.len() as int) == old(chain)@,
{
}

/// A read follows only windows that match: each window followed is one of the thread's, is
/// not on the chain already, starts inside the window before it and ends above it, and
/// holds the same words as the window before it from its own stable start to that window's
/// end. It is followed only where the window before it ends at or below the address.
pub proof fn read_follows_matching_windows_only(
    snapshots: ThreadStackSnapshots,
    window: StackSnapshot,
    chain: &mut Vec<usize>,
    addr: u64,
    word: Option<u64>,
    k: int,
)
    requires
        call_ensures(ThreadStackSnapshots::read_past, (&snapshots, &window, chain, addr), word),
        old(chain)@.len() <= k < final(chain)@.len(),
    ensures
        final(chain)@[k] < snapshots@.len(),
        forall|i: int| 0 <= i < k ==> #[trigger] final(chain)@[i] != final(chain)@[k],
        ({
            let from = if k == 0 {
                window
            } else {
                snapshots@[final(chain)@[k - 1] as int]
            };
            let next = snapshots@[final(chain)@[k] as int];
            &&& from.sp + from.words@.len() * 8 <= addr
            &&& from.sp < next.sp < next.stable_start
            &&& next.stable_start < from.sp + from.words@.len() * 8
            &&& from.sp + from.words@.len() * 8 < next.sp + next.words@.len() * 8
            &&& (next.stable_start - next.sp) % 8 == 0
            &&& (next.stable_start - from.sp) % 8 == 0
            &&& forall|i: int, j: int|
                0 <= i < next.words@.len() && 0 <= j < from.words@.len() && next.sp + i * 8
                    == from.sp + j * 8 && next.stable_start <= next.sp + i * 8
                    ==> #[trigger] next.words@[i] == #[trigger] from.words@[j]
        }),
{
    let after = final(chain)@;
    let prefix = after.take(k);
    assert(is_next_hop(snapshots@, tip(snapshots@, window, prefix), prefix, after[k]));
    assert(is_read_past(tip(snapshots@, window, prefix), addr));
    assert forall|i: int| 0 <= i < k implies #[trigger] after[i] != after[k] by {
        assert(prefix[i] == after[i]);
        assert(prefix.contains(prefix[i]));
    }
    continuing_windows_match(snapshots@[after[k] as int], tip(snapshots@, window, prefix));
}

/// A read stops where it is if the last window on the chain, or the current window if the
/// chain is empty, holds the address or starts above it.
pub proof fn read_stops_at_a_window_that_decides(
    snapshots: ThreadStackSnapshots,
    window: StackSnapshot,
    chain: &mut Vec<usize>,
    addr: u64,
    word: Option<u64>,
)
    requires
        call_ensures(ThreadStackSnapshots::read_past, (&snapshots, &window, chain, addr), word),
        ({
            let last = if old(chain)@.len() == 0 {
                window
            } else {
                snapshots@[old(chain)@[old(chain)@.len() - 1] as int]
            };
            addr < last.sp + last.words@.len() * 8
        }),
    ensures
        final(chain)@ == old(chain)@,
{
    let before = old(chain)@;
    let after = final(chain)@;
    if before.len() < after.len() {
        let k = before.len() as int;
        assert(is_read_past(tip(snapshots@, window, after.take(k)), addr));
    }
    assert(after =~= before);
}

/// A read that has to go on hops to the newest window that continues the one at hand, of
/// those that are not on the chain yet: it ends as a read does that was given the chain
/// with this hop taken already.
pub proof fn read_hops_to_the_newest_continuation(
    snapshots: ThreadStackSnapshots,
    window: StackSnapshot,
    chain: &mut Vec<usize>,
    addr: u64,
    word: Option<u64>,
    next: usize,
    chain_on: &mut Vec<usize>,
    word_on: Option<u64>,
)
    requires
        call_ensures(ThreadStackSnapshots::read_past, (&snapshots, &window, chain, addr), word),
        call_ensures(
            ThreadStackSnapshots::read_past,
            (&snapshots, &window, chain_on, addr),
            word_on,
        ),
        old(chain_on)@ == old(chain)@.push(next),
        next < snapshots@.len(),
        !old(chain)@.contains(next),
        ({
            let last = if old(chain)@.len() == 0 {
                window
            } else {
                snapshots@[old(chain)@[old(chain)@.len() - 1] as int]
            };
            &&& last.sp + last.words@.len() * 8 <= addr
            &&& snapshots@[next as int].is_continuation_of(&last)
            &&& forall|newer: usize|
                newer < next && !old(chain)@.contains(newer) ==> !(
                #[trigger] snapshots@[newer as int]).is_continuation_of(&last)
        }),
    ensures
        word == word_on,
        final(chain)@ == final(chain_on)@,
{
    let ring = snapshots@;
    let before = old(chain)@;
    let after = final(chain)@;
    let k = before.len() as int;
    let last = tip(ring, window, before);
    assert(is_read_past(last, addr));
    if after.len() == before.len() {
        assert(after =~= before);
        assert(has_no_hop(ring, last, before));
        assert(!ring[next as int].is_continuation_of(&last));
    }
    assert(after.take(k) =~= before);
    let taken = after[k];
    assert(is_next_hop(ring, tip(ring, window, after.take(k)), after.take(k), taken));
    assert(ring[taken as int].is_continuation_of(&last));
    assert(ring[next as int].is_continuation_of(&last));
    assert(taken == next);
    assert(after.take(k + 1) =~= before.push(next));
    assert(reaches(ring, window, before.push(next), addr, after));
    assert(reads(ring, window, old(chain_on)@, addr, after, word));
    read_is_determined(
        ring,
        window,
        old(chain_on)@,
        addr,
        after,
        word,
        final(chain_on)@,
        word_on,
    );
}

/// A read that would have to go on gives nothing and leaves the chain alone if no window
/// that is not on the chain yet continues the one at hand.
pub proof fn read_gives_up_without_a_continuation(
    snapshots: ThreadStackSnapshots,
    window: StackSnapshot,
    chain: &mut Vec<usize>,
    addr: u64,
    word: Option<u64>,
)
    requires
        call_ensures(ThreadStackSnapshots::read_past, (&snapshots, &window, chain, addr), word),
        ({
            let last = if old(chain)@.len() == 0 {
                window
            } else {
                snapshots@[old(chain)@[old(chain)@.len() - 1] as int]
            };
            &&& last.sp + last.words@.len() * 8 <= addr
            &&& forall|i: usize|
                i < snapshots@.len() && !old(chain)@.contains(i) ==> !(
                #[trigger] snapshots@[i as int]).is_continuation_of(&last)
        }),
    ensures
        word is None,
        final(chain)@ == old(chain)@,
{
    let before = old(chain)@;
    let after = final(chain)@;
    if before.len() < after.len() {
        let k = before.len() as int;
        assert(after.take(k) =~= before);
        assert(is_next_hop(snapshots@, tip(snapshots@, window, after.take(k)), after.take(k), after[k]));
        assert(!snapshots@[after[k] as int].is_continuation_of(&tip(snapshots@, window, before)));
    }
    assert(after =~= before);
}

} // verus!

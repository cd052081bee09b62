//! What the operations on stack windows give, in terms of stack pointers, stable starts and
//! words alone.
//!
//! Each law speaks of a call's own result: `call_ensures(f, args, result)` is what a caller
//! of `f` with `args` knows of the `result`.

use crate::filtering::lemma_filter_take_next;
use crate::snapshot::StackSnapshot;
use crate::thread_snapshots::{
    not_covered_by, pushed, retired, stable_from, ThreadStackSnapshots,
};
use vstd::prelude::*;

verus! {

/// A window ends eight bytes above its stack pointer for each of its words.
pub proof fn each_word_takes_eight_bytes(snapshot: StackSnapshot, end: u64)
    requires
        call_ensures(StackSnapshot::end, (&snapshot,), end),
    ensures
        end - snapshot.sp == snapshot.words@.len() * 8,
{
}

/// A window gives its word number `i` for each of the eight bytes that the word takes, and
/// nothing for a byte that none of its words takes.
pub proof fn get_gives_the_word_around_an_address(
    snapshot: StackSnapshot,
    addr: u64,
    word: Option<u64>,
)
    requires
        call_ensures(StackSnapshot::get, (&snapshot, addr), word),
    ensures
        forall|i: int|
            0 <= i < snapshot.words@.len() && snapshot.sp + i * 8 <= addr < snapshot.sp + i * 8 + 8
                ==> word == Some(#[trigger] snapshot.words@[i]),
        word is None <==> addr < snapshot.sp || snapshot.sp + snapshot.words@.len() * 8 <= addr,
{
}

/// An earlier window that starts strictly inside a window and ends above it, whose stable
/// part starts above its own stack pointer, inside the window and on the word grids of
/// both, and whose words from there to the window's end are the window's, continues the
/// window, whatever the size of its leaf frame.
pub proof fn matching_windows_continue(earlier: StackSnapshot, window: StackSnapshot)
    requires
        window.sp < earlier.sp,
        earlier.sp < window.sp + window.words@.len() * 8,
        window.sp + window.words@.len() * 8 < earlier.sp + earlier.words@.len() * 8,
        earlier.sp < earlier.stable_start,
        earlier.stable_start < window.sp + window.words@.len() * 8,
        (earlier.stable_start - earlier.sp) % 8 == 0,
        (earlier.stable_start - window.sp) % 8 == 0,
        forall|i: int, j: int|
            0 <= i < earlier.words@.len() && 0 <= j < window.words@.len() && earlier.sp + i * 8
                == window.sp + j * 8 && earlier.stable_start <= earlier.sp + i * 8
                ==> #[trigger] earlier.words@[i] == #[trigger] window.words@[j],
    ensures
        earlier.is_continuation_of(&window),
        forall|result: bool|
            call_ensures(StackSnapshot::continues, (&earlier, &window), result) ==> result,
{
    assert forall|addr: int|
        earlier.stable_start <= addr < window.limit() implies #[trigger] earlier.word_at(addr)
        == window.word_at(addr) by {
        let i = (addr - earlier.sp) / 8;
        let j = (addr - window.sp) / 8;
        assert(earlier.words@[i] == window.words@[j]);
    }
}

/// Whatever continues a window starts strictly inside it and ends above it, has a stable
/// part that starts above its own stack pointer, inside the window and on the word grids of
/// both, and holds the window's words from there to the window's end.
pub proof fn continuing_windows_match(earlier: StackSnapshot, window: StackSnapshot)
    requires
        earlier.is_continuation_of(&window) || call_ensures(
            StackSnapshot::continues,
            (&earlier, &window),
            true,
        ),
    ensures
        window.sp < earlier.sp,
        earlier.sp < window.sp + window.words@.len() * 8,
        window.sp + window.words@.len() * 8 < earlier.sp + earlier.words@.len() * 8,
        earlier.sp < earlier.stable_start,
        earlier.stable_start < window.sp + window.words@.len() * 8,
        (earlier.stable_start - earlier.sp) % 8 == 0,
        (earlier.stable_start - window.sp) % 8 == 0,
        forall|i: int, j: int|
            0 <= i < earlier.words@.len() && 0 <= j < window.words@.len() && earlier.sp + i * 8
                == window.sp + j * 8 && earlier.stable_start <= earlier.sp + i * 8
                ==> #[trigger] earlier.words@[i] == #[trigger] window.words@[j],
{
    assert(earlier.agrees_above_stable_start(&window));
    assert forall|i: int, j: int|
        0 <= i < earlier.words@.len() && 0 <= j < window.words@.len() && earlier.sp + i * 8
            == window.sp + j * 8 && earlier.stable_start <= earlier.sp + i
            * 8 implies #[trigger] earlier.words@[i] == #[trigger] window.words@[j] by {
        let addr = earlier.sp + i * 8;
        assert(earlier.word_at(addr) == Some(earlier.words@[i]));
        assert(window.word_at(addr) == Some(window.words@[j]));
    }
}

/// The size of the leaf frame has no say: two earlier windows with one stable part, which
/// both start on the word grid below it and strictly inside the window, both continue the
/// window or neither does.
pub proof fn leaf_frame_size_does_not_matter(
    a: StackSnapshot,
    b: StackSnapshot,
    window: StackSnapshot,
    a_continues: bool,
    b_continues: bool,
)
    requires
        call_ensures(StackSnapshot::continues, (&a, &window), a_continues),
        call_ensures(StackSnapshot::continues, (&b, &window), b_continues),
        window.sp < a.sp < a.stable_start,
        window.sp < b.sp < b.stable_start,
        a.stable_start == b.stable_start,
        (a.stable_start - a.sp) % 8 == 0,
        (b.stable_start - b.sp) % 8 == 0,
        a.sp + a.words@.len() * 8 == b.sp + b.words@.len() * 8,
        forall|i: int, j: int|
            0 <= i < a.words@.len() && 0 <= j < b.words@.len() && a.sp + i * 8 == b.sp + j * 8
                && a.stable_start <= a.sp + i * 8 ==> #[trigger] a.words@[i]
                == #[trigger] b.words@[j],
    ensures
        a_continues == b_continues,
{
    assert forall|addr: int| a.stable_start <= addr implies #[trigger] a.word_at(addr)
        == b.word_at(addr) by {
        if addr < a.limit() {
            let i = (addr - a.sp) / 8;
            let j = (addr - b.sp) / 8;
            assert(a.words@[i] == b.words@[j]);
        }
    }
    assert(a.agrees_above_stable_start(&window) ==> b.agrees_above_stable_start(&window)) by {
        if a.agrees_above_stable_start(&window) {
            assert forall|addr: int| b.stable_start <= addr < window.limit() implies
                #[trigger] b.word_at(addr) == window.word_at(addr) by {
                assert(a.word_at(addr) == window.word_at(addr));
            }
        }
    }
    assert(b.agrees_above_stable_start(&window) ==> a.agrees_above_stable_start(&window)) by {
        if b.agrees_above_stable_start(&window) {
            assert forall|addr: int| a.stable_start <= addr < window.limit() implies
                #[trigger] a.word_at(addr) == window.word_at(addr) by {
                assert(b.word_at(addr) == window.word_at(addr));
            }
        }
    }
}

/// Any two windows whose ends are addresses can be compared, and any window can be added to
/// a thread's windows if all ends are addresses.
pub proof fn windows_that_end_at_addresses_can_be_compared(
    snapshots: &mut ThreadStackSnapshots,
    earlier: StackSnapshot,
    window: StackSnapshot,
)
    requires
        earlier.sp + earlier.words@.len() * 8 <= u64::MAX,
        window.sp + window.words@.len() * 8 <= u64::MAX,
        forall|i: int|
            0 <= i < old(snapshots)@.len() ==> (#[trigger] old(snapshots)@[i]).sp + old(
                snapshots,
            )@[i].words@.len() * 8 <= u64::MAX,
    ensures
        call_requires(StackSnapshot::end, (&window,)),
        call_requires(StackSnapshot::continues, (&earlier, &window)),
        call_requires(ThreadStackSnapshots::push, (snapshots, window)),
{
}

/// A push decides window by window: if the thread holds one more, older window, it holds
/// that one afterwards too, behind all others, unless the new window starts no higher than
/// the older one's stable part, with its words or with its own stable part, and ends no
/// lower. A thread without windows holds the new one alone.
pub proof fn push_decides_window_by_window(
    ring: Seq<StackSnapshot>,
    oldest: StackSnapshot,
    snapshot: StackSnapshot,
)
    ensures
        pushed(Seq::empty(), snapshot) == seq![snapshot],
        pushed(ring.push(oldest), snapshot) == if (snapshot.sp <= oldest.stable_start
            || snapshot.stable_start <= oldest.stable_start) && oldest.sp + oldest.words@.len() * 8
            <= snapshot.sp + snapshot.words@.len() * 8 {
            pushed(ring, snapshot)
        } else {
            pushed(ring, snapshot).push(oldest)
        },
{
    let keep = not_covered_by(snapshot);
    let all = ring.push(oldest);
    assert(Seq::<StackSnapshot>::empty().filter(keep) =~= Seq::empty()) by {
        reveal(Seq::filter);
    }
    lemma_filter_take_next(all, ring.len() as int, keep);
    assert(all.take(all.len() as int) =~= all);
    assert(all.take(ring.len() as int) =~= ring);
    assert(keep(oldest) == !((snapshot.sp <= oldest.stable_start || snapshot.stable_start
        <= oldest.stable_start) && oldest.sp + oldest.words@.len() * 8 <= snapshot.sp
        + snapshot.words@.len() * 8));
}

/// What a push leaves is decided window by window, the oldest last: see
/// `push_decides_window_by_window`.
pub proof fn push_gives_what_each_window_decides(
    fewer: &mut ThreadStackSnapshots,
    more: &mut ThreadStackSnapshots,
    oldest: StackSnapshot,
    snapshot: StackSnapshot,
)
    requires
        call_ensures(ThreadStackSnapshots::push, (fewer, snapshot), ()),
        call_ensures(ThreadStackSnapshots::push, (more, snapshot), ()),
        old(more)@ == old(fewer)@.push(oldest),
    ensures
        final(more)@ == if (snapshot.sp <= oldest.stable_start || snapshot.stable_start
            <= oldest.stable_start) && oldest.sp + oldest.words@.len() * 8 <= snapshot.sp
            + snapshot.words@.len() * 8 {
            final(fewer)@
        } else {
            final(fewer)@.push(oldest)
        },
        old(fewer)@.len() == 0 ==> final(fewer)@ == seq![snapshot],
{
    push_decides_window_by_window(old(fewer)@, oldest, snapshot);
    if old(fewer)@.len() == 0 {
        assert(old(fewer)@ =~= Seq::empty());
    }
}

/// Retirement decides window by window: if the thread holds one more, older window, it
/// holds that one afterwards too, behind all others, unless its stable part starts below
/// `sp`. A thread without windows gets none.
pub proof fn retirement_decides_window_by_window(
    ring: Seq<StackSnapshot>,
    oldest: StackSnapshot,
    sp: u64,
)
    ensures
        retired(Seq::empty(), sp) == Seq::<StackSnapshot>::empty(),
        retired(ring.push(oldest), sp) == if oldest.stable_start < sp {
            retired(ring, sp)
        } else {
            retired(ring, sp).push(oldest)
        },
{
    let keep = stable_from(sp);
    let all = ring.push(oldest);
    assert(Seq::<StackSnapshot>::empty().filter(keep) =~= Seq::empty()) by {
        reveal(Seq::filter);
    }
    lemma_filter_take_next(all, ring.len() as int, keep);
    assert(all.take(all.len() as int) =~= all);
    assert(all.take(ring.len() as int) =~= ring);
}

/// What retirement leaves is decided window by window, the oldest last: see
/// `retirement_decides_window_by_window`.
pub proof fn retire_gives_what_each_window_decides(
    fewer: &mut ThreadStackSnapshots,
    more: &mut ThreadStackSnapshots,
    oldest: StackSnapshot,
    sp: u64,
)
    requires
        call_ensures(ThreadStackSnapshots::retire_returned, (fewer, sp), ()),
        call_ensures(ThreadStackSnapshots::retire_returned, (more, sp), ()),
        old(more)@ == old(fewer)@.push(oldest),
    ensures
        final(more)@ == if oldest.stable_start < sp {
            final(fewer)@
        } else {
            final(fewer)@.push(oldest)
        },
        old(fewer)@.len() == 0 ==> final(fewer)@.len() == 0,
{
    retirement_decides_window_by_window(old(fewer)@, oldest, sp);
    if old(fewer)@.len() == 0 {
        assert(old(fewer)@ =~= Seq::empty());
    }
}

} // verus!

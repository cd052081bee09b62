//! A workload whose stack is deeper than one stack capture.
//!
//! Phase A recurses through `a_recurse` and works at every depth. Phase B recurses to the
//! same depth through `b_recurse` and works in `b_leaf` only, so no samples land at its
//! shallow depths: a `b_leaf` stack with `a_recurse` in it was completed from stale words.

use vstd::prelude::*;

verus! {

/// The bytes that one level of the recursion keeps on the stack.
pub const FRAME_SIZE: usize = 2048;

/// The depth of the deepest level, which outgrows a capture of 32000 bytes.
pub const MAX_DEPTH: usize = 35;

/// The rounds of work at every level of phase A.
pub const WORK_PER_LEVEL_A: u64 = 40_000;

/// The rounds of work in the leaf of phase A.
pub const WORK_IN_LEAF_A: u64 = 1_000_000;

/// The rounds of work in the leaf of phase B.
pub const WORK_IN_LEAF_B: u64 = 1_000_000;

/// The milliseconds that each phase takes unless told otherwise.
pub const DEFAULT_PHASE_MS: u64 = 3500;

/// `core::hint::black_box` hands its argument back; what it keeps the compiler from doing
/// is not said.
pub assume_specification<T>[ core::hint::black_box::<T> ](dummy: T) -> (same: T)
    ensures
        same == dummy,
;

/// How far a recursion went, and the work that was done on the way down and in the leaf.
pub struct Descent {
    /// The levels that were on the stack at once.
    pub frames: u128,
    /// The rounds of work of all levels together.
    pub level_rounds: u128,
    /// The result of one level's work, which is the same at every level; `None` if the
    /// levels do none.
    pub level: Option<u64>,
    /// The result of the leaf's work.
    pub leaf: u64,
}

/// The levels of a recursion from `depth` to `max_depth`.
pub open spec fn levels(depth: usize, max_depth: usize) -> int {
    if depth < max_depth {
        max_depth - depth + 1
    } else {
        1
    }
}

/// The result of `rounds` rounds of leaf work on `x`: the round's number is added to it,
/// and then the bits of `mask` are flipped.
pub open spec fn mixed(x: u64, mask: u64, rounds: nat) -> u64
    decreases rounds,
{
    if rounds == 0 {
        x
    } else {
        let before = mixed(x, mask, (rounds - 1) as nat);
        (((before + rounds - 1) % 0x1_0000_0000_0000_0000) as u64) ^ mask
    }
}

/// The result of `rounds` rounds of level work on `x`: the round's number is added to it.
pub open spec fn summed(x: u64, rounds: nat) -> u64
    decreases rounds,
{
    if rounds == 0 {
        x
    } else {
        let before = summed(x, (rounds - 1) as nat);
        ((before + rounds - 1) % 0x1_0000_0000_0000_0000) as u64
    }
}

/// What a recursion of phase A from `depth` to `max_depth` does: work at every level, and
/// work in the leaf.
pub open spec fn is_descent_a(descent: Descent, depth: usize, max_depth: usize) -> bool {
    &&& descent.frames == levels(depth, max_depth)
    &&& descent.level_rounds == levels(depth, max_depth) * WORK_PER_LEVEL_A
    &&& descent.level == Some(summed(0x1234, WORK_PER_LEVEL_A as nat))
    &&& descent.leaf == mixed(0x1111_2222, 0x55, WORK_IN_LEAF_A as nat)
}

/// What a recursion of phase B from `depth` to `max_depth` does: work in the leaf, and none
/// on the way down.
pub open spec fn is_descent_b(descent: Descent, depth: usize, max_depth: usize) -> bool {
    &&& descent.frames == levels(depth, max_depth)
    &&& descent.level_rounds == 0
    &&& descent.level is None
    &&& descent.leaf == mixed(0x3333_4444, 0xaa, WORK_IN_LEAF_B as nat)
}

/// The nanoseconds of a time given in seconds and nanoseconds.
pub fn timespec_ns(tv_sec: i64, tv_nsec: i64) -> (ns: u64)
    requires
        (tv_sec as u64) * 1_000_000_000 + (tv_nsec as u64) <= u64::MAX,
    ensures
        ns == (tv_sec as u64) * 1_000_000_000 + (tv_nsec as u64),
{
    (#[verifier::truncate]
    (tv_sec as u64)) * 1_000_000_000 + (#[verifier::truncate]
    (tv_nsec as u64))
}

/// The milliseconds that each phase takes, given the first command line argument.
pub fn phase_ms(argument: Option<u64>) -> (ms: u64)
    ensures
        ms == match argument {
            Some(ms) => ms,
            None => DEFAULT_PHASE_MS,
        },
{
    match argument {
        Some(ms) => ms,
        None => DEFAULT_PHASE_MS,
    }
}

/// `rounds` rounds of leaf work on `start`.
fn mix(start: u64, mask: u64, rounds: u64) -> (x: u64)
    ensures
        x == mixed(start, mask, rounds as nat),
{
    let mut x: u64 = start;
    let mut i: u64 = 0;
    while i < rounds
        invariant
            i <= rounds,
            x == mixed(start, mask, i as nat),
        decreases rounds - i,
    {
        x = core::hint::black_box(x.wrapping_add(i) ^ mask);
        i += 1;
    }
    x
}

#[inline(never)]
pub fn a_leaf() -> (x: u64)
    ensures
        x == mixed(0x1111_2222, 0x55, WORK_IN_LEAF_A as nat),
{
    core::hint::black_box(mix(0x1111_2222, 0x55, WORK_IN_LEAF_A))
}

#[inline(never)]
pub fn a_recurse(depth: usize, max_depth: usize) -> (descent: Descent)
    ensures
        is_descent_a(descent, depth, max_depth),
    decreases max_depth - depth,
{
    let mut buf: [u8; FRAME_SIZE] = [0xAAu8; FRAME_SIZE];
    buf[0] = #[verifier::truncate]
    (depth as u8);
    buf[FRAME_SIZE - 1] = #[verifier::truncate]
    ((depth & 0xff) as u8);
    core::hint::black_box(&buf);

    // Work at every level, so that samples land at all depths.
    let mut x: u64 = 0x1234;
    let mut i: u64 = 0;
    while i < WORK_PER_LEVEL_A
        invariant
            i <= WORK_PER_LEVEL_A,
            x == summed(0x1234, i as nat),
        decreases WORK_PER_LEVEL_A - i,
    {
        x = core::hint::black_box(x.wrapping_add(i));
        i += 1;
    }

    if depth < max_depth {
        let below: Descent = a_recurse(depth + 1, max_depth);
        Descent {
            frames: below.frames + 1,
            level_rounds: below.level_rounds + i as u128,
            level: Some(x),
            leaf: below.leaf,
        }
    } else {
        Descent { frames: 1, level_rounds: i as u128, level: Some(x), leaf: a_leaf() }
    }
}

#[inline(never)]
pub fn a_root(max_depth: usize) -> (descent: Descent)
    ensures
        is_descent_a(descent, 0, max_depth),
{
    a_recurse(0, max_depth)
}

#[inline(never)]
pub fn b_leaf() -> (x: u64)
    ensures
        x == mixed(0x3333_4444, 0xaa, WORK_IN_LEAF_B as nat),
{
    core::hint::black_box(mix(0x3333_4444, 0xaa, WORK_IN_LEAF_B))
}

#[inline(never)]
pub fn b_recurse(depth: usize, max_depth: usize) -> (descent: Descent)
    ensures
        is_descent_b(descent, depth, max_depth),
    decreases max_depth - depth,
{
    let mut buf: [u8; FRAME_SIZE] = [0xBBu8; FRAME_SIZE];
    buf[0] = #[verifier::truncate]
    (depth as u8);
    buf[FRAME_SIZE - 1] = #[verifier::truncate]
    ((depth & 0xff) as u8);
    core::hint::black_box(&buf);

    // No work on the way down, so that no samples land at shallow depths.
    if depth < max_depth {
        let below: Descent = b_recurse(depth + 1, max_depth);
        Descent {
            frames: below.frames + 1,
            level_rounds: below.level_rounds,
            level: below.level,
            leaf: below.leaf,
        }
    } else {
        Descent { frames: 1, level_rounds: 0, level: None, leaf: b_leaf() }
    }
}

#[inline(never)]
pub fn b_root(max_depth: usize) -> (descent: Descent)
    ensures
        is_descent_b(descent, 0, max_depth),
{
    b_recurse(0, max_depth)
}

/// One round of phase A, unless the time of the phase is over.
pub fn phase_a_round(elapsed_ns: u128, duration_ns: u128) -> (round: Option<Descent>)
    ensures
        round is Some == (elapsed_ns < duration_ns),
        round matches Some(descent) ==> is_descent_a(descent, 0, MAX_DEPTH),
{
    if elapsed_ns < duration_ns {
        Some(a_root(MAX_DEPTH))
    } else {
        None
    }
}

/// One round of phase B, unless the time of the phase is over.
pub fn phase_b_round(elapsed_ns: u128, duration_ns: u128) -> (round: Option<Descent>)
    ensures
        round is Some == (elapsed_ns < duration_ns),
        round matches Some(descent) ==> is_descent_b(descent, 0, MAX_DEPTH),
{
    if elapsed_ns < duration_ns {
        Some(b_root(MAX_DEPTH))
    } else {
        None
    }
}

} // verus!

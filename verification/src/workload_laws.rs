//! What the two phases of the workload do, compared with each other and from one depth to
//! the next.
//!
//! Each law speaks of a call's own result: `call_ensures(f, args, result)` is what a caller
//! of `f` with `args` knows of the `result`.

use crate::workload::{
    a_leaf, a_recurse, a_root, b_leaf, b_recurse, b_root, mixed, phase_a_round, phase_b_round,
    phase_ms, summed, timespec_ns, Descent, DEFAULT_PHASE_MS, FRAME_SIZE, MAX_DEPTH,
    WORK_IN_LEAF_A, WORK_IN_LEAF_B, WORK_PER_LEVEL_A,
};
use vstd::prelude::*;

verus! {

/// No leaf work leaves `x` alone, and each round of leaf work after `rounds` rounds adds
/// `rounds` to what they made of `x`, modulo 2^64, and flips the bits of `mask`.
pub proof fn each_round_of_leaf_work_adds_and_flips(x: u64, mask: u64, rounds: nat)
    ensures
        mixed(x, mask, 0) == x,
        mixed(x, mask, rounds + 1) == (((mixed(x, mask, rounds) + rounds)
            % 0x1_0000_0000_0000_0000) as u64) ^ mask,
{
}

/// No level work leaves `x` alone, and each round of level work after `rounds` rounds adds
/// `rounds` to what they made of `x`, modulo 2^64.
pub proof fn each_round_of_level_work_adds(x: u64, rounds: nat)
    ensures
        summed(x, 0) == x,
        summed(x, rounds + 1) == (summed(x, rounds) + rounds) % 0x1_0000_0000_0000_0000,
{
}

/// However deep a recursion of phase B goes, and wherever it starts, it ends in the one
/// leaf: all recursions have the same leaf result, which is what `b_leaf` gives, and that is
/// what all the rounds of leaf work give.
pub proof fn every_recursion_of_phase_b_ends_in_its_leaf(
    leaf: u64,
    depth1: usize,
    max_depth1: usize,
    descent1: Descent,
    depth2: usize,
    max_depth2: usize,
    descent2: Descent,
)
    requires
        call_ensures(b_leaf, (), leaf),
        call_ensures(b_recurse, (depth1, max_depth1), descent1),
        call_ensures(b_recurse, (depth2, max_depth2), descent2),
    ensures
        descent1.leaf == descent2.leaf,
        descent1.leaf == leaf,
        leaf == mixed(0x3333_4444, 0xaa, WORK_IN_LEAF_B as nat),
{
}

/// However deep a recursion of phase A goes, and wherever it starts, it ends in the one
/// leaf: all recursions have the same leaf result, which is what `a_leaf` gives, and that is
/// what all the rounds of leaf work give.
pub proof fn every_recursion_of_phase_a_ends_in_its_leaf(
    leaf: u64,
    depth1: usize,
    max_depth1: usize,
    descent1: Descent,
    depth2: usize,
    max_depth2: usize,
    descent2: Descent,
)
    requires
        call_ensures(a_leaf, (), leaf),
        call_ensures(a_recurse, (depth1, max_depth1), descent1),
        call_ensures(a_recurse, (depth2, max_depth2), descent2),
    ensures
        descent1.leaf == descent2.leaf,
        descent1.leaf == leaf,
        leaf == mixed(0x1111_2222, 0x55, WORK_IN_LEAF_A as nat),
{
}

/// Phase A works at every depth: a recursion that starts one level higher has one frame
/// more on the stack and does one level's rounds of work more, with the same result at
/// every level. One that starts at the deepest level, or below it, has the one frame and
/// does the one level's rounds.
pub proof fn phase_a_works_at_every_level(
    depth: usize,
    max_depth: usize,
    descent: Descent,
    below: Descent,
)
    requires
        call_ensures(a_recurse, (depth, max_depth), descent),
        depth < max_depth ==> call_ensures(a_recurse, ((depth + 1) as usize, max_depth), below),
    ensures
        descent.level == Some(summed(0x1234, WORK_PER_LEVEL_A as nat)),
        depth < max_depth ==> {
            &&& descent.frames == below.frames + 1
            &&& descent.level_rounds == below.level_rounds + WORK_PER_LEVEL_A
            &&& descent.level == below.level
            &&& descent.leaf == below.leaf
        },
        depth >= max_depth ==> {
            &&& descent.frames == 1
            &&& descent.level_rounds == WORK_PER_LEVEL_A
        },
{
    if depth < max_depth {
        let frames = below.frames as int;
        let rounds = WORK_PER_LEVEL_A as int;
        assert((frames + 1) * rounds == frames * rounds + rounds) by (nonlinear_arith);
    }
}

/// Phase B works in its leaf only: a recursion that starts one level higher has one frame
/// more on the stack, and no level does any work. One that starts at the deepest level, or
/// below it, has the one frame.
pub proof fn phase_b_works_at_no_level(
    depth: usize,
    max_depth: usize,
    descent: Descent,
    below: Descent,
)
    requires
        call_ensures(b_recurse, (depth, max_depth), descent),
        depth < max_depth ==> call_ensures(b_recurse, ((depth + 1) as usize, max_depth), below),
    ensures
        descent.level_rounds == 0,
        descent.level is None,
        depth < max_depth ==> descent.frames == below.frames + 1 && descent.leaf == below.leaf,
        depth >= max_depth ==> descent.frames == 1,
{
}

/// Both phases recurse to the same depth, and have one frame on the stack for each level
/// from the one that they start at to the deepest.
pub proof fn both_phases_recurse_to_the_same_depth(
    depth: usize,
    max_depth: usize,
    a: Descent,
    b: Descent,
)
    requires
        call_ensures(a_recurse, (depth, max_depth), a),
        call_ensures(b_recurse, (depth, max_depth), b),
        depth <= max_depth,
    ensures
        a.frames == b.frames,
        a.frames == max_depth - depth + 1,
        a.level_rounds == a.frames * WORK_PER_LEVEL_A,
{
}

/// The root of a phase recurses from the top level, whatever the deepest one is.
pub proof fn roots_recurse_from_the_top(
    max_depth: usize,
    a: Descent,
    a_from_root: Descent,
    b: Descent,
    b_from_root: Descent,
)
    requires
        call_ensures(a_recurse, (0, max_depth), a),
        call_ensures(a_root, (max_depth,), a_from_root),
        call_ensures(b_recurse, (0, max_depth), b),
        call_ensures(b_root, (max_depth,), b_from_root),
    ensures
        a_from_root == a,
        b_from_root == b,
{
}

/// A round of phase A is made exactly if the time of the phase is not over, and is the
/// whole recursion of the phase, whose frames together are larger than a stack capture of
/// 32000 bytes.
pub proof fn round_of_phase_a_outgrows_a_stack_capture(
    elapsed_ns: u128,
    duration_ns: u128,
    round: Option<Descent>,
    descent: Descent,
)
    requires
        call_ensures(phase_a_round, (elapsed_ns, duration_ns), round),
        call_ensures(a_root, (MAX_DEPTH,), descent),
    ensures
        round is Some <==> elapsed_ns < duration_ns,
        round is Some ==> round->0 == descent,
        round is Some ==> round->0.frames * FRAME_SIZE > 32_000,
{
}

/// A round of phase B is made exactly if the time of the phase is not over, and is the
/// whole recursion of the phase, whose frames together are larger than a stack capture of
/// 32000 bytes.
pub proof fn round_of_phase_b_outgrows_a_stack_capture(
    elapsed_ns: u128,
    duration_ns: u128,
    round: Option<Descent>,
    descent: Descent,
)
    requires
        call_ensures(phase_b_round, (elapsed_ns, duration_ns), round),
        call_ensures(b_root, (MAX_DEPTH,), descent),
    ensures
        round is Some <==> elapsed_ns < duration_ns,
        round is Some ==> round->0 == descent,
        round is Some ==> round->0.frames * FRAME_SIZE > 32_000,
{
}

/// One second more is a thousand million nanoseconds more, and one nanosecond more is one
/// more, counted from zero.
pub proof fn times_add_up(
    tv_sec: i64,
    tv_nsec: i64,
    ns: u64,
    more_sec: i64,
    more_nsec: i64,
    later_ns: u64,
)
    requires
        call_ensures(timespec_ns, (tv_sec, tv_nsec), ns),
        call_ensures(
            timespec_ns,
            ((tv_sec + more_sec) as i64, (tv_nsec + more_nsec) as i64),
            later_ns,
        ),
        0 <= tv_sec,
        0 <= tv_nsec,
        0 <= more_sec,
        0 <= more_nsec,
        tv_sec + more_sec <= i64::MAX,
        tv_nsec + more_nsec <= i64::MAX,
    ensures
        later_ns - ns == more_sec * 1_000_000_000 + more_nsec,
        tv_sec == 0 && tv_nsec == 0 ==> ns == 0,
{
}

/// A time that was given for the phases is taken as it is, and only without one they take
/// the default.
pub proof fn given_phase_time_is_taken(argument: Option<u64>, ms: u64)
    requires
        call_ensures(phase_ms, (argument,), ms),
    ensures
        argument is Some ==> Some(ms) == argument,
        argument is None ==> ms == DEFAULT_PHASE_MS,
{
}

} // verus!

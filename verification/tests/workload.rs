use samply_process::workload::{
    a_leaf, a_recurse, a_root, b_leaf, b_recurse, b_root, phase_a_round, phase_b_round, phase_ms,
    timespec_ns, FRAME_SIZE, MAX_DEPTH,
};

fn mixed(start: u64, mask: u64, rounds: u64) -> u64 {
    (0..rounds).fold(start, |x, i| x.wrapping_add(i) ^ mask)
}

#[test]
fn leaves_do_their_rounds_of_work() {
    assert_eq!(a_leaf(), mixed(0x1111_2222, 0x55, 1_000_000));
    assert_eq!(b_leaf(), mixed(0x3333_4444, 0xaa, 1_000_000));
    assert_ne!(a_leaf(), 0x1111_2222);
    assert_ne!(b_leaf(), 0x3333_4444);
}

#[test]
fn both_phases_recurse_to_the_same_depth() {
    for depth in 0..4 {
        assert_eq!(a_root(depth).frames, depth as u128 + 1);
        assert_eq!(b_root(depth).frames, depth as u128 + 1);
    }
    assert_eq!(a_root(2).leaf, a_leaf());
    assert_eq!(b_root(2).leaf, b_leaf());
    assert_eq!(a_recurse(3, 5).frames, 3);
    assert_eq!(b_recurse(3, 5).frames, 3);
    assert_eq!(a_recurse(5, 3).frames, 1);
    assert_eq!(b_recurse(5, 3).frames, 1);
}

#[test]
fn the_recursion_is_deeper_than_one_stack_copy() {
    let frames = a_root(MAX_DEPTH).frames;
    assert_eq!(frames, 36);
    assert!(MAX_DEPTH * FRAME_SIZE > 32000);
    assert_eq!(MAX_DEPTH * FRAME_SIZE, 71680);
}

#[test]
fn phases_run_until_their_time_is_over() {
    assert_eq!(phase_a_round(0, 1).map(|round| round.frames), Some(36));
    assert_eq!(phase_b_round(0, 1).map(|round| round.frames), Some(36));
    assert!(phase_a_round(1, 1).is_none());
    assert!(phase_b_round(1, 1).is_none());
    assert!(phase_a_round(0, 0).is_none());
    assert!(phase_b_round(2, 1).is_none());
}

#[test]
fn phases_take_three_and_a_half_seconds_by_default() {
    assert_eq!(phase_ms(None), 3500);
    assert_eq!(phase_ms(Some(20)), 20);
}

#[test]
fn times_are_counted_in_nanoseconds() {
    assert_eq!(timespec_ns(0, 0), 0);
    assert_eq!(timespec_ns(3, 250), 3_000_000_250);
}

#[test]
fn phase_a_works_at_every_depth_and_phase_b_in_its_leaf_only() {
    let a = a_root(3);
    assert_eq!(a.level_rounds, 4 * 40_000);
    assert_eq!(a.level, Some((0..40_000).fold(0x1234, |x: u64, i| x.wrapping_add(i))));
    assert_eq!(a_recurse(5, 3).level_rounds, 40_000);
    let b = b_root(3);
    assert_eq!(b.level_rounds, 0);
    assert_eq!(b.level, None);
    assert_eq!(phase_a_round(0, 1).unwrap().level_rounds, 36 * 40_000);
    assert_eq!(phase_b_round(0, 1).unwrap().level_rounds, 0);
}

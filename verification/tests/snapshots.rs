use samply_process::snapshot::StackSnapshot;
use samply_process::thread_snapshots::ThreadStackSnapshots;

const WINDOW_SP: u64 = 0x7fff_0000_0000;
const WINDOW_WORDS: usize = 4096;

fn window() -> StackSnapshot {
    StackSnapshot {
        sp: WINDOW_SP,
        stable_start: WINDOW_SP,
        words: vec![0; WINDOW_WORDS],
    }
}

/// An earlier snapshot that matches `window()` on its last `overlap_words` words and
/// extends one word past it.
fn earlier(overlap_words: usize) -> StackSnapshot {
    let stable_start = window().end() - overlap_words as u64 * 8;
    let sp = stable_start - 8;
    StackSnapshot {
        sp,
        stable_start,
        words: vec![0; overlap_words + 2],
    }
}

#[test]
fn only_words_from_stable_start_must_match() {
    let window = window();

    let mut leaf_differs = earlier(1);
    leaf_differs.words[0] = 0xdead;
    assert!(leaf_differs.continues(&window));

    let mut overlap_differs = earlier(1);
    overlap_differs.words[1] = 0xdead;
    assert!(!overlap_differs.continues(&window));
}

#[test]
fn snapshots_are_retired_once_their_stable_frames_returned() {
    let mut snapshots = ThreadStackSnapshots::default();
    snapshots.push(earlier(16));
    let stable_start = snapshots.ring()[0].stable_start;

    snapshots.retire_returned(stable_start);
    assert_eq!(snapshots.ring().len(), 1);

    snapshots.retire_returned(stable_start + 8);
    assert!(snapshots.ring().is_empty());
}

#[test]
fn covered_snapshots_are_dropped() {
    let mut snapshots = ThreadStackSnapshots::default();
    snapshots.push(earlier(16));
    // Same range, captured later: the older copy is redundant.
    snapshots.push(earlier(16));
    assert_eq!(snapshots.ring().len(), 1);
    // Reaches less far up the stack: both are kept.
    snapshots.push(earlier(8));
    assert_eq!(snapshots.ring().len(), 2);
}

/// A window of `words` at `sp` whose stable part starts at `stable_start`.
fn snapshot(sp: u64, stable_start: u64, words: &[u64]) -> StackSnapshot {
    StackSnapshot {
        sp,
        stable_start,
        words: words.to_vec(),
    }
}

fn starts(snapshots: &ThreadStackSnapshots) -> Vec<u64> {
    snapshots.ring().iter().map(|s| s.stable_start).collect()
}

#[test]
fn end_is_past_the_last_word() {
    assert_eq!(snapshot(0x1000, 0x1000, &[1, 2, 3]).end(), 0x1018);
    assert_eq!(snapshot(0x1000, 0x1000, &[]).end(), 0x1000);
    assert_eq!(snapshot(u64::MAX - 8, 0, &[7]).end(), u64::MAX);
}

#[test]
fn get_finds_the_word_around_an_address() {
    let s = snapshot(0x1000, 0x1000, &[1, 2, 3]);
    assert_eq!(s.get(0xfff), None);
    assert_eq!(s.get(0x1000), Some(1));
    assert_eq!(s.get(0x1007), Some(1));
    assert_eq!(s.get(0x1008), Some(2));
    assert_eq!(s.get(0x1017), Some(3));
    assert_eq!(s.get(0x1018), None);
    assert_eq!(s.get(u64::MAX), None);
    // The end of this window is no address, but its words are still there.
    assert_eq!(snapshot(u64::MAX - 7, 0, &[4, 5]).get(u64::MAX), Some(4));
}

#[test]
fn continuations_must_straddle_the_end_of_the_window() {
    // The window covers 0x1000..0x1020.
    let window = snapshot(0x1000, 0x1000, &[1, 2, 3, 4]);
    assert!(snapshot(0x1008, 0x1010, &[0, 3, 4, 5]).continues(&window));
    // Starts where the window starts.
    assert!(!snapshot(0x1000, 0x1008, &[0, 2, 3, 4, 5]).continues(&window));
    // Starts at the window's end.
    assert!(!snapshot(0x1020, 0x1028, &[5, 6]).continues(&window));
    // Ends where the window ends.
    assert!(!snapshot(0x1008, 0x1010, &[0, 3, 4]).continues(&window));
    // Has no leaf frame.
    assert!(!snapshot(0x1010, 0x1010, &[3, 4, 5]).continues(&window));
    // Is stable only past the window.
    assert!(!snapshot(0x1018, 0x1020, &[4, 5]).continues(&window));
    // Lies off the window's word grid, or has its stable start off its own.
    assert!(!snapshot(0x100c, 0x1014, &[0, 3, 4]).continues(&window));
    assert!(!snapshot(0x1008, 0x100c, &[0, 3, 4, 5]).continues(&window));
    // Differs in the last word that both hold.
    assert!(!snapshot(0x1008, 0x1010, &[0, 3, 9, 5]).continues(&window));
}

#[test]
fn ends_past_the_address_space_are_not_looked_at_needlessly() {
    let window = snapshot(0x1000, 0x1000, &[1, 2]);
    let endless = snapshot(u64::MAX - 7, u64::MAX, &[1, 2]);
    assert!(!endless.continues(&window));
    assert!(!window.continues(&endless));
    let mut snapshots = ThreadStackSnapshots::default();
    snapshots.push(endless);
    assert_eq!(starts(&snapshots), vec![u64::MAX]);
}

#[test]
fn only_covered_windows_are_dropped_and_the_order_is_kept() {
    let mut snapshots = ThreadStackSnapshots::default();
    snapshots.push(snapshot(0x1000, 0x1008, &[0; 16]));
    snapshots.push(snapshot(0x1000, 0x1010, &[0; 8]));
    snapshots.push(snapshot(0x1000, 0x1018, &[0; 4]));
    assert_eq!(starts(&snapshots), vec![0x1018, 0x1010, 0x1008]);
    // Covers the two newest, not the oldest, which reaches further up.
    snapshots.push(snapshot(0x1000, 0x100c, &[9; 8]));
    assert_eq!(starts(&snapshots), vec![0x100c, 0x1008]);
    assert_eq!(snapshots.ring()[0].words, vec![9; 8]);
    // Every stable address that was held still is.
    assert!(snapshots.ring().iter().any(|s| s.stable_start <= 0x1018 && s.get(0x1018).is_some()));
    assert!(snapshots.ring().iter().any(|s| s.stable_start <= 0x1078 && s.get(0x1078).is_some()));
}

#[test]
fn retiring_twice_is_retiring_at_the_higher_sp() {
    let build = || {
        let mut snapshots = ThreadStackSnapshots::default();
        snapshots.push(snapshot(0x1000, 0x1018, &[0; 16]));
        snapshots.push(snapshot(0x1000, 0x1010, &[0; 8]));
        snapshots.push(snapshot(0x1000, 0x1008, &[0; 4]));
        snapshots
    };
    let mut once = build();
    once.retire_returned(0x1010);
    assert_eq!(starts(&once), vec![0x1010, 0x1018]);
    let mut twice = build();
    twice.retire_returned(0x1010);
    twice.retire_returned(0x1008);
    assert_eq!(starts(&twice), starts(&once));
}

#[test]
fn windows_extend_further_than_every_newer_one() {
    let ends = |snapshots: &ThreadStackSnapshots| -> Vec<u64> {
        snapshots.ring().iter().map(|s| s.end()).collect()
    };
    let mut snapshots = ThreadStackSnapshots::default();
    snapshots.push(snapshot(0x1000, 0x1020, &[0; 16]));
    snapshots.retire_returned(0x1000);
    snapshots.push(snapshot(0x1000, 0x1010, &[0; 8]));
    assert_eq!(ends(&snapshots), vec![0x1040, 0x1080]);
    // The stable part of the newest window lies in the leaf part of this one.
    snapshots.retire_returned(0x1008);
    snapshots.push(snapshot(0x1008, 0x1018, &[0; 12]));
    assert_eq!(ends(&snapshots), vec![0x1068, 0x1080]);
}

#[test]
fn a_leaf_that_returned_to_its_caller_leaves_no_window() {
    let mut snapshots = ThreadStackSnapshots::default();
    snapshots.push(snapshot(0x1000, 0x1008, &[1, 2, 3]));
    snapshots.retire_returned(0x1008);
    assert_eq!(starts(&snapshots), vec![0x1008]);
    snapshots.push(snapshot(0x1008, 0x1010, &[4, 5, 6]));
    assert_eq!(starts(&snapshots), vec![0x1010]);
    assert_eq!(snapshots.ring()[0].get(0x1008), Some(4));
}

#[test]
fn windows_stable_below_the_new_words_are_kept() {
    let mut snapshots = ThreadStackSnapshots::default();
    snapshots.push(snapshot(0x1000, 0x1008, &[1, 2, 3]));
    // Not retired first: the new words start above the stable part.
    snapshots.push(snapshot(0x1010, 0x1018, &[4, 5, 6]));
    assert_eq!(starts(&snapshots), vec![0x1018, 0x1008]);
}

/// Two windows that continue 0x1000..0x1020 in two hops, and a stale one in between that
/// would have been the newest.
fn chained() -> ThreadStackSnapshots {
    let mut snapshots = ThreadStackSnapshots::default();
    snapshots.push(snapshot(0x1028, 0x1030, &[0, 7, 8, 9]));
    snapshots.push(snapshot(0x1008, 0x1010, &[0, 3, 4, 5, 6, 7]));
    snapshots.push(snapshot(0x1010, 0x1018, &[0, 99, 98]));
    snapshots
}

#[test]
fn reads_follow_matching_windows_only() {
    let snapshots = chained();
    assert_eq!(starts(&snapshots), vec![0x1018, 0x1010, 0x1030]);
    let window = snapshot(0x1000, 0x1000, &[1, 2, 3, 4]);
    let mut chain = Vec::new();
    // Inside the window: no hop.
    assert_eq!(snapshots.read_past(&window, &mut chain, 0x1018), Some(4));
    assert_eq!(chain, Vec::<usize>::new());
    // One hop, past the stale window.
    assert_eq!(snapshots.read_past(&window, &mut chain, 0x1020), Some(5));
    assert_eq!(chain, vec![1]);
    // No further hop is needed.
    assert_eq!(snapshots.read_past(&window, &mut chain, 0x1030), Some(7));
    assert_eq!(chain, vec![1]);
    // Another hop.
    assert_eq!(snapshots.read_past(&window, &mut chain, 0x1040), Some(9));
    assert_eq!(chain, vec![1, 2]);
    // Past everything.
    assert_eq!(snapshots.read_past(&window, &mut chain, 0x1048), None);
    assert_eq!(chain, vec![1, 2]);
    // Below the window at hand.
    assert_eq!(snapshots.read_past(&window, &mut chain, 0x1020), None);
    assert_eq!(chain, vec![1, 2]);
}

#[test]
fn reading_again_or_afresh_gives_the_same() {
    let snapshots = chained();
    let window = snapshot(0x1000, 0x1000, &[1, 2, 3, 4]);
    let mut shared = Vec::new();
    for addr in (0x1000..0x1060).step_by(8) {
        let word = snapshots.read_past(&window, &mut shared, addr);
        let left = shared.clone();
        assert_eq!(snapshots.read_past(&window, &mut shared, addr), word);
        assert_eq!(shared, left);
        let mut fresh = Vec::new();
        assert_eq!(snapshots.read_past(&window, &mut fresh, addr), word);
        assert_eq!(fresh, left);
        assert_eq!(word.is_some(), addr < 0x1048);
    }
}

#[test]
fn reads_below_the_window_fail_without_a_hop() {
    let snapshots = chained();
    let window = snapshot(0x1000, 0x1000, &[1, 2, 3, 4]);
    let mut chain = Vec::new();
    assert_eq!(snapshots.read_past(&window, &mut chain, 0xff8), None);
    assert_eq!(chain, Vec::<usize>::new());
}

#[test]
fn followed_windows_are_skipped() {
    let snapshots = chained();
    let window = snapshot(0x1000, 0x1000, &[1, 2, 3, 4]);
    // Index 1 counts as followed, and the tip is the stale window, which nothing continues.
    let mut chain = vec![1, 0];
    assert_eq!(snapshots.read_past(&window, &mut chain, 0x1040), None);
    assert_eq!(chain, vec![1, 0]);
}

#[test]
fn retired_windows_are_not_read() {
    let mut snapshots = chained();
    let window = snapshot(0x1000, 0x1000, &[1, 2, 3, 4]);
    snapshots.retire_returned(0x1018);
    assert_eq!(starts(&snapshots), vec![0x1018, 0x1030]);
    assert_eq!(snapshots.read_past(&window, &mut Vec::new(), 0x1020), None);
}

#[test]
fn the_newest_continuation_is_followed() {
    let mut snapshots = ThreadStackSnapshots::default();
    snapshots.push(snapshot(0x1008, 0x1010, &[0, 3, 4, 5, 7]));
    snapshots.push(snapshot(0x1010, 0x1018, &[0, 4, 6]));
    assert_eq!(starts(&snapshots), vec![0x1018, 0x1010]);
    let window = snapshot(0x1000, 0x1000, &[1, 2, 3, 4]);
    let mut chain = Vec::new();
    assert_eq!(snapshots.read_past(&window, &mut chain, 0x1020), Some(6));
    assert_eq!(chain, vec![0]);
}

#[test]
fn nothing_below_the_latest_sample_is_trusted() {
    let mut snapshots = chained();
    snapshots.retire_returned(0x1018);
    snapshots.push(snapshot(0x1018, 0x1020, &[0; 4]));
    assert_eq!(starts(&snapshots), vec![0x1020, 0x1030]);
    assert!(snapshots.ring().iter().all(|s| s.stable_start >= 0x1018));
}

#[test]
fn the_count_is_bounded_by_the_stack_depth() {
    let mut snapshots = ThreadStackSnapshots::default();
    // Stable starts rise while ends fall, over and over, at one stack pointer.
    for stable in 0..16 {
        for len in (1..=16).rev() {
            snapshots.retire_returned(0x1000);
            snapshots.push(snapshot(0x1000, 0x1000 + stable * 8, &vec![0; len]));
            let ends: Vec<u64> = snapshots.ring().iter().map(|s| s.end()).collect();
            assert!(ends.windows(2).all(|pair| pair[0] < pair[1]));
            assert!(snapshots.ring().len() <= (0x1080 - 0x1000) / 8 + 1);
        }
        assert_eq!(snapshots.ring().len(), 16);
    }
}

#[test]
fn chains_do_not_come_back_to_a_window() {
    let snapshots = chained();
    let window = snapshot(0x1000, 0x1000, &[1, 2, 3, 4]);
    let mut chain = Vec::new();
    assert_eq!(snapshots.read_past(&window, &mut chain, u64::MAX), None);
    assert_eq!(chain, vec![1, 2]);
    let mut sps = vec![window.sp];
    sps.extend(chain.iter().map(|&i| snapshots.ring()[i].sp));
    assert!(sps.windows(2).all(|pair| pair[0] < pair[1]));
}

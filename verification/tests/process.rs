use std::path::PathBuf;

use fxprof_processed_profile::debugid::DebugId;
use fxprof_processed_profile::{
    LibraryHandle, LibraryInfo, ProcessHandle, Profile, ReferenceTimestamp, SamplingInterval,
    ThreadHandle, Timestamp,
};
use samply_process::mappings::{LibMappingInfo, LibMappingOp, LibMappingOpQueue};
use samply_process::process::{
    name_injected_jit_marker, MarkerSpan, Process, ProcessRecyclingData,
};
use samply_process::snapshot::StackSnapshot;
use samply_process::thread_snapshots::ThreadStackSnapshots;
use serde_json::Value;

type TestProcess = Process<u8, &'static str, u32, char>;

fn at(ms: u64) -> Timestamp {
    Timestamp::from_nanos_since_reference(ms * 1_000_000)
}

fn profile() -> Profile {
    Profile::new(
        "test",
        ReferenceTimestamp::from_millis_since_unix_epoch(0.0),
        SamplingInterval::from_millis(1),
    )
}

fn add_process(profile: &mut Profile, pid: u32) -> (ProcessHandle, ThreadHandle) {
    let process = profile.add_process("before", pid, at(0));
    let thread = profile.add_thread(process, pid, at(0), true);
    (process, thread)
}

fn add_lib(profile: &mut Profile, name: &str) -> LibraryHandle {
    profile.add_lib(LibraryInfo {
        name: name.to_string(),
        debug_name: name.to_string(),
        path: name.to_string(),
        debug_path: name.to_string(),
        debug_id: DebugId::nil(),
        code_id: None,
        arch: None,
        symbol_table: None,
    })
}

fn json(profile: &Profile) -> Value {
    serde_json::to_value(profile).unwrap()
}

/// The mappings of a queue: time, start, end, relative address, library and details.
fn mappings(queue: &LibMappingOpQueue<char>) -> Vec<(u64, u64, u64, u32, LibraryHandle, char)> {
    queue
        .ops()
        .iter()
        .map(|(timestamp, op)| {
            let LibMappingOp::Add(add) = op;
            (
                *timestamp,
                add.start_avma,
                add.end_avma,
                add.relative_address_at_start,
                add.info.lib_handle,
                add.info.details,
            )
        })
        .collect()
}

#[test]
fn a_new_process_is_empty() {
    let mut profile = profile();
    let (handle, _) = add_process(&mut profile, 7);
    let process = TestProcess::new(7, handle, Some("ls".to_string()), Some("recycler"));
    assert_eq!(process.profile_process, handle);
    assert_eq!(process.pid, 7);
    assert_eq!(process.name.as_deref(), Some("ls"));
    assert_eq!(process.jit_function_recycler, Some("recycler"));
    assert_eq!(process.unwinder, 0);
    assert!(process.lib_mapping_ops.is_empty());
    assert!(process.jit_app_cache_mapping_ops.is_empty());
    assert!(process.unresolved_samples.is_empty());
    assert!(process.marker_file_paths.is_empty());
    assert!(process.stack_read_cache.is_empty());
    assert!(process.extra_event_instances.is_empty());
    assert!(process.mem_counter.is_none());
    assert_eq!(process.prev_mm_filepages_size, 0);
    assert_eq!(process.prev_mm_anonpages_size, 0);
    assert_eq!(process.prev_mm_swapents_size, 0);
    assert_eq!(process.prev_mm_shmempages_size, 0);
}

#[test]
fn windows_of_other_threads_are_not_read() {
    let mut profile = profile();
    let (handle, _) = add_process(&mut profile, 7);
    let mut process = TestProcess::new(7, handle, None, None);
    let mut windows = ThreadStackSnapshots::default();
    windows.push(StackSnapshot {
        sp: 0x1008,
        stable_start: 0x1010,
        words: vec![0, 3, 4],
    });
    process.stack_read_cache.insert(1, windows);
    process.stack_read_cache.insert(2, ThreadStackSnapshots::default());
    let window = StackSnapshot {
        sp: 0x1000,
        stable_start: 0x1000,
        words: vec![1, 2, 3],
    };
    let read = |tid: i32| {
        process.stack_read_cache[&tid].read_past(&window, &mut Vec::new(), 0x1018)
    };
    assert_eq!(read(1), Some(4));
    assert_eq!(read(2), None);
}

#[test]
fn a_child_takes_over_unwinder_and_mappings() {
    let mut profile = profile();
    let (parent_handle, _) = add_process(&mut profile, 7);
    let (child_handle, _) = add_process(&mut profile, 8);
    let lib = add_lib(&mut profile, "libc");
    let mut parent = TestProcess::new(7, parent_handle, None, None);
    parent.unwinder = 42;
    let info = LibMappingInfo {
        lib_handle: lib,
        details: 'c',
    };
    parent.add_regular_lib_mapping(5, 0x1000, 0x2000, 0x10, info);

    let mut child = TestProcess::new(8, child_handle, Some("child".to_string()), None);
    child.adopt_fork_data_from_parent(parent.clone_fork_data());
    assert_eq!(child.unwinder, 42);
    assert_eq!(
        mappings(&child.lib_mapping_ops),
        vec![(5, 0x1000, 0x2000, 0x10, lib, 'c')]
    );
    assert_eq!(child.profile_process, child_handle);
    assert_eq!(child.name.as_deref(), Some("child"));
    assert_eq!(mappings(&parent.lib_mapping_ops).len(), 1);
}

#[test]
fn renaming_back_undoes_a_renaming() {
    let mut profile = profile();
    let (first, _) = add_process(&mut profile, 7);
    let (second, _) = add_process(&mut profile, 8);
    let mut process = TestProcess::new(7, first, Some("one".to_string()), Some("jit one"));

    let (old, old_name) =
        process.rename_with_recycling("two".to_string(), second, "jit two", "main", "threads");
    assert_eq!(process.profile_process, second);
    assert_eq!(process.name.as_deref(), Some("two"));
    assert_eq!(process.jit_function_recycler, Some("jit two"));
    assert_eq!(old_name.as_deref(), Some("one"));
    let ProcessRecyclingData {
        process_handle,
        main_thread_recycling_data,
        thread_recycler,
        jit_function_recycler,
    } = old;
    assert_eq!(process_handle, first);
    assert_eq!(main_thread_recycling_data, "main");
    assert_eq!(thread_recycler, "threads");
    assert_eq!(jit_function_recycler, "jit one");

    process.rename_with_recycling(old_name.unwrap(), process_handle, jit_function_recycler, (), ());
    assert_eq!(process.profile_process, first);
    assert_eq!(process.name.as_deref(), Some("one"));
    assert_eq!(process.jit_function_recycler, Some("jit one"));
}

#[test]
fn renaming_without_recycling_names_the_process_in_the_profile() {
    let mut profile = profile();
    let (handle, _) = add_process(&mut profile, 7);
    let mut process = TestProcess::new(7, handle, None, None);
    process.rename_without_recycling("after".to_string(), &mut profile);
    assert_eq!(process.name.as_deref(), Some("after"));
    assert_eq!(json(&profile)["threads"][0]["processName"], "after");
    assert_eq!(json(&profile)["threads"][0]["processShutdownTime"], Value::Null);
}

#[test]
fn a_dead_process_has_an_end_time() {
    let mut profile = profile();
    let (handle, _) = add_process(&mut profile, 7);
    let process = TestProcess::new(7, handle, None, None);
    process.notify_dead(at(12), &mut profile);
    assert_eq!(json(&profile)["threads"][0]["processShutdownTime"], 12.0);
    assert_eq!(json(&profile)["threads"][0]["processName"], "before");
}

#[test]
fn the_memory_counter_is_made_once() {
    let mut profile = profile();
    let (handle, _) = add_process(&mut profile, 7);
    let mut process = TestProcess::new(7, handle, None, None);
    let counter = process.get_or_make_mem_counter(&mut profile);
    assert_eq!(process.mem_counter, Some(counter));
    assert_eq!(process.get_or_make_mem_counter(&mut profile), counter);
    let counters = json(&profile)["counters"].clone();
    assert_eq!(counters.as_array().unwrap().len(), 1);
    assert_eq!(counters[0]["name"], "malloc");
    assert_eq!(counters[0]["category"], "Memory");
    assert_eq!(counters[0]["description"], "Amount of allocated memory");
    assert_eq!(counters[0]["pid"], "7");

    let (other_handle, _) = add_process(&mut profile, 8);
    let mut other = TestProcess::new(8, other_handle, None, None);
    assert_ne!(other.get_or_make_mem_counter(&mut profile), counter);
    assert_eq!(json(&profile)["counters"][1]["pid"], "8");
}

#[test]
fn jit_markers_show_the_symbol_name() {
    let mut profile = profile();
    assert!(name_injected_jit_marker(Some("f"), false, &mut profile).is_none());
    let f = name_injected_jit_marker(Some("f"), true, &mut profile).unwrap();
    let unknown = name_injected_jit_marker(None, true, &mut profile).unwrap();
    assert_eq!(profile.get_string(f), "f");
    assert_eq!(profile.get_string(unknown), "<unknown>");
    assert_ne!(f, unknown);
    // A string has one handle.
    assert_eq!(name_injected_jit_marker(Some("f"), true, &mut profile), Some(f));
}

#[test]
fn named_jit_functions_are_recycled_if_the_process_recycles() {
    let mut profile = profile();
    let (handle, _) = add_process(&mut profile, 7);
    let recycling = TestProcess::new(7, handle, None, Some("jit"));
    let query = recycling.query_injected_jit_lib(Some("f"), 0x1000, 0x1234);
    assert_eq!(query.recycle, Some(("f", 0x234)));
    assert_eq!(query.classify, "f");
    // Code sizes are 32 bits wide.
    let query = recycling.query_injected_jit_lib(Some("f"), 0x1000, 0x5_0000_1001);
    assert_eq!(query.recycle, Some(("f", 1)));
    let query = recycling.query_injected_jit_lib(None, 0x1000, 0x1234);
    assert_eq!(query.recycle, None);
    assert_eq!(query.classify, "");

    let keeping = TestProcess::new(7, handle, None, None);
    let query = keeping.query_injected_jit_lib(Some("f"), 0x1234, 0x1000);
    assert_eq!(query.recycle, None);
    assert_eq!(query.classify, "f");
}

#[test]
fn injected_jit_functions_are_mapped_where_they_were_recycled_to() {
    let mut profile = profile();
    let (handle, _) = add_process(&mut profile, 7);
    let lib = add_lib(&mut profile, "jit");
    let earlier_lib = add_lib(&mut profile, "earlier jit");
    let mut process = TestProcess::new(7, handle, None, Some("jit"));
    process.add_lib_mapping_for_injected_jit_lib(1, 0x1000, 0x1100, 8, lib, None, 'a');
    let recycled = Some((earlier_lib, 16));
    process.add_lib_mapping_for_injected_jit_lib(2, 0x2000, 0x2100, 8, lib, recycled, 'b');
    assert_eq!(
        mappings(&process.lib_mapping_ops),
        vec![
            (1, 0x1000, 0x1100, 8, lib, 'a'),
            (2, 0x2000, 0x2100, 16, earlier_lib, 'b'),
        ]
    );
    assert!(process.jit_app_cache_mapping_ops.is_empty());
}

#[test]
fn app_cache_functions_are_queued_apart() {
    let mut profile = profile();
    let (handle, _) = add_process(&mut profile, 7);
    let lib = add_lib(&mut profile, "app cache");
    let mut process = TestProcess::new(7, handle, None, None);
    let info = LibMappingInfo::new_jit_function(lib, 'j');
    process.add_jit_function(3, 0x40, 0x7000, 0x20, info);
    assert_eq!(
        mappings(&process.jit_app_cache_mapping_ops),
        vec![(3, 0x7000, 0x7020, 0x40, lib, 'j')]
    );
    assert!(process.lib_mapping_ops.is_empty());
}

#[test]
fn perf_maps_are_for_unresolved_samples() {
    let mut profile = profile();
    let (handle, _) = add_process(&mut profile, 7);
    let mut process = TestProcess::new(7, handle, None, None);
    assert_eq!(process.perf_map_pid(), None);
    process.unresolved_samples.push(1);
    assert_eq!(process.perf_map_pid(), Some(7));
    process.pid = -1;
    assert_eq!(process.perf_map_pid(), Some(u32::MAX));
}

fn span(name: &str, start: u64, end: u64) -> MarkerSpan {
    MarkerSpan {
        start_time: at(start),
        end_time: at(end),
        name: name.to_string(),
    }
}

fn jitdump_queue(lib: LibraryHandle) -> LibMappingOpQueue<char> {
    let mut profile = profile();
    let (handle, _) = add_process(&mut profile, 1);
    let mut process = TestProcess::new(1, handle, None, None);
    let info = LibMappingInfo::new_jit_function(lib, 'd');
    process.add_regular_lib_mapping(9, 0x9000, 0x9100, 0, info);
    process.lib_mapping_ops
}

#[test]
fn a_finished_process_leaves_its_samples_mappings_and_markers() {
    let mut profile = profile();
    let (handle, main) = add_process(&mut profile, 7);
    let other = profile.add_thread(handle, 9, at(0), false);
    let lib = add_lib(&mut profile, "lib");
    let mut process = TestProcess::new(7, handle, Some("ls".to_string()), Some("jit"));
    process.unresolved_samples = vec![4, 5];
    process.add_regular_lib_mapping(1, 0, 8, 0, LibMappingInfo { lib_handle: lib, details: 'r' });
    process.add_jit_function(2, 0, 0x7000, 0x20, LibMappingInfo::new_jit_function(lib, 'j'));
    process.add_marker_file_path(main, PathBuf::from("a"), vec![PathBuf::from("dir")]);
    process.add_marker_file_path(main, PathBuf::from("unreadable"), vec![]);
    process.add_marker_file_path(other, PathBuf::from("b"), vec![]);
    assert_eq!(process.marker_file_paths[0].1, PathBuf::from("a"));
    assert_eq!(process.marker_file_paths[0].2, vec![PathBuf::from("dir")]);

    let spans = vec![
        Some(vec![span("x", 1, 2), span("y", 3, 4)]),
        None,
        Some(vec![span("z", 5, 6)]),
    ];
    let (data, recycling) =
        process.finish(Some("perf map"), vec![jitdump_queue(lib)], spans, Some("threads"), "main");
    assert_eq!(data.profile_process, handle);
    assert_eq!(data.unresolved_samples, vec![4, 5]);
    assert_eq!(mappings(&data.lib_mapping_ops), vec![(1, 0, 8, 0, lib, 'r')]);
    assert_eq!(data.jitdump_ops.len(), 2);
    assert_eq!(mappings(&data.jitdump_ops[0]), vec![(2, 0x7000, 0x7020, 0, lib, 'j')]);
    assert_eq!(mappings(&data.jitdump_ops[1]), vec![(9, 0x9000, 0x9100, 0, lib, 'd')]);
    assert_eq!(data.perf_map_mappings, Some("perf map"));
    let spans: Vec<_> = data
        .marker_spans
        .iter()
        .map(|s| (s.thread_handle, s.start_time, s.end_time, s.name.as_str()))
        .collect();
    assert_eq!(
        spans,
        vec![
            (main, at(1), at(2), "x"),
            (main, at(3), at(4), "y"),
            (other, at(5), at(6), "z"),
        ]
    );
    let (name, recycling) = recycling.unwrap();
    assert_eq!(name, "ls");
    assert_eq!(recycling.process_handle, handle);
    assert_eq!(recycling.main_thread_recycling_data, "main");
    assert_eq!(recycling.thread_recycler, "threads");
    assert_eq!(recycling.jit_function_recycler, "jit");
}

#[test]
fn a_finished_process_without_samples_or_app_cache_leaves_less() {
    let mut profile = profile();
    let (handle, _) = add_process(&mut profile, 7);
    let lib = add_lib(&mut profile, "lib");
    let process = TestProcess::new(7, handle, Some("ls".to_string()), Some("jit"));
    let (data, _) =
        process.finish(Some("perf map"), vec![jitdump_queue(lib)], vec![], Some("threads"), "main");
    assert_eq!(data.perf_map_mappings, None);
    assert_eq!(data.jitdump_ops.len(), 1);
    assert!(data.marker_spans.is_empty());
}

#[test]
fn recycling_takes_a_name_and_both_recyclers() {
    let mut profile = profile();
    let (handle, _) = add_process(&mut profile, 7);
    let recycles = |name: Option<&str>, jit: Option<&'static str>, threads: Option<()>| {
        let process = TestProcess::new(7, handle, name.map(|name| name.to_string()), jit);
        process.finish(None::<()>, vec![], vec![], threads, ()).1.is_some()
    };
    assert!(recycles(Some("ls"), Some("jit"), Some(())));
    assert!(!recycles(None, Some("jit"), Some(())));
    assert!(!recycles(Some("ls"), None, Some(())));
    assert!(!recycles(Some("ls"), Some("jit"), None));
}

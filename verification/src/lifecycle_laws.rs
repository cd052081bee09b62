//! What becomes of what a process is given, from its start to its end.
//!
//! Each law speaks of a call's own result: `call_ensures(f, args, result)` is what a caller
//! of `f` with `args` knows of the `result`.

use crate::mappings::{LibMappingInfo, LibMappingOp, LibMappingOpQueue};
use crate::process::{
    name_injected_jit_marker, spans_of_files, InjectedJitQuery, MarkerSpan, Process,
    ProcessForkData, ProcessRecyclingData, ProcessSampleData,
};
use crate::process_laws::forked_child_is_like_its_parent;
use crate::profile::{profile_counters, profile_processes, profile_strings};
use fxprof_processed_profile::{
    CounterHandle, LibraryHandle, ProcessHandle, Profile, StringHandle, ThreadHandle, Timestamp,
};
use std::path::PathBuf;
use vstd::prelude::*;

verus! {

/// The number of spans in marker files, of which those that could not be read have none.
pub open spec fn number_of_spans(files: Seq<Option<Vec<MarkerSpan>>>) -> nat
    decreases files.len(),
{
    if files.len() == 0 {
        0
    } else {
        number_of_spans(files.drop_last()) + match files.last() {
            Some(spans) => spans@.len(),
            None => 0,
        }
    }
}

/// Span `j` of file `i` among the spans of the first `count` files.
proof fn lemma_span_by_index(
    files: Seq<(ThreadHandle, PathBuf, Vec<PathBuf>)>,
    given: Seq<Option<Vec<MarkerSpan>>>,
    count: nat,
    i: int,
    j: int,
)
    requires
        0 <= i < count <= given.len(),
        given[i] is Some,
        0 <= j < given[i]->0@.len(),
    ensures
        number_of_spans(given.take(i)) + j < spans_of_files(files, given, count).len(),
        ({
            let span = spans_of_files(files, given, count)[number_of_spans(given.take(i)) + j];
            let source = given[i]->0@[j];
            &&& span.thread_handle == files[i].0
            &&& span.start_time == source.start_time
            &&& span.end_time == source.end_time
            &&& span.name == source.name
        }),
    decreases count,
{
    lemma_number_of_spans(files, given, (count - 1) as nat);
    if i < count - 1 {
        lemma_span_by_index(files, given, (count - 1) as nat, i, j);
    }
}

proof fn lemma_number_of_spans(
    files: Seq<(ThreadHandle, PathBuf, Vec<PathBuf>)>,
    given: Seq<Option<Vec<MarkerSpan>>>,
    count: nat,
)
    requires
        count <= given.len(),
    ensures
        spans_of_files(files, given, count).len() == number_of_spans(given.take(count as int)),
    decreases count,
{
    if count > 0 {
        let last = count - 1;
        lemma_number_of_spans(files, given, last as nat);
        assert(given.take(count as int).drop_last() =~= given.take(last));
        assert(given.take(count as int).last() == given[last]);
    }
}

/// There are as many spans in the end as there are in all marker files that could be read.
pub proof fn no_span_is_lost_or_made_up<U, R, S, D, M, K, P>(
    process: Process<U, R, S, D>,
    perf_map_mappings: Option<P>,
    jitdump_ops: Vec<LibMappingOpQueue<D>>,
    marker_spans: Vec<Option<Vec<MarkerSpan>>>,
    thread_recycler: Option<K>,
    main_thread_recycling_data: M,
    finished: (ProcessSampleData<S, D, P>, Option<(String, ProcessRecyclingData<M, K, R>)>),
)
    requires
        call_ensures(
            Process::<U, R, S, D>::finish::<M, K, P>,
            (
                process,
                perf_map_mappings,
                jitdump_ops,
                marker_spans,
                thread_recycler,
                main_thread_recycling_data,
            ),
            finished,
        ),
    ensures
        finished.0.marker_spans@.len() == number_of_spans(marker_spans@),
{
    lemma_number_of_spans(process.marker_file_paths@, marker_spans@, marker_spans@.len());
    assert(marker_spans@.take(marker_spans@.len() as int) =~= marker_spans@);
}

/// Every span `j` of every marker file `i` that could be read ends up on the thread of its
/// own file, with its own start, end and name, behind all spans of the files before its
/// file and the `j` spans before it in its file.
pub proof fn spans_end_up_on_the_thread_of_their_file<U, R, S, D, M, K, P>(
    process: Process<U, R, S, D>,
    perf_map_mappings: Option<P>,
    jitdump_ops: Vec<LibMappingOpQueue<D>>,
    marker_spans: Vec<Option<Vec<MarkerSpan>>>,
    thread_recycler: Option<K>,
    main_thread_recycling_data: M,
    finished: (ProcessSampleData<S, D, P>, Option<(String, ProcessRecyclingData<M, K, R>)>),
    i: int,
    j: int,
)
    requires
        call_ensures(
            Process::<U, R, S, D>::finish::<M, K, P>,
            (
                process,
                perf_map_mappings,
                jitdump_ops,
                marker_spans,
                thread_recycler,
                main_thread_recycling_data,
            ),
            finished,
        ),
        0 <= i < marker_spans@.len(),
        marker_spans@[i] is Some,
        0 <= j < marker_spans@[i]->0@.len(),
    ensures
        number_of_spans(marker_spans@.take(i)) + j < finished.0.marker_spans@.len(),
        ({
            let span = finished.0.marker_spans@[number_of_spans(marker_spans@.take(i)) + j];
            let source = marker_spans@[i]->0@[j];
            &&& span.thread_handle == process.marker_file_paths@[i].0
            &&& span.start_time == source.start_time
            &&& span.end_time == source.end_time
            &&& span.name == source.name
        }),
{
    lemma_span_by_index(process.marker_file_paths@, marker_spans@, marker_spans@.len(), i, j);
}

/// A marker file is noted behind those that were noted before, with its thread, its path
/// and where else to look for it. Nothing else of the process changes.
pub proof fn marker_file_is_noted_last<U, R, S, D>(
    process: &mut Process<U, R, S, D>,
    thread: ThreadHandle,
    path: PathBuf,
    lookup_dirs: Vec<PathBuf>,
)
    requires
        call_ensures(
            Process::<U, R, S, D>::add_marker_file_path,
            (process, thread, path, lookup_dirs),
            (),
        ),
    ensures
        final(process).marker_file_paths@.len() == old(process).marker_file_paths@.len() + 1,
        final(process).marker_file_paths@.last() == (thread, path, lookup_dirs),
        forall|i: int|
            0 <= i < old(process).marker_file_paths@.len()
                ==> #[trigger] final(process).marker_file_paths@[i]
                == old(process).marker_file_paths@[i],
        *final(process) == (Process {
            marker_file_paths: final(process).marker_file_paths,
            ..*old(process)
        }),
{
}

/// A marker file that was noted last is the last to give its spans, and they end up on the
/// thread that it was noted for.
pub proof fn noted_marker_file_gives_its_spans<U, R, S, D, M, K, P>(
    process: &mut Process<U, R, S, D>,
    thread: ThreadHandle,
    path: PathBuf,
    lookup_dirs: Vec<PathBuf>,
    perf_map_mappings: Option<P>,
    jitdump_ops: Vec<LibMappingOpQueue<D>>,
    marker_spans: Vec<Option<Vec<MarkerSpan>>>,
    thread_recycler: Option<K>,
    main_thread_recycling_data: M,
    finished: (ProcessSampleData<S, D, P>, Option<(String, ProcessRecyclingData<M, K, R>)>),
    j: int,
)
    requires
        call_ensures(
            Process::<U, R, S, D>::add_marker_file_path,
            (process, thread, path, lookup_dirs),
            (),
        ),
        call_ensures(
            Process::<U, R, S, D>::finish::<M, K, P>,
            (
                *final(process),
                perf_map_mappings,
                jitdump_ops,
                marker_spans,
                thread_recycler,
                main_thread_recycling_data,
            ),
            finished,
        ),
        marker_spans@.len() == old(process).marker_file_paths@.len() + 1,
        marker_spans@.last() is Some,
        0 <= j < marker_spans@.last()->0@.len(),
    ensures
        finished.0.marker_spans@.len() >= marker_spans@.last()->0@.len(),
        ({
            let span = finished.0.marker_spans@[finished.0.marker_spans@.len()
                - marker_spans@.last()->0@.len() + j];
            let source = marker_spans@.last()->0@[j];
            &&& span.thread_handle == thread
            &&& span.start_time == source.start_time
            &&& span.end_time == source.end_time
            &&& span.name == source.name
        }),
{
    let last = marker_spans@.len() - 1;
    let files = final(process).marker_file_paths@;
    lemma_number_of_spans(files, marker_spans@, marker_spans@.len());
    lemma_span_by_index(files, marker_spans@, marker_spans@.len(), last, j);
    assert(marker_spans@.take(marker_spans@.len() as int) =~= marker_spans@);
    assert(marker_spans@.drop_last() =~= marker_spans@.take(last));
}

/// A process that ends hands on its handle, its samples and its mappings as they are. The
/// mappings of its JIT app cache, if there are any, come before those of the jitdump
/// files, which stay in order.
pub proof fn finish_hands_on_samples_and_mappings<U, R, S, D, M, K, P>(
    process: Process<U, R, S, D>,
    perf_map_mappings: Option<P>,
    jitdump_ops: Vec<LibMappingOpQueue<D>>,
    marker_spans: Vec<Option<Vec<MarkerSpan>>>,
    thread_recycler: Option<K>,
    main_thread_recycling_data: M,
    finished: (ProcessSampleData<S, D, P>, Option<(String, ProcessRecyclingData<M, K, R>)>),
)
    requires
        call_ensures(
            Process::<U, R, S, D>::finish::<M, K, P>,
            (
                process,
                perf_map_mappings,
                jitdump_ops,
                marker_spans,
                thread_recycler,
                main_thread_recycling_data,
            ),
            finished,
        ),
    ensures
        finished.0.profile_process == process.profile_process,
        finished.0.unresolved_samples@ == process.unresolved_samples@,
        finished.0.lib_mapping_ops@ == process.lib_mapping_ops@,
        process.jit_app_cache_mapping_ops@.len() == 0 ==> finished.0.jitdump_ops@ == jitdump_ops@,
        process.jit_app_cache_mapping_ops@.len() > 0 ==> {
            &&& finished.0.jitdump_ops@.len() == jitdump_ops@.len() + 1
            &&& finished.0.jitdump_ops@[0]@ == process.jit_app_cache_mapping_ops@
            &&& forall|i: int|
                0 <= i < jitdump_ops@.len() ==> finished.0.jitdump_ops@[i + 1]
                    == #[trigger] jitdump_ops@[i]
        },
{
}

/// A perf map is looked for under the process's own pid, taken as 32 bits without a sign,
/// exactly if samples are unresolved, and what it holds is handed on exactly if it was to be looked for.
pub proof fn perf_map_is_handed_on_if_it_was_needed<U, R, S, D, M, K, P>(
    process: Process<U, R, S, D>,
    pid: Option<u32>,
    perf_map_mappings: Option<P>,
    jitdump_ops: Vec<LibMappingOpQueue<D>>,
    marker_spans: Vec<Option<Vec<MarkerSpan>>>,
    thread_recycler: Option<K>,
    main_thread_recycling_data: M,
    finished: (ProcessSampleData<S, D, P>, Option<(String, ProcessRecyclingData<M, K, R>)>),
)
    requires
        call_ensures(Process::<U, R, S, D>::perf_map_pid, (&process,), pid),
        call_ensures(
            Process::<U, R, S, D>::finish::<M, K, P>,
            (
                process,
                perf_map_mappings,
                jitdump_ops,
                marker_spans,
                thread_recycler,
                main_thread_recycling_data,
            ),
            finished,
        ),
    ensures
        pid is Some <==> process.unresolved_samples@.len() > 0,
        pid is Some ==> pid->0 == process.pid as int % 0x1_0000_0000,
        pid is Some ==> finished.0.perf_map_mappings == perf_map_mappings,
        pid is None ==> finished.0.perf_map_mappings is None,
{
    let signed = process.pid;
    assert(signed as u32 == if signed >= 0 {
        signed as int
    } else {
        signed + 0x1_0000_0000
    }) by (bit_vector);
}

/// A process that ends can be recycled exactly if it has a name, recycles JIT functions and
/// recycles threads: under its name, with its handle, its JIT functions, and what its
/// threads leave behind.
pub proof fn named_recycling_process_can_be_recycled<U, R, S, D, M, K, P>(
    process: Process<U, R, S, D>,
    perf_map_mappings: Option<P>,
    jitdump_ops: Vec<LibMappingOpQueue<D>>,
    marker_spans: Vec<Option<Vec<MarkerSpan>>>,
    thread_recycler: Option<K>,
    main_thread_recycling_data: M,
    finished: (ProcessSampleData<S, D, P>, Option<(String, ProcessRecyclingData<M, K, R>)>),
)
    requires
        call_ensures(
            Process::<U, R, S, D>::finish::<M, K, P>,
            (
                process,
                perf_map_mappings,
                jitdump_ops,
                marker_spans,
                thread_recycler,
                main_thread_recycling_data,
            ),
            finished,
        ),
    ensures
        finished.1 is Some <==> process.name is Some && process.jit_function_recycler is Some
            && thread_recycler is Some,
        finished.1 is Some ==> {
            let (name, data) = finished.1->0;
            &&& Some(name) == process.name
            &&& data.process_handle == process.profile_process
            &&& data.main_thread_recycling_data == main_thread_recycling_data
            &&& Some(data.thread_recycler) == thread_recycler
            &&& Some(data.jit_function_recycler) == process.jit_function_recycler
        },
{
}

/// After a renaming with recycling the process has the given name, handle and JIT
/// functions, whatever it had before, and all else is as it was. What it had before is
/// given back.
pub proof fn renaming_with_recycling_takes_what_is_given<U, R, S, D, M, K>(
    process: &mut Process<U, R, S, D>,
    name: String,
    process_handle: ProcessHandle,
    recycler: R,
    main_thread_recycling_data: M,
    thread_recycler: K,
    old_data: (ProcessRecyclingData<M, K, R>, Option<String>),
)
    requires
        call_ensures(
            Process::<U, R, S, D>::rename_with_recycling::<M, K>,
            (
                process,
                name,
                process_handle,
                recycler,
                main_thread_recycling_data,
                thread_recycler,
            ),
            old_data,
        ),
        old(process).jit_function_recycler is Some,
    ensures
        final(process).name == Some(name),
        final(process).profile_process == process_handle,
        final(process).jit_function_recycler == Some(recycler),
        final(process).unwinder == old(process).unwinder,
        final(process).lib_mapping_ops == old(process).lib_mapping_ops,
        final(process).pid == old(process).pid,
        final(process).unresolved_samples == old(process).unresolved_samples,
        final(process).jit_app_cache_mapping_ops == old(process).jit_app_cache_mapping_ops,
        final(process).marker_file_paths == old(process).marker_file_paths,
        final(process).stack_read_cache == old(process).stack_read_cache,
        final(process).prev_mm_filepages_size == old(process).prev_mm_filepages_size,
        final(process).prev_mm_anonpages_size == old(process).prev_mm_anonpages_size,
        final(process).prev_mm_swapents_size == old(process).prev_mm_swapents_size,
        final(process).prev_mm_shmempages_size == old(process).prev_mm_shmempages_size,
        final(process).mem_counter == old(process).mem_counter,
        final(process).extra_event_instances == old(process).extra_event_instances,
        old_data.0.process_handle == old(process).profile_process,
        Some(old_data.0.jit_function_recycler) == old(process).jit_function_recycler,
        old_data.0.main_thread_recycling_data == main_thread_recycling_data,
        old_data.0.thread_recycler == thread_recycler,
        old_data.1 == old(process).name,
{
}

/// A process that was renamed with recycling can be recycled under its new name when it
/// ends, with the handle and the JIT functions that it took over, whether it had a name
/// before or not.
pub proof fn renamed_process_can_be_recycled<U, R, S, D, M, K, P>(
    process: &mut Process<U, R, S, D>,
    name: String,
    process_handle: ProcessHandle,
    recycler: R,
    old_main_thread_recycling_data: M,
    old_thread_recycler: K,
    old_data: (ProcessRecyclingData<M, K, R>, Option<String>),
    perf_map_mappings: Option<P>,
    jitdump_ops: Vec<LibMappingOpQueue<D>>,
    marker_spans: Vec<Option<Vec<MarkerSpan>>>,
    thread_recycler: K,
    main_thread_recycling_data: M,
    finished: (ProcessSampleData<S, D, P>, Option<(String, ProcessRecyclingData<M, K, R>)>),
)
    requires
        call_ensures(
            Process::<U, R, S, D>::rename_with_recycling::<M, K>,
            (
                process,
                name,
                process_handle,
                recycler,
                old_main_thread_recycling_data,
                old_thread_recycler,
            ),
            old_data,
        ),
        call_ensures(
            Process::<U, R, S, D>::finish::<M, K, P>,
            (
                *final(process),
                perf_map_mappings,
                jitdump_ops,
                marker_spans,
                Some(thread_recycler),
                main_thread_recycling_data,
            ),
            finished,
        ),
    ensures
        finished.0.profile_process == process_handle,
        finished.1 is Some,
        ({
            let (recycled_name, data) = finished.1->0;
            &&& recycled_name == name
            &&& data.process_handle == process_handle
            &&& data.jit_function_recycler == recycler
            &&& data.thread_recycler == thread_recycler
            &&& data.main_thread_recycling_data == main_thread_recycling_data
        }),
{
}

/// After a renaming without recycling the process has the given name and all else is as it
/// was. In the profile its name is the given one, its end time is as it was, and all other
/// processes, all counters and all strings are as they were.
pub proof fn renaming_without_recycling_changes_the_name_only<U, R, S, D>(
    process: &mut Process<U, R, S, D>,
    name: String,
    profile: &mut Profile,
)
    requires
        call_ensures(
            Process::<U, R, S, D>::rename_without_recycling,
            (process, name, profile),
            (),
        ),
        profile_processes(*old(profile)).dom().contains(old(process).profile_process),
    ensures
        final(process).name == Some(name),
        *final(process) == (Process { name: final(process).name, ..*old(process) }),
        profile_processes(*final(profile)).dom() == profile_processes(*old(profile)).dom(),
        profile_processes(*final(profile))[old(process).profile_process].0 == name@,
        profile_processes(*final(profile))[old(process).profile_process].1 == profile_processes(
            *old(profile),
        )[old(process).profile_process].1,
        forall|other: ProcessHandle|
            other != old(process).profile_process ==> #[trigger] profile_processes(*final(profile))[other]
                == profile_processes(*old(profile))[other],
        profile_counters(*final(profile)) == profile_counters(*old(profile)),
        profile_strings(*final(profile)) == profile_strings(*old(profile)),
{
    assert(profile_processes(*final(profile)).dom() =~= profile_processes(*old(profile)).dom());
}

/// A process that has died has the given end time in the profile, and its name is as it
/// was, and so are all other processes, all counters and all strings.
pub proof fn death_sets_the_end_time_only<U, R, S, D>(
    process: Process<U, R, S, D>,
    end_time: Timestamp,
    profile: &mut Profile,
)
    requires
        call_ensures(Process::<U, R, S, D>::notify_dead, (&process, end_time, profile), ()),
        profile_processes(*old(profile)).dom().contains(process.profile_process),
    ensures
        profile_processes(*final(profile)).dom() == profile_processes(*old(profile)).dom(),
        profile_processes(*final(profile))[process.profile_process].1 == Some(end_time),
        profile_processes(*final(profile))[process.profile_process].0 == profile_processes(
            *old(profile),
        )[process.profile_process].0,
        forall|other: ProcessHandle|
            other != process.profile_process ==> #[trigger] profile_processes(*final(profile))[other]
                == profile_processes(*old(profile))[other],
        profile_counters(*final(profile)) == profile_counters(*old(profile)),
        profile_strings(*final(profile)) == profile_strings(*old(profile)),
{
    assert(profile_processes(*final(profile)).dom() =~= profile_processes(*old(profile)).dom());
}

/// A process that nothing was recorded of has nothing to hand on when it ends but what the
/// jitdump files hold, and can be recycled exactly if it was given a name and recyclers.
pub proof fn new_process_has_nothing_to_hand_on<U: Default, R, S, D, M, K, P>(
    pid: i32,
    process_handle: ProcessHandle,
    name: Option<String>,
    jit_function_recycler: Option<R>,
    process: Process<U, R, S, D>,
    perf_map_mappings: Option<P>,
    jitdump_ops: Vec<LibMappingOpQueue<D>>,
    marker_spans: Vec<Option<Vec<MarkerSpan>>>,
    thread_recycler: Option<K>,
    main_thread_recycling_data: M,
    finished: (ProcessSampleData<S, D, P>, Option<(String, ProcessRecyclingData<M, K, R>)>),
)
    requires
        call_ensures(
            Process::<U, R, S, D>::new,
            (pid, process_handle, name, jit_function_recycler),
            process,
        ),
        call_ensures(
            Process::<U, R, S, D>::finish::<M, K, P>,
            (
                process,
                perf_map_mappings,
                jitdump_ops,
                marker_spans,
                thread_recycler,
                main_thread_recycling_data,
            ),
            finished,
        ),
        marker_spans@.len() == process.marker_file_paths@.len(),
    ensures
        process.pid == pid,
        process.name == name,
        process.jit_function_recycler == jit_function_recycler,
        call_ensures(U::default, (), process.unwinder),
        process.jit_app_cache_mapping_ops@.len() == 0,
        process.marker_file_paths@.len() == 0,
        process.mem_counter is None,
        process.stack_read_cache@.dom() == Set::<i32>::empty(),
        process.extra_event_instances@.dom() == Set::<(u64, i32)>::empty(),
        process.prev_mm_filepages_size == 0,
        process.prev_mm_anonpages_size == 0,
        process.prev_mm_swapents_size == 0,
        process.prev_mm_shmempages_size == 0,
        finished.0.profile_process == process_handle,
        finished.0.unresolved_samples@.len() == 0,
        finished.0.lib_mapping_ops@.len() == 0,
        finished.0.jitdump_ops@ == jitdump_ops@,
        finished.0.perf_map_mappings is None,
        finished.0.marker_spans@.len() == 0,
        finished.1 is Some <==> name is Some && jit_function_recycler is Some && thread_recycler
            is Some,
{
}

/// A child that adopts what its parent gave it at the fork has clones of its parent's
/// unwinder and mappings: as many mappings, in the same order, with the same times,
/// addresses and libraries. All else that it has is its own.
pub proof fn child_adopts_its_parents_mappings<U: Clone, R, S, D: Clone>(
    parent: Process<U, R, S, D>,
    fork_data: ProcessForkData<U, D>,
    child: &mut Process<U, R, S, D>,
)
    requires
        call_ensures(Process::<U, R, S, D>::clone_fork_data, (&parent,), fork_data),
        call_ensures(
            Process::<U, R, S, D>::adopt_fork_data_from_parent,
            (child, fork_data),
            (),
        ),
    ensures
        cloned(parent.unwinder, final(child).unwinder),
        final(child).lib_mapping_ops@.len() == parent.lib_mapping_ops@.len(),
        forall|i: int|
            0 <= i < parent.lib_mapping_ops@.len() ==> {
                let (time, LibMappingOp::Add(add)) = #[trigger] parent.lib_mapping_ops@[i];
                let (child_time, LibMappingOp::Add(child_add)) = final(child).lib_mapping_ops@[i];
                &&& child_time == time
                &&& child_add.start_avma == add.start_avma
                &&& child_add.end_avma == add.end_avma
                &&& child_add.relative_address_at_start == add.relative_address_at_start
                &&& child_add.info.lib_handle == add.info.lib_handle
                &&& cloned(add.info.details, child_add.info.details)
            },
        *final(child) == (Process {
            unwinder: final(child).unwinder,
            lib_mapping_ops: final(child).lib_mapping_ops,
            ..*old(child)
        }),
{
    forked_child_is_like_its_parent(parent, fork_data, *final(child));
}

/// The mapping of a library comes behind all mappings that were there, with the given time,
/// addresses and library. Nothing else of the process changes.
pub proof fn library_mapping_is_added_last<U, R, S, D>(
    process: &mut Process<U, R, S, D>,
    timestamp: u64,
    start_address: u64,
    end_address: u64,
    relative_address_at_start: u32,
    info: LibMappingInfo<D>,
)
    requires
        call_ensures(
            Process::<U, R, S, D>::add_regular_lib_mapping,
            (process, timestamp, start_address, end_address, relative_address_at_start, info),
            (),
        ),
    ensures
        ({
            let before = old(process).lib_mapping_ops@;
            let after = final(process).lib_mapping_ops@;
            let (time, LibMappingOp::Add(add)) = after[before.len() as int];
            &&& after.len() == before.len() + 1
            &&& forall|i: int| 0 <= i < before.len() ==> #[trigger] after[i] == before[i]
            &&& time == timestamp
            &&& add.start_avma == start_address
            &&& add.end_avma == end_address
            &&& add.relative_address_at_start == relative_address_at_start
            &&& add.info == info
        }),
        *final(process) == (Process {
            lib_mapping_ops: final(process).lib_mapping_ops,
            ..*old(process)
        }),
{
}

/// The mapping of a JIT function is that of the recycled function if there is one, and
/// else its own, at its own addresses. A function is looked up among recycled ones exactly
/// if it has a name and the process recycles, by its name and its size, of which the lower
/// 32 bits count.
pub proof fn jit_function_is_mapped_to_the_recycled_one<U, R, S, D>(
    process: &mut Process<U, R, S, D>,
    symbol_name: Option<&str>,
    query: InjectedJitQuery,
    timestamp: u64,
    start_address: u64,
    end_address: u64,
    relative_address_at_start: u32,
    lib_handle: LibraryHandle,
    recycled: Option<(LibraryHandle, u32)>,
    details: D,
)
    requires
        call_ensures(
            Process::<U, R, S, D>::query_injected_jit_lib,
            (old(process), symbol_name, start_address, end_address),
            query,
        ),
        call_ensures(
            Process::<U, R, S, D>::add_lib_mapping_for_injected_jit_lib,
            (
                process,
                timestamp,
                start_address,
                end_address,
                relative_address_at_start,
                lib_handle,
                recycled,
                details,
            ),
            (),
        ),
        start_address <= end_address,
    ensures
        query.recycle is Some <==> symbol_name is Some && old(process).jit_function_recycler
            is Some,
        query.recycle matches Some((name, code_size)) ==> Some(name) == symbol_name && code_size
            == (end_address - start_address) % 0x1_0000_0000,
        symbol_name is Some ==> query.classify@ == symbol_name->0@,
        symbol_name is None ==> query.classify@.len() == 0,
        ({
            let before = old(process).lib_mapping_ops@;
            let after = final(process).lib_mapping_ops@;
            let (time, LibMappingOp::Add(add)) = after[before.len() as int];
            &&& after.len() == before.len() + 1
            &&& forall|i: int| 0 <= i < before.len() ==> #[trigger] after[i] == before[i]
            &&& time == timestamp
            &&& add.start_avma == start_address
            &&& add.end_avma == end_address
            &&& add.info.details == details
            &&& recycled is Some ==> (add.info.lib_handle, add.relative_address_at_start)
                == recycled->0
            &&& recycled is None ==> add.info.lib_handle == lib_handle
                && add.relative_address_at_start == relative_address_at_start
        }),
        *final(process) == (Process {
            lib_mapping_ops: final(process).lib_mapping_ops,
            ..*old(process)
        }),
{
    let size = (end_address - start_address) as u64;
    assert(size as u32 == size % 0x1_0000_0000) by (bit_vector);
    reveal_strlit("");
}

/// The mapping of a function from the JIT app cache comes behind all that the app cache
/// made before, over as many bytes as the function has, and is among the first mappings
/// that JIT code made when the process ends.
pub proof fn app_cache_function_comes_first_at_the_end<U, R, S, D, M, K, P>(
    process: &mut Process<U, R, S, D>,
    timestamp: u64,
    relative_address: u32,
    start_avma: u64,
    size: u32,
    info: LibMappingInfo<D>,
    perf_map_mappings: Option<P>,
    jitdump_ops: Vec<LibMappingOpQueue<D>>,
    marker_spans: Vec<Option<Vec<MarkerSpan>>>,
    thread_recycler: Option<K>,
    main_thread_recycling_data: M,
    finished: (ProcessSampleData<S, D, P>, Option<(String, ProcessRecyclingData<M, K, R>)>),
)
    requires
        call_ensures(
            Process::<U, R, S, D>::add_jit_function,
            (process, timestamp, relative_address, start_avma, size, info),
            (),
        ),
        start_avma + size <= u64::MAX,
        call_ensures(
            Process::<U, R, S, D>::finish::<M, K, P>,
            (
                *final(process),
                perf_map_mappings,
                jitdump_ops,
                marker_spans,
                thread_recycler,
                main_thread_recycling_data,
            ),
            finished,
        ),
    ensures
        ({
            let before = old(process).jit_app_cache_mapping_ops@;
            let after = finished.0.jitdump_ops@[0]@;
            let (time, LibMappingOp::Add(add)) = after[before.len() as int];
            &&& finished.0.jitdump_ops@.len() == jitdump_ops@.len() + 1
            &&& after.len() == before.len() + 1
            &&& forall|i: int| 0 <= i < before.len() ==> #[trigger] after[i] == before[i]
            &&& time == timestamp
            &&& add.start_avma == start_avma
            &&& add.end_avma - add.start_avma == size
            &&& add.relative_address_at_start == relative_address
            &&& add.info == info
        }),
        *final(process) == (Process {
            jit_app_cache_mapping_ops: final(process).jit_app_cache_mapping_ops,
            ..*old(process)
        }),
{
}

/// The memory counter that a process gets when it first asks is new to the profile, is the
/// process's own, and counts allocated memory. Asking again gives the same one and changes
/// nothing. All else of the process, and all other counters, are as they were.
pub proof fn memory_counter_is_the_processs_own<U, R, S, D>(
    process: &mut Process<U, R, S, D>,
    profile: &mut Profile,
    counter: CounterHandle,
)
    requires
        call_ensures(
            Process::<U, R, S, D>::get_or_make_mem_counter,
            (process, profile),
            counter,
        ),
    ensures
        final(process).mem_counter == Some(counter),
        *final(process) == (Process { mem_counter: Some(counter), ..*old(process) }),
        old(process).mem_counter is Some ==> {
            &&& old(process).mem_counter == Some(counter)
            &&& *final(profile) == *old(profile)
        },
        old(process).mem_counter is None ==> {
            &&& !profile_counters(*old(profile)).dom().contains(counter)
            &&& profile_counters(*final(profile)).dom().contains(counter)
            &&& profile_counters(*final(profile))[counter].0 == old(process).profile_process
            &&& profile_counters(*final(profile))[counter].1 == "malloc"@
            &&& profile_counters(*final(profile))[counter].2 == "Memory"@
            &&& profile_counters(*final(profile))[counter].3 == "Amount of allocated memory"@
        },
        forall|other: CounterHandle|
            other != counter ==> #[trigger] profile_counters(*final(profile)).dom().contains(other)
                == profile_counters(*old(profile)).dom().contains(other),
        forall|other: CounterHandle|
            other != counter ==> #[trigger] profile_counters(*final(profile))[other]
                == profile_counters(*old(profile))[other],
        profile_processes(*final(profile)) == profile_processes(*old(profile)),
        profile_strings(*final(profile)) == profile_strings(*old(profile)),
{
}

/// A marker for a JIT function is named exactly if one is to be added: by the function's
/// own name, or as unknown if it has none. Strings that had a handle keep it, a name that
/// had one is given that one, and no other string gets one. Handles are 32 bits wide, and
/// one must be left.
pub proof fn jit_marker_has_the_functions_name(
    symbol_name: Option<&str>,
    should_add_marker: bool,
    profile: &mut Profile,
    name: Option<StringHandle>,
)
    requires
        call_ensures(
            name_injected_jit_marker,
            (symbol_name, should_add_marker, profile),
            name,
        ),
        profile_strings(*old(profile)).len() < 0x1_0000_0000,
    ensures
        name is Some <==> should_add_marker,
        !should_add_marker ==> *final(profile) == *old(profile),
        should_add_marker ==> profile_strings(*final(profile)).dom().contains(name->0),
        should_add_marker && symbol_name is Some ==> profile_strings(*final(profile))[name->0]
            == symbol_name->0@,
        should_add_marker && symbol_name is None ==> profile_strings(*final(profile))[name->0]
            == "<unknown>"@,
        forall|known: StringHandle| #[trigger]
            profile_strings(*old(profile)).dom().contains(known) ==> {
                &&& profile_strings(*final(profile)).dom().contains(known)
                &&& profile_strings(*final(profile))[known] == profile_strings(*old(profile))[known]
                &&& should_add_marker && profile_strings(*old(profile))[known] == profile_strings(
                    *final(profile),
                )[name->0] ==> name->0 == known
            },
        forall|handle: StringHandle| #[trigger]
            profile_strings(*final(profile)).dom().contains(handle) ==> profile_strings(
                *old(profile),
            ).dom().contains(handle) || Some(handle) == name,
        profile_processes(*final(profile)) == profile_processes(*old(profile)),
        profile_counters(*final(profile)) == profile_counters(*old(profile)),
{
}

} // verus!

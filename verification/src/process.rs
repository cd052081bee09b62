//! The state of one profiled process.

use crate::mappings::{all_cloned, LibMappingAdd, LibMappingInfo, LibMappingOp, LibMappingOpQueue};
use crate::profile::{
    has_free_string_handle, interns, profile_counters, profile_processes, profile_strings,
};
use crate::thread_snapshots::ThreadStackSnapshots;
use fxprof_processed_profile::{
    CounterHandle, LibraryHandle, ProcessHandle, Profile, StringHandle, ThreadHandle, Timestamp,
};
use std::collections::HashMap;
use std::path::PathBuf;
use vstd::prelude::*;

verus! {

/// `std::path::PathBuf`, carried as it is.
#[verifier::external_type_specification]
#[verifier::external_body]
pub struct ExPathBuf(PathBuf);

/// Delta-tracking state for one extra-event counter instance, keyed by (kernel event id,
/// tid).
pub struct ExtraEventInstance {
    /// The extra per-sample delta dimension this instance's values feed, shared with the
    /// event's other instances.
    pub dim: usize,
    /// The last raw value seen, used to turn the cumulative values carried by samples into
    /// per-sample deltas.
    pub prev_value: u64,
}

/// One profiled process, with the unwinder (`U`), the JIT function recycler (`R`), the
/// unresolved samples (`S`) and the mapping details (`D`) of the recorder.
pub struct Process<U, R, S, D> {
    pub profile_process: ProcessHandle,
    pub unwinder: U,
    pub lib_mapping_ops: LibMappingOpQueue<D>,
    pub name: Option<String>,
    pub pid: i32,
    pub unresolved_samples: Vec<S>,
    pub jit_app_cache_mapping_ops: LibMappingOpQueue<D>,
    pub jit_function_recycler: Option<R>,
    /// The marker files, in the order in which they were reported: the thread that wrote
    /// the file, its path, and where else to look for it.
    pub marker_file_paths: Vec<(ThreadHandle, PathBuf, Vec<PathBuf>)>,
    /// Per-thread rings of recent stack windows captured with samples, keyed by tid. When
    /// an unwind walks past the current sample's captured stack window, it continues
    /// through an earlier window of the same thread whose overlap with the current one is
    /// word-for-word identical. Other threads' stacks are unrelated, so their windows must
    /// never be used.
    pub stack_read_cache: HashMap<i32, ThreadStackSnapshots>,
    pub prev_mm_filepages_size: i64,
    pub prev_mm_anonpages_size: i64,
    pub prev_mm_swapents_size: i64,
    pub prev_mm_shmempages_size: i64,
    pub mem_counter: Option<CounterHandle>,
    pub extra_event_instances: HashMap<(u64, i32), ExtraEventInstance>,
}

/// What a child process takes over from its parent.
pub struct ProcessForkData<U, D> {
    pub unwinder: U,
    pub lib_mapping_ops: LibMappingOpQueue<D>,
}

/// What a finished process leaves behind for a later process of the same name: its
/// handle, its main thread (`M`), its other threads (`K`) and its JIT functions (`R`).
pub struct ProcessRecyclingData<M, K, R> {
    pub process_handle: ProcessHandle,
    pub main_thread_recycling_data: M,
    pub thread_recycler: K,
    pub jit_function_recycler: R,
}

/// A span of time with a name, read from a marker file.
pub struct MarkerSpan {
    pub start_time: Timestamp,
    pub end_time: Timestamp,
    pub name: String,
}

/// A span of time with a name, on the thread that wrote the marker file.
pub struct MarkerSpanOnThread {
    pub thread_handle: ThreadHandle,
    pub start_time: Timestamp,
    pub end_time: Timestamp,
    pub name: String,
}

/// What is left of a process for its samples to be resolved against. `P` are the mappings
/// of the process's perf map.
pub struct ProcessSampleData<S, D, P> {
    pub profile_process: ProcessHandle,
    pub unresolved_samples: Vec<S>,
    pub lib_mapping_ops: LibMappingOpQueue<D>,
    pub jitdump_ops: Vec<LibMappingOpQueue<D>>,
    pub perf_map_mappings: Option<P>,
    pub marker_spans: Vec<MarkerSpanOnThread>,
}

/// What the recorder has to find out about a JIT function before its mapping is added.
pub struct InjectedJitQuery<'a> {
    /// The name and the code size to look the function up by among recycled ones.
    pub recycle: Option<(&'a str, u32)>,
    /// The symbol name to classify.
    pub classify: &'a str,
}

/// A span moved onto a thread.
pub open spec fn on_thread(thread_handle: ThreadHandle, span: MarkerSpan) -> MarkerSpanOnThread {
    MarkerSpanOnThread {
        thread_handle,
        start_time: span.start_time,
        end_time: span.end_time,
        name: span.name,
    }
}

/// The spans of one marker file on its thread; none if the file could not be read.
pub open spec fn spans_of_file(thread: ThreadHandle, spans: Option<Vec<MarkerSpan>>) -> Seq<
    MarkerSpanOnThread,
> {
    match spans {
        Some(spans) => spans@.map_values(|span: MarkerSpan| on_thread(thread, span)),
        None => Seq::empty(),
    }
}

/// The spans of the first `count` marker files, one file after the other.
pub open spec fn spans_of_files(
    files: Seq<(ThreadHandle, PathBuf, Vec<PathBuf>)>,
    spans: Seq<Option<Vec<MarkerSpan>>>,
    count: nat,
) -> Seq<MarkerSpanOnThread>
    decreases count,
{
    if count == 0 {
        Seq::empty()
    } else {
        spans_of_files(files, spans, (count - 1) as nat) + spans_of_file(
            files[count - 1].0,
            spans[count - 1],
        )
    }
}

/// The mappings that JIT code made: those that the process's app cache made, if any,
/// before those of the jitdump files.
pub open spec fn all_jit_ops<D>(
    app_cache_ops: LibMappingOpQueue<D>,
    jitdump_ops: Seq<LibMappingOpQueue<D>>,
) -> Seq<LibMappingOpQueue<D>> {
    if app_cache_ops@.len() > 0 {
        seq![app_cache_ops] + jitdump_ops
    } else {
        jitdump_ops
    }
}

/// The name that the marker for a JIT function shows.
pub open spec fn jit_marker_name(symbol_name: Option<&str>) -> Seq<char> {
    match symbol_name {
        Some(name) => name@,
        None => "<unknown>"@,
    }
}

/// The name for the marker that shows when a JIT function was added, if one is to be
/// added.
pub fn name_injected_jit_marker(
    symbol_name: Option<&str>,
    should_add_marker: bool,
    profile: &mut Profile,
) -> (name: Option<StringHandle>)
    ensures
        name is Some == should_add_marker,
        !should_add_marker ==> *final(profile) == *old(profile),
        should_add_marker && has_free_string_handle(profile_strings(*old(profile))) ==> interns(
            profile_strings(*old(profile)),
            jit_marker_name(symbol_name),
            name->0,
            profile_strings(*final(profile)),
        ),
        profile_processes(*final(profile)) == profile_processes(*old(profile)),
        profile_counters(*final(profile)) == profile_counters(*old(profile)),
{
    if should_add_marker {
        let name: StringHandle = match symbol_name {
            Some(name) => profile.intern_string(name),
            None => profile.intern_string("<unknown>"),
        };
        Some(name)
    } else {
        None
    }
}

/// Moves the spans of one marker file onto its thread, behind those already there.
fn append_spans(
    marker_spans: &mut Vec<MarkerSpanOnThread>,
    thread_handle: ThreadHandle,
    spans: Vec<MarkerSpan>,
)
    ensures
        final(marker_spans)@ == old(marker_spans)@ + spans_of_file(thread_handle, Some(spans)),
{
    let ghost before: Seq<MarkerSpanOnThread> = marker_spans@;
    let ghost moved: Seq<MarkerSpanOnThread> = spans_of_file(thread_handle, Some(spans));
    let ghost given: Seq<MarkerSpan> = spans@;
    for span in iter: spans
        invariant
            iter.seq() == given,
            moved == given.map_values(|span: MarkerSpan| on_thread(thread_handle, span)),
            marker_spans@ == before + moved.take(iter.index()),
    {
        marker_spans.push(
            MarkerSpanOnThread {
                thread_handle,
                start_time: span.start_time,
                end_time: span.end_time,
                name: span.name,
            },
        );
    }
    assert(moved.take(given.len() as int) =~= moved);
}

impl<U, R, S, D> Process<U, R, S, D> {
    /// What becomes of a process that is renamed and takes over recycled handles.
    pub open spec fn renamed(self, name: String, process_handle: ProcessHandle, recycler: R) -> Self {
        Process {
            profile_process: process_handle,
            name: Some(name),
            jit_function_recycler: Some(recycler),
            ..self
        }
    }

    /// Whether asking for the memory counter gives `counter`, and turns `self` and
    /// `profile` into `after` and `profile_after`: a counter that was made before is given
    /// again, and else a new one is added to the profile.
    pub open spec fn gives_mem_counter(
        self,
        profile: Profile,
        counter: CounterHandle,
        after: Self,
        profile_after: Profile,
    ) -> bool {
        &&& after == (Process { mem_counter: Some(counter), ..self })
        &&& match self.mem_counter {
            Some(made) => counter == made && profile_after == profile,
            None => {
                &&& !profile_counters(profile).dom().contains(counter)
                &&& profile_counters(profile_after) == profile_counters(profile).insert(
                    counter,
                    (
                        self.profile_process,
                        "malloc"@,
                        "Memory"@,
                        "Amount of allocated memory"@,
                    ),
                )
            },
        }
    }

    /// A process that nothing has been recorded of yet.
    pub fn new(
        pid: i32,
        process_handle: ProcessHandle,
        name: Option<String>,
        jit_function_recycler: Option<R>,
    ) -> (process: Self) where U: Default
        ensures
            process.profile_process == process_handle,
            call_ensures(U::default, (), process.unwinder),
            process.lib_mapping_ops@.len() == 0,
            process.name == name,
            process.pid == pid,
            process.unresolved_samples@.len() == 0,
            process.jit_app_cache_mapping_ops@.len() == 0,
            process.jit_function_recycler == jit_function_recycler,
            process.marker_file_paths@.len() == 0,
            process.stack_read_cache@ == Map::<i32, ThreadStackSnapshots>::empty(),
            process.prev_mm_filepages_size == 0,
            process.prev_mm_anonpages_size == 0,
            process.prev_mm_swapents_size == 0,
            process.prev_mm_shmempages_size == 0,
            process.mem_counter is None,
            process.extra_event_instances@ == Map::<(u64, i32), ExtraEventInstance>::empty(),
    {
        Process {
            profile_process: process_handle,
            unwinder: U::default(),
            lib_mapping_ops: LibMappingOpQueue::default(),
            name,
            pid,
            unresolved_samples: Vec::new(),
            jit_app_cache_mapping_ops: LibMappingOpQueue::default(),
            jit_function_recycler,
            marker_file_paths: Vec::new(),
            stack_read_cache: HashMap::new(),
            prev_mm_filepages_size: 0,
            prev_mm_anonpages_size: 0,
            prev_mm_swapents_size: 0,
            prev_mm_shmempages_size: 0,
            mem_counter: None,
            extra_event_instances: HashMap::new(),
        }
    }

    /// Called when this process forks and creates a child process.
    pub fn clone_fork_data(&self) -> (fork_data: ProcessForkData<U, D>) where U: Clone, D: Clone
        ensures
            cloned(self.unwinder, fork_data.unwinder),
            all_cloned(self.lib_mapping_ops@, fork_data.lib_mapping_ops@),
    {
        ProcessForkData {
            unwinder: self.unwinder.clone(),
            lib_mapping_ops: self.lib_mapping_ops.clone(),
        }
    }

    /// Called on the child process that was created by the fork.
    pub fn adopt_fork_data_from_parent(&mut self, fork_data: ProcessForkData<U, D>)
        ensures
            *final(self) == (Process {
                unwinder: fork_data.unwinder,
                lib_mapping_ops: fork_data.lib_mapping_ops,
                ..*old(self)
            }),
    {
        self.unwinder = fork_data.unwinder;
        self.lib_mapping_ops = fork_data.lib_mapping_ops;
    }

    /// Renames the process, which takes over a recycled process handle and recycled JIT
    /// functions. What the process had before is given back for recycling, with what its
    /// threads had before, and so is its old name.
    pub fn rename_with_recycling<M, K>(
        &mut self,
        name: String,
        process_handle: ProcessHandle,
        jit_function_recycler: R,
        old_main_thread_recycling_data: M,
        old_thread_recycler: K,
    ) -> (old_data: (ProcessRecyclingData<M, K, R>, Option<String>))
        requires
            old(self).jit_function_recycler is Some,
        ensures
            *final(self) == old(self).renamed(name, process_handle, jit_function_recycler),
            old_data.0 == (ProcessRecyclingData {
                process_handle: old(self).profile_process,
                main_thread_recycling_data: old_main_thread_recycling_data,
                thread_recycler: old_thread_recycler,
                jit_function_recycler: old(self).jit_function_recycler->0,
            }),
            old_data.1 == old(self).name,
    {
        let old_process_handle: ProcessHandle = self.profile_process;
        self.profile_process = process_handle;
        let old_jit_function_recycler: R = self.jit_function_recycler.take().unwrap();
        self.jit_function_recycler = Some(jit_function_recycler);
        let old_name: Option<String> = self.name.take();
        self.name = Some(name);
        let recycling_data: ProcessRecyclingData<M, K, R> = ProcessRecyclingData {
            process_handle: old_process_handle,
            main_thread_recycling_data: old_main_thread_recycling_data,
            thread_recycler: old_thread_recycler,
            jit_function_recycler: old_jit_function_recycler,
        };
        (recycling_data, old_name)
    }

    /// Renames the process, which keeps its handles.
    pub fn rename_without_recycling(&mut self, name: String, profile: &mut Profile)
        requires
            profile_processes(*old(profile)).dom().contains(old(self).profile_process),
        ensures
            *final(self) == (Process { name: Some(name), ..*old(self) }),
            profile_processes(*final(profile)) == profile_processes(*old(profile)).insert(
                old(self).profile_process,
                (name@, profile_processes(*old(profile))[old(self).profile_process].1),
            ),
            profile_counters(*final(profile)) == profile_counters(*old(profile)),
            profile_strings(*final(profile)) == profile_strings(*old(profile)),
    {
        profile.set_process_name(self.profile_process, name.as_str());
        self.name = Some(name);
    }

    /// Notes a marker file that `thread` writes to.
    pub fn add_marker_file_path(
        &mut self,
        thread: ThreadHandle,
        path: PathBuf,
        lookup_dirs: Vec<PathBuf>,
    )
        ensures
            final(self).marker_file_paths@ == old(self).marker_file_paths@.push(
                (thread, path, lookup_dirs),
            ),
            *final(self) == (Process {
                marker_file_paths: final(self).marker_file_paths,
                ..*old(self)
            }),
    {
        self.marker_file_paths.push((thread, path, lookup_dirs));
    }

    /// Marks the process as ended.
    pub fn notify_dead(&self, end_time: Timestamp, profile: &mut Profile)
        requires
            profile_processes(*old(profile)).dom().contains(self.profile_process),
        ensures
            profile_processes(*final(profile)) == profile_processes(*old(profile)).insert(
                self.profile_process,
                (profile_processes(*old(profile))[self.profile_process].0, Some(end_time)),
            ),
            profile_counters(*final(profile)) == profile_counters(*old(profile)),
            profile_strings(*final(profile)) == profile_strings(*old(profile)),
    {
        profile.set_process_end_time(self.profile_process, end_time);
    }

    /// The pid under which to look for a perf map, if one is needed: samples that are
    /// still unresolved may be resolved through it.
    pub fn perf_map_pid(&self) -> (pid: Option<u32>)
        ensures
            pid == if self.unresolved_samples@.len() > 0 {
                Some(self.pid as u32)
            } else {
                None
            },
    {
        if self.unresolved_samples.len() > 0 {
            Some(
                #[verifier::truncate]
                (self.pid as u32),
            )
        } else {
            None
        }
    }

    /// Ends the recording of this process. `marker_spans` holds, for each marker file in
    /// turn, its spans, or `None` if it could not be read. The process's handles can be
    /// recycled if it has a name and recycles both its JIT functions and its threads.
    pub fn finish<M, K, P>(
        self,
        perf_map_mappings: Option<P>,
        jitdump_ops: Vec<LibMappingOpQueue<D>>,
        marker_spans: Vec<Option<Vec<MarkerSpan>>>,
        thread_recycler: Option<K>,
        main_thread_recycling_data: M,
    ) -> (finished: (ProcessSampleData<S, D, P>, Option<(String, ProcessRecyclingData<M, K, R>)>))
        requires
            marker_spans@.len() == self.marker_file_paths@.len(),
        ensures
            finished.0.profile_process == self.profile_process,
            finished.0.unresolved_samples == self.unresolved_samples,
            finished.0.lib_mapping_ops == self.lib_mapping_ops,
            finished.0.jitdump_ops@ == all_jit_ops(self.jit_app_cache_mapping_ops, jitdump_ops@),
            finished.0.perf_map_mappings == if self.unresolved_samples@.len() > 0 {
                perf_map_mappings
            } else {
                None
            },
            finished.0.marker_spans@ == spans_of_files(
                self.marker_file_paths@,
                marker_spans@,
                marker_spans@.len(),
            ),
            finished.1 == match (self.name, self.jit_function_recycler, thread_recycler) {
                (Some(name), Some(jit_function_recycler), Some(thread_recycler)) => Some(
                    (
                        name,
                        ProcessRecyclingData {
                            process_handle: self.profile_process,
                            main_thread_recycling_data,
                            thread_recycler,
                            jit_function_recycler,
                        },
                    ),
                ),
                _ => None,
            },
    {
        let perf_map_mappings: Option<P> = if self.unresolved_samples.len() > 0 {
            perf_map_mappings
        } else {
            None
        };

        let mut jitdump_ops: Vec<LibMappingOpQueue<D>> = jitdump_ops;
        let ghost from_files: Seq<LibMappingOpQueue<D>> = jitdump_ops@;
        if !self.jit_app_cache_mapping_ops.is_empty() {
            jitdump_ops.insert(0, self.jit_app_cache_mapping_ops);
            assert(jitdump_ops@ =~= seq![self.jit_app_cache_mapping_ops] + from_files);
        }

        let mut spans: Vec<MarkerSpanOnThread> = Vec::new();
        let ghost files: Seq<(ThreadHandle, PathBuf, Vec<PathBuf>)> = self.marker_file_paths@;
        let ghost given: Seq<Option<Vec<MarkerSpan>>> = marker_spans@;
        let mut file: usize = 0;
        for spans_of_this_file in iter: marker_spans
            invariant
                iter.seq() == given,
                file == iter.index(),
                given.len() == files.len(),
                files == self.marker_file_paths@,
                spans@ == spans_of_files(files, given, file as nat),
        {
            assert(file < self.marker_file_paths.len());
            if let Some(spans_of_this_file) = spans_of_this_file {
                append_spans(&mut spans, self.marker_file_paths[file].0, spans_of_this_file);
            }
            file += 1;
        }

        let process_sample_data: ProcessSampleData<S, D, P> = ProcessSampleData {
            profile_process: self.profile_process,
            unresolved_samples: self.unresolved_samples,
            lib_mapping_ops: self.lib_mapping_ops,
            jitdump_ops,
            perf_map_mappings,
            marker_spans: spans,
        };

        let process_recycling_data: Option<(String, ProcessRecyclingData<M, K, R>)> = match (
            self.name,
            self.jit_function_recycler,
            thread_recycler,
        ) {
            (Some(name), Some(jit_function_recycler), Some(thread_recycler)) => {
                let recycling_data: ProcessRecyclingData<M, K, R> = ProcessRecyclingData {
                    process_handle: self.profile_process,
                    main_thread_recycling_data,
                    thread_recycler,
                    jit_function_recycler,
                };
                Some((name, recycling_data))
            },
            _ => None,
        };

        (process_sample_data, process_recycling_data)
    }

    /// Adds the mapping of a library that was loaded from a file.
    pub fn add_regular_lib_mapping(
        &mut self,
        timestamp: u64,
        start_address: u64,
        end_address: u64,
        relative_address_at_start: u32,
        info: LibMappingInfo<D>,
    )
        ensures
            final(self).lib_mapping_ops@ == old(self).lib_mapping_ops@.push(
                (
                    timestamp,
                    LibMappingOp::Add(
                        LibMappingAdd {
                            start_avma: start_address,
                            end_avma: end_address,
                            relative_address_at_start,
                            info,
                        },
                    ),
                ),
            ),
            *final(self) == (Process {
                lib_mapping_ops: final(self).lib_mapping_ops,
                ..*old(self)
            }),
    {
        self.lib_mapping_ops.push(
            timestamp,
            LibMappingOp::Add(
                LibMappingAdd {
                    start_avma: start_address,
                    end_avma: end_address,
                    relative_address_at_start,
                    info,
                },
            ),
        );
    }

    /// What has to be found out about a JIT function before its mapping is added. Only a
    /// function with a name can be recycled, and only by a process that recycles.
    pub fn query_injected_jit_lib<'a>(
        &self,
        symbol_name: Option<&'a str>,
        start_address: u64,
        end_address: u64,
    ) -> (query: InjectedJitQuery<'a>)
        requires
            symbol_name is Some && self.jit_function_recycler is Some ==> start_address
                <= end_address,
        ensures
            query.recycle is Some <==> symbol_name is Some && self.jit_function_recycler is Some,
            query.recycle matches Some((name, code_size)) ==> {
                &&& name == symbol_name->0
                &&& code_size == (end_address - start_address) as u32
            },
            query.classify@ == match symbol_name {
                Some(name) => name@,
                None => ""@,
            },
    {
        let recycle: Option<(&'a str, u32)> = match symbol_name {
            Some(name) => if self.jit_function_recycler.is_some() {
                let code_size: u32 = #[verifier::truncate]
                ((end_address - start_address) as u32);
                Some((name, code_size))
            } else {
                None
            },
            None => None,
        };
        let classify: &'a str = match symbol_name {
            Some(name) => name,
            None => "",
        };
        InjectedJitQuery { recycle, classify }
    }

    /// Adds the mapping of a JIT function. `recycled` is the library and the relative
    /// address of the recycled function that takes its place, if there is one.
    pub fn add_lib_mapping_for_injected_jit_lib(
        &mut self,
        timestamp: u64,
        start_address: u64,
        end_address: u64,
        relative_address_at_start: u32,
        lib_handle: LibraryHandle,
        recycled: Option<(LibraryHandle, u32)>,
        details: D,
    )
        ensures
            final(self).lib_mapping_ops@ == old(self).lib_mapping_ops@.push(
                (
                    timestamp,
                    LibMappingOp::Add(
                        LibMappingAdd {
                            start_avma: start_address,
                            end_avma: end_address,
                            relative_address_at_start: match recycled {
                                Some((_, relative_address)) => relative_address,
                                None => relative_address_at_start,
                            },
                            info: LibMappingInfo {
                                lib_handle: match recycled {
                                    Some((lib_handle, _)) => lib_handle,
                                    None => lib_handle,
                                },
                                details,
                            },
                        },
                    ),
                ),
            ),
            *final(self) == (Process {
                lib_mapping_ops: final(self).lib_mapping_ops,
                ..*old(self)
            }),
    {
        let (lib_handle, relative_address_at_start): (LibraryHandle, u32) = match recycled {
            Some((lib_handle, relative_address)) => (lib_handle, relative_address),
            None => (lib_handle, relative_address_at_start),
        };
        self.lib_mapping_ops.push(
            timestamp,
            LibMappingOp::Add(
                LibMappingAdd {
                    start_avma: start_address,
                    end_avma: end_address,
                    relative_address_at_start,
                    info: LibMappingInfo::new_jit_function(lib_handle, details),
                },
            ),
        );
    }

    /// Adds the mapping of a function from the process's JIT app cache, which lies at
    /// `relative_address` in the synthetic library of such functions.
    pub fn add_jit_function(
        &mut self,
        timestamp_raw: u64,
        relative_address: u32,
        start_avma: u64,
        size: u32,
        info: LibMappingInfo<D>,
    )
        requires
            start_avma + size <= u64::MAX,
        ensures
            final(self).jit_app_cache_mapping_ops@ == old(self).jit_app_cache_mapping_ops@.push(
                (
                    timestamp_raw,
                    LibMappingOp::Add(
                        LibMappingAdd {
                            start_avma,
                            end_avma: (start_avma + size) as u64,
                            relative_address_at_start: relative_address,
                            info,
                        },
                    ),
                ),
            ),
            *final(self) == (Process {
                jit_app_cache_mapping_ops: final(self).jit_app_cache_mapping_ops,
                ..*old(self)
            }),
    {
        self.jit_app_cache_mapping_ops.push(
            timestamp_raw,
            LibMappingOp::Add(
                LibMappingAdd {
                    start_avma,
                    end_avma: start_avma + size as u64,
                    relative_address_at_start: relative_address,
                    info,
                },
            ),
        );
    }

    /// The process's memory counter, which is added to the profile when it is first asked
    /// for.
    pub fn get_or_make_mem_counter(&mut self, profile: &mut Profile) -> (counter: CounterHandle)
        requires
            old(self).mem_counter is None ==> profile_processes(*old(profile)).dom().contains(
                old(self).profile_process,
            ),
        ensures
            old(self).gives_mem_counter(*old(profile), counter, *final(self), *final(profile)),
            profile_processes(*final(profile)) == profile_processes(*old(profile)),
            profile_strings(*final(profile)) == profile_strings(*old(profile)),
    {
        match self.mem_counter {
            Some(counter) => counter,
            None => {
                let counter: CounterHandle = profile.add_counter(
                    self.profile_process,
                    "malloc",
                    "Memory",
                    "Amount of allocated memory",
                );
                self.mem_counter = Some(counter);
                counter
            },
        }
    }
}

} // verus!

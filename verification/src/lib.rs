//! Per-process state of a sampling profiler: the stack windows that samples leave
//! behind, the library mappings that samples are resolved against, and the handles
//! that tie a process to its profile.

mod filtering;
pub mod lifecycle_laws;
pub mod mappings;
pub mod process;
pub mod process_laws;
pub mod profile;
pub mod read_laws;
pub mod snapshot;
pub mod snapshot_laws;
pub mod thread_snapshots;
pub mod window_laws;
pub mod workload;
pub mod workload_laws;

# samply_process

Per-process state of a sampling profiler, verified with Verus.

- `snapshot`, `thread_snapshots`: the stack windows that samples leave behind, and how a
  read past the end of the current window goes on through earlier windows of the same
  thread whose overlap is word-for-word identical.
- `snapshot_laws`: what holds of windows across pushes, retirements and reads.
- `mappings`, `process`: library mappings, forks, renames, recycling, and what a finished
  process leaves behind.
- `process_laws`: what holds of processes across operations.
- `profile`: what is taken to hold of the profile crate that a process writes to.
- `workload`: a two-phase recursion that is deeper than one stack capture.

`app/` runs the workload, and pairs a process with its threads and its files.

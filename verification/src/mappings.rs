//! Library mappings, in the order in which they were made.

use fxprof_processed_profile::LibraryHandle;
use vstd::prelude::*;

verus! {

/// What is mapped: a library, and what the recorder knows of its code (`D`), such as the
/// category and the JS frame of a JIT function.
pub struct LibMappingInfo<D> {
    pub lib_handle: LibraryHandle,
    pub details: D,
}

impl<D> LibMappingInfo<D> {
    /// The mapping of one JIT function.
    pub fn new_jit_function(lib_handle: LibraryHandle, details: D) -> (info: Self)
        ensures
            info == (LibMappingInfo { lib_handle, details }),
    {
        LibMappingInfo { lib_handle, details }
    }
}

/// A library that gets mapped at `[start_avma, end_avma)`.
pub struct LibMappingAdd<D> {
    pub start_avma: u64,
    pub end_avma: u64,
    pub relative_address_at_start: u32,
    pub info: LibMappingInfo<D>,
}

/// A change to the mapped libraries.
pub enum LibMappingOp<D> {
    Add(LibMappingAdd<D>),
}

/// Changes to the mapped libraries, each with its time, in the order in which they were
/// reported.
pub struct LibMappingOpQueue<D> {
    ops: Vec<(u64, LibMappingOp<D>)>,
}

impl<D> View for LibMappingOpQueue<D> {
    type V = Seq<(u64, LibMappingOp<D>)>;

    closed spec fn view(&self) -> Seq<(u64, LibMappingOp<D>)> {
        self.ops@
    }
}

/// Whether `copy` is `op` with its details cloned.
pub open spec fn is_clone_of<D: Clone>(
    op: (u64, LibMappingOp<D>),
    copy: (u64, LibMappingOp<D>),
) -> bool {
    let LibMappingOp::Add(from) = op.1;
    let LibMappingOp::Add(to) = copy.1;
    &&& copy.0 == op.0
    &&& to.start_avma == from.start_avma
    &&& to.end_avma == from.end_avma
    &&& to.relative_address_at_start == from.relative_address_at_start
    &&& to.info.lib_handle == from.info.lib_handle
    &&& cloned(from.info.details, to.info.details)
}

/// Whether `copy` holds clones of what `ops` holds, in the same order.
pub open spec fn all_cloned<D: Clone>(
    ops: Seq<(u64, LibMappingOp<D>)>,
    copy: Seq<(u64, LibMappingOp<D>)>,
) -> bool {
    &&& copy.len() == ops.len()
    &&& forall|i: int| 0 <= i < ops.len() ==> is_clone_of(#[trigger] ops[i], #[trigger] copy[i])
}

impl<D> Default for LibMappingOpQueue<D> {
    fn default() -> (queue: Self)
        ensures
            queue@ == Seq::<(u64, LibMappingOp<D>)>::empty(),
    {
        LibMappingOpQueue { ops: Vec::new() }
    }
}

impl<D: Clone> Clone for LibMappingOpQueue<D> {
    fn clone(&self) -> (copy: Self)
        ensures
            all_cloned(self@, copy@),
    {
        let mut ops: Vec<(u64, LibMappingOp<D>)> = Vec::new();
        let mut i: usize = 0;
        while i < self.ops.len()
            invariant
                i <= self.ops@.len(),
                all_cloned(self.ops@.take(i as int), ops@),
            decreases self.ops@.len() - i,
        {
            let LibMappingOp::Add(add) = &self.ops[i].1;
            let info: LibMappingInfo<D> = LibMappingInfo {
                lib_handle: add.info.lib_handle,
                details: add.info.details.clone(),
            };
            let copy: LibMappingAdd<D> = LibMappingAdd {
                start_avma: add.start_avma,
                end_avma: add.end_avma,
                relative_address_at_start: add.relative_address_at_start,
                info,
            };
            ops.push((self.ops[i].0, LibMappingOp::Add(copy)));
            i += 1;
        }
        assert(self.ops@.take(i as int) =~= self.ops@);
        LibMappingOpQueue { ops }
    }
}

impl<D> LibMappingOpQueue<D> {
    /// The changes, in order.
    pub fn ops(&self) -> (ops: &Vec<(u64, LibMappingOp<D>)>)
        ensures
            ops@ == self@,
    {
        &self.ops
    }

    pub fn is_empty(&self) -> (empty: bool)
        ensures
            empty == (self@.len() == 0),
    {
        self.ops.len() == 0
    }

    /// Adds the latest change.
    pub fn push(&mut self, timestamp: u64, op: LibMappingOp<D>)
        ensures
            final(self)@ == old(self)@.push((timestamp, op)),
    {
        self.ops.push((timestamp, op));
    }
}

} // verus!

//! What holds of processes across operations.

use crate::mappings::{all_cloned, is_clone_of, LibMappingOp};
use crate::process::{Process, ProcessForkData};
use crate::profile::interns;
use fxprof_processed_profile::{CounterHandle, ProcessHandle, Profile, StringHandle};
use vstd::prelude::*;

verus! {

/// Renaming a process back, with what the first renaming gave back, undoes the renaming.
pub proof fn renaming_back_restores<U, R, S, D>(
    process: Process<U, R, S, D>,
    name: String,
    process_handle: ProcessHandle,
    recycler: R,
)
    requires
        process.name is Some,
        process.jit_function_recycler is Some,
    ensures
        process.renamed(name, process_handle, recycler).renamed(
            process.name->0,
            process.profile_process,
            process.jit_function_recycler->0,
        ) == process,
{
}

/// A process has one memory counter: asking for it again gives the same counter and adds
/// nothing to the profile.
pub proof fn mem_counter_is_made_once<U, R, S, D>(
    process: Process<U, R, S, D>,
    profile: Profile,
    counter: CounterHandle,
    between: Process<U, R, S, D>,
    profile_between: Profile,
    counter_again: CounterHandle,
    after: Process<U, R, S, D>,
    profile_after: Profile,
)
    requires
        process.gives_mem_counter(profile, counter, between, profile_between),
        between.gives_mem_counter(profile_between, counter_again, after, profile_after),
    ensures
        counter_again == counter,
        after == between,
        profile_after == profile_between,
{
}

/// A child that adopts its parent's fork data has clones of its parent's unwinder and
/// mappings; its mappings are its parent's if cloning the details does not change them.
pub proof fn forked_child_is_like_its_parent<U: Clone, R, S, D: Clone>(
    parent: Process<U, R, S, D>,
    fork_data: ProcessForkData<U, D>,
    child: Process<U, R, S, D>,
)
    requires
        cloned(parent.unwinder, fork_data.unwinder),
        all_cloned(parent.lib_mapping_ops@, fork_data.lib_mapping_ops@),
        child.unwinder == fork_data.unwinder,
        child.lib_mapping_ops == fork_data.lib_mapping_ops,
    ensures
        cloned(parent.unwinder, child.unwinder),
        all_cloned(parent.lib_mapping_ops@, child.lib_mapping_ops@),
        (forall|a: D, b: D| cloned(a, b) ==> a == b) ==> child.lib_mapping_ops@
            == parent.lib_mapping_ops@,
{
    if forall|a: D, b: D| cloned(a, b) ==> a == b {
        let ops = parent.lib_mapping_ops@;
        let copy = child.lib_mapping_ops@;
        assert forall|i: int| 0 <= i < ops.len() implies ops[i] == copy[i] by {
            assert(is_clone_of(ops[i], copy[i]));
            let LibMappingOp::Add(from) = ops[i].1;
            let LibMappingOp::Add(to) = copy[i].1;
            assert(from.info.details == to.info.details);
        }
        assert(ops =~= copy);
    }
}

/// A string has one handle: giving it out again gives the same handle and adds nothing.
pub proof fn string_has_one_handle(
    strings: Map<StringHandle, Seq<char>>,
    s: Seq<char>,
    handle: StringHandle,
    between: Map<StringHandle, Seq<char>>,
    handle_again: StringHandle,
    after: Map<StringHandle, Seq<char>>,
)
    requires
        interns(strings, s, handle, between),
        interns(between, s, handle_again, after),
    ensures
        handle_again == handle,
        after == between,
{
    assert(between.dom().contains(handle) && between[handle] == s);
    assert(after =~= between);
}

/// Giving out a handle leaves every string that had one alone.
pub proof fn interning_keeps_strings(
    strings: Map<StringHandle, Seq<char>>,
    s: Seq<char>,
    handle: StringHandle,
    after: Map<StringHandle, Seq<char>>,
    known: StringHandle,
)
    requires
        interns(strings, s, handle, after),
        strings.dom().contains(known),
    ensures
        after.dom().contains(known),
        after[known] == strings[known],
{
}

} // verus!

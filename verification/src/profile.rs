//! The profile that a process writes to, as far as a process writes to it.
//!
//! Nothing here is proved: the types and methods below belong to the
//! `fxprof_processed_profile` crate, and each declaration says what is taken to hold of
//! one of them.

use fxprof_processed_profile::{
    CounterHandle, LibraryHandle, ProcessHandle, Profile, StringHandle, ThreadHandle, Timestamp,
};
use vstd::prelude::*;

verus! {

/// `fxprof_processed_profile::Profile`, known by what the names below say it holds.
#[verifier::external_type_specification]
#[verifier::external_body]
pub struct ExProfile(Profile);

/// `fxprof_processed_profile::ProcessHandle`, carried as it is.
#[verifier::external_type_specification]
#[verifier::external_body]
pub struct ExProcessHandle(ProcessHandle);

/// `fxprof_processed_profile::ThreadHandle`, carried as it is.
#[verifier::external_type_specification]
#[verifier::external_body]
pub struct ExThreadHandle(ThreadHandle);

/// `fxprof_processed_profile::CounterHandle`, carried as it is.
#[verifier::external_type_specification]
#[verifier::external_body]
pub struct ExCounterHandle(CounterHandle);

/// `fxprof_processed_profile::LibraryHandle`, carried as it is.
#[verifier::external_type_specification]
#[verifier::external_body]
pub struct ExLibraryHandle(LibraryHandle);

/// `fxprof_processed_profile::StringHandle`, carried as it is.
#[verifier::external_type_specification]
#[verifier::external_body]
pub struct ExStringHandle(StringHandle);

/// `fxprof_processed_profile::Timestamp`, carried as it is.
#[verifier::external_type_specification]
#[verifier::external_body]
pub struct ExTimestamp(Timestamp);

/// The processes of a profile: for each handle that the profile gave out, the name and
/// the end time of the process.
pub uninterp spec fn profile_processes(profile: Profile) -> Map<
    ProcessHandle,
    (Seq<char>, Option<Timestamp>),
>;

/// The counters of a profile: for each handle that the profile gave out, the process that
/// the counter belongs to, its name, its category and its description.
pub uninterp spec fn profile_counters(profile: Profile) -> Map<
    CounterHandle,
    (ProcessHandle, Seq<char>, Seq<char>, Seq<char>),
>;

/// The strings of a profile: for each handle that the profile gave out, the string.
pub uninterp spec fn profile_strings(profile: Profile) -> Map<StringHandle, Seq<char>>;

/// Whether there is a handle left for one more string: handles are 32 bits wide.
pub open spec fn has_free_string_handle(strings: Map<StringHandle, Seq<char>>) -> bool {
    strings.len() < 0x1_0000_0000
}

/// Whether giving out `handle` for `s` turns the strings `before` into `after`: if `s` was
/// there, under any handle, `handle` is that handle, and else it is a new one.
pub open spec fn interns(
    before: Map<StringHandle, Seq<char>>,
    s: Seq<char>,
    handle: StringHandle,
    after: Map<StringHandle, Seq<char>>,
) -> bool {
    &&& after == before.insert(handle, s)
    &&& before.dom().contains(handle) ==> before[handle] == s
    &&& forall|known: StringHandle| #[trigger]
        before.dom().contains(known) && before[known] == s ==> known == handle
}

/// `Profile::set_process_name` replaces the name of one process and touches nothing else
/// of what is named here. It panics on a handle that is not of this profile.
pub assume_specification[ Profile::set_process_name ](
    profile: &mut Profile,
    process: ProcessHandle,
    name: &str,
)
    requires
        profile_processes(*old(profile)).dom().contains(process),
    ensures
        profile_processes(*final(profile)) == profile_processes(*old(profile)).insert(
            process,
            (name@, profile_processes(*old(profile))[process].1),
        ),
        profile_counters(*final(profile)) == profile_counters(*old(profile)),
        profile_strings(*final(profile)) == profile_strings(*old(profile)),
;

/// `Profile::set_process_end_time` replaces the end time of one process and touches
/// nothing else of what is named here. It panics on a handle that is not of this profile.
pub assume_specification[ Profile::set_process_end_time ](
    profile: &mut Profile,
    process: ProcessHandle,
    end_time: Timestamp,
)
    requires
        profile_processes(*old(profile)).dom().contains(process),
    ensures
        profile_processes(*final(profile)) == profile_processes(*old(profile)).insert(
            process,
            (profile_processes(*old(profile))[process].0, Some(end_time)),
        ),
        profile_counters(*final(profile)) == profile_counters(*old(profile)),
        profile_strings(*final(profile)) == profile_strings(*old(profile)),
;

/// `Profile::add_counter` adds one counter, under a handle not given out before, and
/// touches nothing else of what is named here. It panics on a handle that is not of this
/// profile.
pub assume_specification[ Profile::add_counter ](
    profile: &mut Profile,
    process: ProcessHandle,
    name: &str,
    category: &str,
    description: &str,
) -> (handle: CounterHandle)
    requires
        profile_processes(*old(profile)).dom().contains(process),
    ensures
        !profile_counters(*old(profile)).dom().contains(handle),
        profile_counters(*final(profile)) == profile_counters(*old(profile)).insert(
            handle,
            (process, name@, category@, description@),
        ),
        profile_processes(*final(profile)) == profile_processes(*old(profile)),
        profile_strings(*final(profile)) == profile_strings(*old(profile)),
;

/// `Profile::intern_string` gives out the handle of a string: the one that the string
/// already has, or else a new one, and touches nothing else of what is named here.
/// This is said only of a profile that still has a handle left.
pub assume_specification[ Profile::intern_string ](profile: &mut Profile, s: &str) -> (handle:
    StringHandle)
    ensures
        has_free_string_handle(profile_strings(*old(profile))) ==> interns(
            profile_strings(*old(profile)),
            s@,
            handle,
            profile_strings(*final(profile)),
        ),
        profile_processes(*final(profile)) == profile_processes(*old(profile)),
        profile_counters(*final(profile)) == profile_counters(*old(profile)),
;

} // verus!

//! Port terminator: find the process owning a port and deliver a forceful
//! kill signal — unless the owner is a protected, container-managed process,
//! which is refused and never signaled.

use vstd::prelude::*;
use crate::ports::{find_owner_of_port, spec_binds_port};
use crate::process::{ProcessRecord, ProcessSockets};
use crate::response::ResponseResult;
use crate::strutil::str_starts_with;

verus! {

/// Whether a command name denotes a container-runtime component. Such a
/// process is excluded from direct forceful termination: its lifecycle is
/// owned by the container manager.
pub open spec fn spec_is_protected(command: Seq<char>) -> bool {
    "com.docker"@.is_prefix_of(command)
}

/// Checks a command name against the reserved container-runtime prefix.
pub fn is_protected_command(command: &str) -> (r: bool)
    ensures
        r == spec_is_protected(command@),
{
    str_starts_with(command, "com.docker")
}

/// Relies on `nix::sys::signal::kill`: requests unconditional forceful
/// termination (SIGKILL) of the process with this id, returning whether the
/// kernel accepted the signal call. The id must lie in the positive `i32`
/// range: the kernel reads an id of zero as the caller's process group and a
/// negative one as a group or every process, which is not "the process with
/// this id". Acceptance is no proof that the process has exited by the time
/// the call returns, and the outcome depends on the host's live process
/// table and the caller's privileges, so nothing more is promised of the
/// result.
#[verifier::external_body]
fn kill_process(pid: u32) -> bool
    requires
        1 <= pid <= i32::MAX as u32,
{
    nix::sys::signal::kill(
        nix::unistd::Pid::from_raw(pid as i32),
        nix::sys::signal::Signal::SIGKILL,
    ).is_ok()
}

/// No process among the snapshots binds `port`.
pub open spec fn spec_no_owner(procs: Seq<ProcessSockets>, port: u16) -> bool {
    forall|j: int| 0 <= j < procs.len() ==> !spec_binds_port(procs[j], port)
}

/// Index of the first process, in enumeration order, that binds `port`.
pub open spec fn spec_first_owner(procs: Seq<ProcessSockets>, port: u16) -> Option<int>
    decreases procs.len(),
{
    if procs.len() == 0 {
        None
    } else if spec_binds_port(procs[0], port) {
        Some(0int)
    } else {
        match spec_first_owner(procs.drop_first(), port) {
            Some(i) => Some(i + 1),
            None => None,
        }
    }
}

/// An index that binds the port, below which none does, is the first owner.
pub proof fn lemma_first_owner_at(procs: Seq<ProcessSockets>, port: u16, i: int)
    requires
        0 <= i < procs.len(),
        spec_binds_port(procs[i], port),
        forall|j: int| 0 <= j < i ==> !spec_binds_port(procs[j], port),
    ensures
        spec_first_owner(procs, port) == Some(i),
    decreases procs.len(),
{
    if i > 0 {
        assert(!spec_binds_port(procs[0], port));
        assert(procs.drop_first()[i - 1] == procs[i]);
        assert forall|j: int| 0 <= j < i - 1 implies !spec_binds_port(
            #[trigger] procs.drop_first()[j],
            port,
        ) by {
            assert(procs.drop_first()[j] == procs[j + 1]);
        }
        lemma_first_owner_at(procs.drop_first(), port, i - 1);
    }
}

/// Where no process binds the port there is no first owner.
pub proof fn lemma_first_owner_absent(procs: Seq<ProcessSockets>, port: u16)
    requires
        spec_no_owner(procs, port),
    ensures
        spec_first_owner(procs, port) is None,
    decreases procs.len(),
{
    if procs.len() > 0 {
        assert(!spec_binds_port(procs[0], port));
        assert forall|j: int| 0 <= j < procs.drop_first().len() implies !spec_binds_port(
            #[trigger] procs.drop_first()[j],
            port,
        ) by {
            assert(procs.drop_first()[j] == procs[j + 1]);
        }
        lemma_first_owner_absent(procs.drop_first(), port);
    }
}

/// Applies the termination policy to one process record: a protected
/// (container-runtime) command is refused without any signal; otherwise the
/// forceful kill signal is delivered and the outcome reported. Success means
/// the kernel accepted the signal call, no more. An id outside the positive
/// `i32` range names no single process for the kernel, so no signal is
/// issued for it and delivery reads as failed.
pub fn try_to_kill(record: &ProcessRecord) -> (r: ResponseResult<()>)
    ensures
        spec_is_protected(record.command@) ==> !r.success && r.error@
            == "Docker process. Stop the container manually"@,
        !spec_is_protected(record.command@) && r.success ==> r.error@ == Seq::<char>::empty(),
        !spec_is_protected(record.command@) && !r.success ==> r.error@
            == "Failed to kill process"@,
        !spec_is_protected(record.command@) && !(1 <= record.pid && record.pid <= i32::MAX as u32)
            ==> !r.success && r.error@ == "Failed to kill process"@,
{
    if is_protected_command(record.command.as_str()) {
        ResponseResult {
            success: false,
            error: "Docker process. Stop the container manually".to_owned(),
            result: (),
        }
    } else if 1 <= record.pid && record.pid <= i32::MAX as u32 {
        let delivered = kill_process(record.pid);
        if delivered {
            ResponseResult { success: true, error: String::new(), result: () }
        } else {
            ResponseResult { success: false, error: "Failed to kill process".to_owned(), result: () }
        }
    } else {
        ResponseResult { success: false, error: "Failed to kill process".to_owned(), result: () }
    }
}

/// Terminates the process owning `port_to_kill` among the given snapshots.
///
/// With no owning process the outcome is an explicit "No processes found"
/// failure and no signal is issued; a protected owner is refused, also
/// without a signal; otherwise the owner is sent the forceful kill signal
/// and success reports whether the kernel accepted it.
pub fn process_killer(processes: &Vec<ProcessSockets>, port_to_kill: u16) -> (r: ResponseResult<
    (),
>)
    ensures
        match spec_first_owner(processes@, port_to_kill) {
            None => !r.success && r.error@ == "No processes found"@,
            Some(i) => {
                let command = processes@[i].record.command@;
                let pid = processes@[i].record.pid;
                &&& (spec_is_protected(command) ==> !r.success && r.error@
                    == "Docker process. Stop the container manually"@)
                &&& (!spec_is_protected(command) && r.success ==> r.error@
                    == Seq::<char>::empty())
                &&& (!spec_is_protected(command) && !r.success ==> r.error@
                    == "Failed to kill process"@)
                &&& (!spec_is_protected(command) && !(1 <= pid && pid <= i32::MAX as u32)
                    ==> !r.success && r.error@ == "Failed to kill process"@)
            },
        },
        spec_no_owner(processes@, port_to_kill) ==> !r.success && r.error@
            == "No processes found"@,
{
    match find_owner_of_port(processes, port_to_kill) {
        None => {
            proof {
                lemma_first_owner_absent(processes@, port_to_kill);
            }
            ResponseResult { success: false, error: "No processes found".to_owned(), result: () }
        },
        Some(i) => {
            proof {
                lemma_first_owner_at(processes@, port_to_kill, i as int);
            }
            try_to_kill(&processes[i].record)
        },
    }
}

} // verus!

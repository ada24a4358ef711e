//! Process enumeration: snapshot records of live processes and the trusted
//! calls that list them.
//!
//! A record is created fresh on every enumeration pass and never mutated; a
//! process id is not a stable identity beyond one pass.

use vstd::prelude::*;
use crate::sockets::SocketDescriptor;

verus! {

/// One snapshot of a live process.
pub struct ProcessRecord {
    /// Host-assigned process id; may be reused across processes over time.
    pub pid: u32,
    /// Process name, subject to a host-imposed length limit.
    pub name: String,
    /// Command name as recorded by the kernel; the termination policy's
    /// protection check inspects this field.
    pub command: String,
    /// Descriptor-table capacity: the number of file-descriptor slots to scan.
    pub nfiles: usize,
}

/// A process snapshot together with its scanned descriptor-table entries.
///
/// A process whose descriptor table could not be read at all carries an empty
/// list here: it simply yields no bindings, which is no error for the caller.
pub struct ProcessSockets {
    pub record: ProcessRecord,
    pub descriptors: Vec<SocketDescriptor>,
}

/// Relies on `libproc::processes::pids_by_type` with the all-processes
/// filter: lists the ids of the processes visible at the caller's privilege
/// level; when the underlying OS call fails the list is empty, never an
/// error.
#[verifier::external_body]
fn list_all_pids() -> Vec<u32> {
    libproc::processes::pids_by_type(libproc::processes::ProcFilter::All).unwrap_or_default()
}

/// Relies on `psutil::process::Process::new` and `Process::name`: the name of
/// the process currently holding this id, if its info record can be fetched.
#[verifier::external_body]
fn process_name_of_pid(pid: u32) -> Option<String> {
    match psutil::process::Process::new(pid) {
        Ok(p) => p.name().ok(),
        Err(_) => None,
    }
}

/// Enumerates all visible processes and collects the names of those whose
/// info record can still be fetched. A process that disappears between
/// id-listing and name-fetch (a race with process exit) is silently skipped:
/// that is expected under concurrent process churn, not an error.
pub fn collect_process_names() -> Vec<String> {
    let pids = list_all_pids();
    let mut names: Vec<String> = Vec::new();
    let mut i: usize = 0;
    while i < pids.len()
        invariant
            i <= pids@.len(),
        decreases pids@.len() - i,
    {
        match process_name_of_pid(pids[i]) {
            Some(name) => names.push(name),
            None => (),
        }
        i = i + 1;
    }
    names
}

} // verus!

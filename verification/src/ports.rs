//! Port lookup: which local ports the processes matching a name prefix have
//! bound, and which process owns a given port.

use vstd::prelude::*;
use crate::process::ProcessSockets;
use crate::response::ResponseResult;
use crate::sockets::{PortBinding, SocketDescriptor, resolve_sockets, spec_resolved};
use crate::strutil::str_starts_with;

verus! {

/// The local ports among a descriptor list's resolved bindings, in order.
pub open spec fn spec_binding_ports(ds: Seq<SocketDescriptor>) -> Seq<u16> {
    spec_resolved(ds).map_values(|b: PortBinding| b.port)
}

/// Whether a process's name starts with the search prefix (case-sensitive;
/// the empty prefix matches every process).
pub open spec fn spec_name_matches(p: ProcessSockets, prefix: Seq<char>) -> bool {
    prefix.is_prefix_of(p.record.name@)
}

/// Whether one of a process's sockets is bound to `port`, on either protocol.
pub open spec fn spec_binds_port(p: ProcessSockets, port: u16) -> bool {
    spec_binding_ports(p.descriptors@).contains(port)
}

/// Every local port of every process whose name matches the prefix, in scan
/// order; a port bound by several matching sockets appears several times.
pub open spec fn spec_ports_for_prefix(procs: Seq<ProcessSockets>, prefix: Seq<char>) -> Seq<u16>
    decreases procs.len(),
{
    if procs.len() == 0 {
        Seq::empty()
    } else {
        spec_ports_for_prefix(procs.drop_last(), prefix) + if spec_name_matches(
            procs.last(),
            prefix,
        ) {
            spec_binding_ports(procs.last().descriptors@)
        } else {
            Seq::empty()
        }
    }
}

/// Collects, in scan order, every local port bound by a process whose name
/// starts with `search_value`; duplicates are kept here and removed by
/// [`find_ports_by_name_prefix`].
pub fn find_port_by_name(processes: &Vec<ProcessSockets>, search_value: &str) -> (r: Vec<u16>)
    ensures
        r@ == spec_ports_for_prefix(processes@, search_value@),
{
    let mut ports: Vec<u16> = Vec::new();
    let mut i: usize = 0;
    while i < processes.len()
        invariant
            i <= processes@.len(),
            ports@ == spec_ports_for_prefix(processes@.take(i as int), search_value@),
        decreases processes@.len() - i,
    {
        proof {
            assert(processes@.take(i + 1).drop_last() =~= processes@.take(i as int));
            assert(processes@.take(i + 1).last() == processes@[i as int]);
        }
        if str_starts_with(processes[i].record.name.as_str(), search_value) {
            let bindings = resolve_sockets(&processes[i].descriptors);
            let ghost bound = spec_binding_ports(processes@[i as int].descriptors@);
            let mut j: usize = 0;
            while j < bindings.len()
                invariant
                    j <= bindings@.len(),
                    bindings@ == spec_resolved(processes@[i as int].descriptors@),
                    i < processes@.len(),
                    bound == spec_binding_ports(processes@[i as int].descriptors@),
                    ports@ == spec_ports_for_prefix(processes@.take(i as int), search_value@)
                        + bound.take(j as int),
                decreases bindings@.len() - j,
            {
                proof {
                    assert(bound.take(j + 1) =~= bound.take(j as int).push(bound[j as int]));
                }
                ports.push(bindings[j].port);
                j = j + 1;
            }
            proof {
                assert(bound.take(bound.len() as int) =~= bound);
            }
        }
        i = i + 1;
    }
    proof {
        assert(processes@.take(processes@.len() as int) =~= processes@);
    }
    ports
}

/// Membership test on a list of ports.
fn contains_port(ports: &Vec<u16>, port: u16) -> (r: bool)
    ensures
        r == ports@.contains(port),
{
    let mut i: usize = 0;
    while i < ports.len()
        invariant
            i <= ports@.len(),
            forall|j: int| 0 <= j < i ==> ports@[j] != port,
        decreases ports@.len() - i,
    {
        if ports[i] == port {
            return true;
        }
        i = i + 1;
    }
    false
}

/// The deduplicated set of local ports bound by processes whose name starts
/// with `search_value`. The result holds each such port exactly once; the
/// order of the remaining entries carries no meaning (set semantics).
pub fn find_ports_by_name_prefix(processes: &Vec<ProcessSockets>, search_value: &str) -> (r: Vec<
    u16,
>)
    ensures
        forall|p: u16|
            r@.contains(p) <==> spec_ports_for_prefix(processes@, search_value@).contains(p),
        forall|i: int, j: int| 0 <= i < j < r@.len() ==> r@[i] != r@[j],
{
    let all = find_port_by_name(processes, search_value);
    let mut r: Vec<u16> = Vec::new();
    let mut i: usize = 0;
    while i < all.len()
        invariant
            i <= all@.len(),
            forall|p: u16| r@.contains(p) <==> all@.take(i as int).contains(p),
            forall|a: int, b: int| 0 <= a < b < r@.len() ==> r@[a] != r@[b],
        decreases all@.len() - i,
    {
        let ghost old_r = r@;
        let present = contains_port(&r, all[i]);
        if !present {
            r.push(all[i]);
        }
        proof {
            assert forall|p: u16| r@.contains(p) <==> all@.take(i + 1).contains(p) by {
                let s1 = all@.take(i as int);
                let s2 = all@.take(i + 1);
                if r@.contains(p) {
                    let k = choose|k: int| 0 <= k < r@.len() && r@[k] == p;
                    if k < old_r.len() {
                        assert(old_r[k] == p);
                        assert(old_r.contains(p));
                        assert(s1.contains(p));
                        let m = choose|m: int| 0 <= m < s1.len() && s1[m] == p;
                        assert(s2[m] == p);
                        assert(s2.contains(p));
                    } else {
                        assert(p == all@[i as int]);
                        assert(s2[i as int] == p);
                        assert(s2.contains(p));
                    }
                }
                if s2.contains(p) {
                    let k = choose|k: int| 0 <= k < s2.len() && s2[k] == p;
                    if k < i {
                        assert(s1[k] == p);
                        assert(s1.contains(p));
                        assert(old_r.contains(p));
                        let m = choose|m: int| 0 <= m < old_r.len() && old_r[m] == p;
                        assert(r@[m] == p);
                        assert(r@.contains(p));
                    } else {
                        assert(p == all@[i as int]);
                        if present {
                            assert(old_r.contains(p));
                            let m = choose|m: int| 0 <= m < old_r.len() && old_r[m] == p;
                            assert(r@[m] == p);
                        } else {
                            assert(r@[old_r.len() as int] == p);
                        }
                        assert(r@.contains(p));
                    }
                }
            }
            if !present {
                assert forall|a: int, b: int| 0 <= a < b < r@.len() implies r@[a] != r@[b] by {
                    if b == old_r.len() {
                        assert(old_r[a] == r@[a]);
                        assert(old_r.contains(old_r[a]));
                    }
                }
            }
        }
        i = i + 1;
    }
    proof {
        assert(all@.take(all@.len() as int) =~= all@);
    }
    r
}

/// Uniform envelope around the deduplicated prefix search; always succeeds
/// with an empty error string.
pub fn handle_search(processes: &Vec<ProcessSockets>, search: &str) -> (r: ResponseResult<
    Vec<u16>,
>)
    ensures
        r.success,
        r.error@ == Seq::<char>::empty(),
        forall|p: u16|
            r.result@.contains(p) <==> spec_ports_for_prefix(processes@, search@).contains(p),
        forall|i: int, j: int| 0 <= i < j < r.result@.len() ==> r.result@[i] != r.result@[j],
{
    let result = find_ports_by_name_prefix(processes, search);
    ResponseResult { success: true, result, error: String::new() }
}

/// Index, in enumeration order, of the first process among the snapshots that
/// binds `port`. When several processes bind the same port only the first in
/// the given order is observed; the enumeration order itself is not
/// guaranteed stable across scans, so which owner that is stays unspecified.
pub fn find_owner_of_port(processes: &Vec<ProcessSockets>, port: u16) -> (r: Option<usize>)
    ensures
        match r {
            Some(i) => i < processes@.len() && spec_binds_port(processes@[i as int], port)
                && forall|j: int| 0 <= j < i ==> !spec_binds_port(processes@[j], port),
            None => forall|j: int|
                0 <= j < processes@.len() ==> !spec_binds_port(processes@[j], port),
        },
{
    let mut i: usize = 0;
    while i < processes.len()
        invariant
            i <= processes@.len(),
            forall|j: int| 0 <= j < i ==> !spec_binds_port(processes@[j], port),
        decreases processes@.len() - i,
    {
        let bindings = resolve_sockets(&processes[i].descriptors);
        let mut j: usize = 0;
        while j < bindings.len()
            invariant
                j <= bindings@.len(),
                i < processes@.len(),
                bindings@ == spec_resolved(processes@[i as int].descriptors@),
                forall|k: int| 0 <= k < i ==> !spec_binds_port(processes@[k], port),
                forall|k: int|
                    0 <= k < j ==> spec_binding_ports(processes@[i as int].descriptors@)[k]
                        != port,
            decreases bindings@.len() - j,
        {
            if bindings[j].port == port {
                proof {
                    let s = spec_binding_ports(processes@[i as int].descriptors@);
                    assert(s[j as int] == port);
                    assert(s.contains(port)) by {
                        assert(0 <= j < s.len() && s[j as int] == port);
                    }
                }
                return Some(i);
            }
            j = j + 1;
        }
        proof {
            assert(!spec_binds_port(processes@[i as int], port));
        }
        i = i + 1;
    }
    None
}

} // verus!

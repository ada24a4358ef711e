use lurge::ports::{find_owner_of_port, find_port_by_name, find_ports_by_name_prefix, handle_search};
use lurge::process::{ProcessRecord, ProcessSockets};
use lurge::sockets::{FdPayload, SocketDescriptor};
use lurge::terminate::{process_killer, try_to_kill};

const IPPROTO_UDP: i32 = 17;

fn swapped(port: u16) -> u16 {
    port.rotate_left(8)
}

fn tcp_process(pid: u32, name: &str, command: &str, ports: &[u16]) -> ProcessSockets {
    let descriptors = ports
        .iter()
        .enumerate()
        .map(|(i, p)| SocketDescriptor {
            fd: i as i32,
            payload: FdPayload::Tcp { raw_local_port: swapped(*p) },
        })
        .collect::<Vec<_>>();
    ProcessSockets {
        record: ProcessRecord {
            pid,
            name: name.to_string(),
            command: command.to_string(),
            nfiles: descriptors.len(),
        },
        descriptors,
    }
}

#[test]
fn prefix_search_collects_matching_ports() {
    let procs = vec![
        tcp_process(100, "node", "node", &[3000]),
        tcp_process(101, "nginx", "nginx", &[80, 8080]),
        tcp_process(102, "postgres", "postgres", &[5432]),
    ];
    assert_eq!(find_port_by_name(&procs, "n"), vec![3000, 80, 8080]);
    assert_eq!(find_port_by_name(&procs, "nginx"), vec![80, 8080]);
    assert_eq!(find_port_by_name(&procs, "zzz"), Vec::<u16>::new());
}

#[test]
fn prefix_search_empty_prefix_matches_every_process() {
    let procs = vec![
        tcp_process(100, "node", "node", &[3000]),
        tcp_process(101, "postgres", "postgres", &[5432]),
    ];
    assert_eq!(find_port_by_name(&procs, ""), vec![3000, 5432]);
}

#[test]
fn prefix_search_never_returns_duplicate_ports() {
    // Two processes bind 8080, and one binds it twice over two sockets.
    let procs = vec![
        tcp_process(100, "node", "node", &[8080, 8080, 3000]),
        tcp_process(101, "node-worker", "node-worker", &[8080]),
    ];
    let ports = find_ports_by_name_prefix(&procs, "node");
    assert_eq!(ports.len(), 2);
    assert!(ports.contains(&8080));
    assert!(ports.contains(&3000));
    for i in 0..ports.len() {
        for j in i + 1..ports.len() {
            assert_ne!(ports[i], ports[j]);
        }
    }
}

#[test]
fn handle_search_wraps_result_in_envelope() {
    let procs = vec![tcp_process(100, "node", "node", &[3000, 3000])];
    let r = handle_search(&procs, "no");
    assert!(r.success);
    assert_eq!(r.error, "");
    assert_eq!(r.result, vec![3000]);
}

#[test]
fn owner_lookup_returns_first_binder() {
    let procs = vec![
        tcp_process(100, "node", "node", &[3000]),
        tcp_process(101, "nginx", "nginx", &[80]),
        tcp_process(102, "nginx-worker", "nginx-worker", &[80]),
    ];
    assert_eq!(find_owner_of_port(&procs, 80), Some(1));
    assert_eq!(find_owner_of_port(&procs, 3000), Some(0));
}

#[test]
fn owner_lookup_yields_nothing_for_unbound_port() {
    let procs = vec![
        tcp_process(100, "node", "node", &[3000]),
        tcp_process(101, "nginx", "nginx", &[80]),
    ];
    assert_eq!(find_owner_of_port(&procs, 54321), None);
}

#[test]
fn udp_bindings_are_matched_too() {
    let procs = vec![ProcessSockets {
        record: ProcessRecord {
            pid: 200,
            name: "dns".to_string(),
            command: "dns".to_string(),
            nfiles: 1,
        },
        descriptors: vec![SocketDescriptor {
            fd: 0,
            payload: FdPayload::In { protocol: IPPROTO_UDP, raw_local_port: swapped(53) },
        }],
    }];
    assert_eq!(find_owner_of_port(&procs, 53), Some(0));
    assert_eq!(find_port_by_name(&procs, "dns"), vec![53]);
}

#[test]
fn kill_with_no_owner_reports_not_found() {
    let procs = vec![
        tcp_process(100, "node", "node", &[3000]),
        tcp_process(101, "nginx", "nginx", &[80]),
    ];
    let r = process_killer(&procs, 54321);
    assert!(!r.success);
    assert_eq!(r.error, "No processes found");
}

#[test]
fn kill_on_empty_process_table_reports_not_found() {
    let procs: Vec<ProcessSockets> = Vec::new();
    let r = process_killer(&procs, 8080);
    assert!(!r.success);
    assert_eq!(r.error, "No processes found");
}

#[test]
fn protected_process_is_refused_not_signaled() {
    // The port matches, but the owner is a container-runtime component.
    let procs = vec![
        tcp_process(100, "node", "node", &[3000]),
        tcp_process(4242, "docker", "com.docker.backend", &[8080]),
    ];
    let r = process_killer(&procs, 8080);
    assert!(!r.success);
    assert_eq!(r.error, "Docker process. Stop the container manually");
}

#[test]
fn try_to_kill_rejects_an_id_outside_the_single_process_range() {
    // Id zero would address the caller's whole process group, so no signal
    // is issued and delivery reads as failed.
    let record = ProcessRecord {
        pid: 0,
        name: "kernel_task".to_string(),
        command: "kernel_task".to_string(),
        nfiles: 0,
    };
    let r = try_to_kill(&record);
    assert!(!r.success);
    assert_eq!(r.error, "Failed to kill process");
}

#[test]
fn try_to_kill_refuses_protected_command() {
    let record = ProcessRecord {
        pid: 4242,
        name: "docker".to_string(),
        command: "com.docker.hyperkit".to_string(),
        nfiles: 0,
    };
    let r = try_to_kill(&record);
    assert!(!r.success);
    assert_eq!(r.error, "Docker process. Stop the container manually");
}

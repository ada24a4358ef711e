use lurge::sockets::{
    decode_socket, port_from_network_order, resolve_sockets, FdPayload, PortBinding, Protocol,
    SocketDescriptor,
};

const IPPROTO_UDP: i32 = 17;
const IPPROTO_TCP: i32 = 6;

#[test]
fn udp_raw_port_round_trips_to_8080() {
    // 8080 stored in network byte order reads as 0x901F == 36895 on the host.
    let raw: u16 = 36895;
    assert_eq!(port_from_network_order(raw), 8080);
    // The reversal is an involution: encoding and decoding cancel out.
    assert_eq!(port_from_network_order(8080), raw);
    assert_eq!(port_from_network_order(port_from_network_order(raw)), raw);

    let d = SocketDescriptor {
        fd: 3,
        payload: FdPayload::In { protocol: IPPROTO_UDP, raw_local_port: raw },
    };
    let binding = decode_socket(&d).expect("a UDP in-socket must decode");
    assert_eq!(binding, PortBinding { protocol: Protocol::Udp, port: 8080 });
}

#[test]
fn tcp_socket_decodes_swapped_port() {
    // 443 == 0x01BB in network order reads as 0xBB01 == 47873.
    let d = SocketDescriptor { fd: 5, payload: FdPayload::Tcp { raw_local_port: 47873 } };
    let binding = decode_socket(&d).expect("a TCP socket must decode");
    assert_eq!(binding, PortBinding { protocol: Protocol::Tcp, port: 443 });
}

#[test]
fn non_udp_in_socket_is_ignored() {
    let d = SocketDescriptor {
        fd: 4,
        payload: FdPayload::In { protocol: IPPROTO_TCP, raw_local_port: 36895 },
    };
    assert!(decode_socket(&d).is_none());
}

#[test]
fn non_socket_descriptors_are_ignored() {
    let plain = SocketDescriptor { fd: 0, payload: FdPayload::NonSocket };
    let other = SocketDescriptor { fd: 9, payload: FdPayload::OtherSocket };
    assert!(decode_socket(&plain).is_none());
    assert!(decode_socket(&other).is_none());
}

#[test]
fn resolve_sockets_collects_bindings_in_descriptor_order() {
    let descriptors = vec![
        SocketDescriptor { fd: 0, payload: FdPayload::NonSocket },
        SocketDescriptor { fd: 1, payload: FdPayload::Tcp { raw_local_port: 47873 } },
        SocketDescriptor { fd: 2, payload: FdPayload::In { protocol: IPPROTO_TCP, raw_local_port: 1 } },
        SocketDescriptor { fd: 3, payload: FdPayload::In { protocol: IPPROTO_UDP, raw_local_port: 36895 } },
        SocketDescriptor { fd: 4, payload: FdPayload::OtherSocket },
    ];
    let bindings = resolve_sockets(&descriptors);
    assert_eq!(
        bindings,
        vec![
            PortBinding { protocol: Protocol::Tcp, port: 443 },
            PortBinding { protocol: Protocol::Udp, port: 8080 },
        ]
    );
}

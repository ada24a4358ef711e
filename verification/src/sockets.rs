//! Socket descriptor classification and local-port decoding.
//!
//! A descriptor-table entry is modelled as a tagged payload: one shape per
//! protocol kind, decoded at the point the kind tag is known. The single
//! error-prone step is the byte-order reversal of the raw local-port field,
//! which is stated and proved exactly.

use vstd::prelude::*;

verus! {

/// Transport protocol of a decoded port binding.
#[derive(Clone, Copy, PartialEq, Eq, Structural, Debug)]
pub enum Protocol {
    Tcp,
    Udp,
}

/// A bound local port recovered from one socket descriptor; immutable once
/// produced.
#[derive(Clone, Copy, PartialEq, Eq, Structural, Debug)]
pub struct PortBinding {
    pub protocol: Protocol,
    pub port: u16,
}

/// Payload of one descriptor-table entry, one shape per descriptor kind.
///
/// An entry whose metadata could not be fetched at all is simply absent from
/// the scanned list: such per-descriptor failures are skipped, never surfaced.
#[derive(Clone, Copy, PartialEq, Eq, Structural, Debug)]
pub enum FdPayload {
    /// A descriptor that is not a socket (file, pipe, ...).
    NonSocket,
    /// An IPv4/IPv6 "in" socket: its underlying protocol number and the raw
    /// local-port field as read from the kernel structure.
    In { protocol: i32, raw_local_port: u16 },
    /// A TCP socket and the raw local-port field of its TCP sub-structure.
    Tcp { raw_local_port: u16 },
    /// A socket of any other kind; never yields a port binding.
    OtherSocket,
}

/// One open file-descriptor-table entry of a process.
#[derive(Clone, Copy, PartialEq, Eq, Structural, Debug)]
pub struct SocketDescriptor {
    /// Process-local descriptor number.
    pub fd: i32,
    /// The entry's classified payload.
    pub payload: FdPayload,
}

/// The IANA-assigned UDP protocol number (`IPPROTO_UDP`), as the kernel
/// reports it in an "in" socket's protocol field.
fn udp_protocol_number() -> (r: i32)
    ensures
        r == 17i32,
{
    17
}

/// The two bytes of a raw local-port field exchanged: the kernel stores the
/// port in network byte order, so this reversal recovers the host-order value.
pub open spec fn spec_swapped(raw: u16) -> u16 {
    (((raw % 256) * 256) + (raw / 256)) as u16
}

/// Reverses network byte order on a raw local-port field.
pub fn port_from_network_order(raw: u16) -> (r: u16)
    ensures
        r == spec_swapped(raw),
{
    proof {
        assert(raw % 256 < 256) by (nonlinear_arith);
        assert(raw / 256 < 256) by (nonlinear_arith);
        assert((raw % 256) * 256 <= 255 * 256) by (nonlinear_arith)
            requires
                raw % 256 < 256,
        ;
    }
    (raw % 256) * 256 + raw / 256
}

/// Reversing the byte order twice gives back the original field: decoding is
/// the exact inverse of encoding a port in network byte order.
pub proof fn lemma_port_swap_involution(raw: u16)
    ensures
        spec_swapped(spec_swapped(raw)) == raw,
{
    assert(raw % 256 < 256) by (nonlinear_arith);
    assert(raw / 256 < 256) by (nonlinear_arith);
    assert((raw % 256) * 256 + raw / 256 < 65536) by (nonlinear_arith)
        requires
            raw % 256 < 256 && raw / 256 < 256,
    ;
    let s = spec_swapped(raw);
    assert(s == (raw % 256) * 256 + raw / 256);
    assert(s % 256 == raw / 256 && s / 256 == raw % 256) by (nonlinear_arith)
        requires
            s == (raw % 256) * 256 + raw / 256 && raw % 256 < 256 && raw / 256 < 256,
    ;
    assert(spec_swapped(s) == (s % 256) * 256 + s / 256);
    assert((raw / 256) * 256 + raw % 256 == raw) by (nonlinear_arith);
}

/// What one descriptor-table entry contributes: an "in" socket whose protocol
/// is UDP yields a UDP binding, a TCP socket yields a TCP binding, and every
/// other entry yields nothing.
pub open spec fn spec_decode(p: FdPayload) -> Option<PortBinding> {
    match p {
        FdPayload::In { protocol, raw_local_port } => if protocol == 17i32 {
            Some(PortBinding { protocol: Protocol::Udp, port: spec_swapped(raw_local_port) })
        } else {
            None
        },
        FdPayload::Tcp { raw_local_port } => Some(
            PortBinding { protocol: Protocol::Tcp, port: spec_swapped(raw_local_port) },
        ),
        _ => None,
    }
}

/// Decodes one descriptor-table entry into a port binding, if it is a socket
/// of a recognised kind.
pub fn decode_socket(d: &SocketDescriptor) -> (r: Option<PortBinding>)
    ensures
        r == spec_decode(d.payload),
{
    match d.payload {
        FdPayload::In { protocol, raw_local_port } => {
            if protocol == udp_protocol_number() {
                Some(
                    PortBinding {
                        protocol: Protocol::Udp,
                        port: port_from_network_order(raw_local_port),
                    },
                )
            } else {
                None
            }
        },
        FdPayload::Tcp { raw_local_port } => Some(
            PortBinding { protocol: Protocol::Tcp, port: port_from_network_order(raw_local_port) },
        ),
        _ => None,
    }
}

/// The port bindings of a descriptor list, in descriptor order, skipping
/// entries that decode to nothing.
pub open spec fn spec_resolved(ds: Seq<SocketDescriptor>) -> Seq<PortBinding>
    decreases ds.len(),
{
    if ds.len() == 0 {
        Seq::empty()
    } else {
        spec_resolved(ds.drop_last()) + match spec_decode(ds.last().payload) {
            Some(b) => seq![b],
            None => Seq::empty(),
        }
    }
}

/// Walks a process's scanned descriptor-table entries and collects the port
/// bindings of its recognised sockets.
pub fn resolve_sockets(ds: &Vec<SocketDescriptor>) -> (r: Vec<PortBinding>)
    ensures
        r@ == spec_resolved(ds@),
{
    let mut r: Vec<PortBinding> = Vec::new();
    let mut i: usize = 0;
    while i < ds.len()
        invariant
            i <= ds@.len(),
            r@ == spec_resolved(ds@.take(i as int)),
        decreases ds@.len() - i,
    {
        proof {
            assert(ds@.take(i + 1).drop_last() =~= ds@.take(i as int));
            assert(ds@.take(i + 1).last() == ds@[i as int]);
        }
        match decode_socket(&ds[i]) {
            Some(b) => r.push(b),
            None => (),
        }
        i = i + 1;
    }
    proof {
        assert(ds@.take(ds@.len() as int) =~= ds@);
    }
    r
}

} // verus!

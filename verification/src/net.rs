//! Transport addresses and the data that travels between them.
use vstd::prelude::*;

verus! {

/// The transport protocol of a candidate or a socket.
#[derive(Debug, Clone, Copy, PartialEq, Eq, Structural)]
pub enum TransportType {
    Udp,
    Tcp,
}

/// An IP address, as the number that its bytes form in network order.
#[derive(Debug, Clone, Copy, PartialEq, Eq, Hash, Structural)]
pub enum IpAddr {
    V4(u32),
    V6 {
        bits: u128,
        flowinfo: u32,
        scope_id: u32,
    },
}

/// An IP address with a port.
#[derive(Debug, Clone, Copy, PartialEq, Eq, Hash, Structural)]
pub struct SocketAddr {
    pub ip: IpAddr,
    pub port: u16,
}

impl SocketAddr {
    /// The IPv4 address `a.b.c.d` with the given port.
    pub fn v4(a: u8, b: u8, c: u8, d: u8, port: u16) -> (r: SocketAddr)
        ensures
            r.port == port,
            r.ip == IpAddr::V4(((a * 256 + b) * 65536 + c * 256 + d) as u32),
    {
        let bits: u32 = (a as u32 * 256 + b as u32) * 65536 + c as u32 * 256 + d as u32;
        SocketAddr { ip: IpAddr::V4(bits), port }
    }
}

/// A piece of data that has been, or is to be, sent from one address to
/// another.
#[derive(Debug, PartialEq, Eq)]
pub struct Transmit {
    pub data: Vec<u8>,
    pub transport: TransportType,
    pub from: SocketAddr,
    pub to: SocketAddr,
}

/// Why a socket could not be allocated.
#[derive(Debug, Clone, Copy, PartialEq, Eq, Structural)]
pub enum StunError {
    AlreadyInProgress,
    ResourceNotFound,
    TimedOut,
    ProtocolViolation,
    Aborted,
    ParseError,
    WriteError,
    Other,
}

/// The reply to a request for a socket that connects `from` to `to`.
#[derive(Debug, Clone, Copy, PartialEq, Eq)]
pub struct AllocatedSocket {
    pub component_id: usize,
    pub transport: TransportType,
    pub from: SocketAddr,
    pub to: SocketAddr,
    /// The local address of the new socket.
    pub local_addr: Result<SocketAddr, StunError>,
}

} // verus!

//! Socket addresses as plain values.

use vstd::prelude::*;

verus! {

/// An IP address. The number's big-endian bytes are the address's bytes.
#[derive(Clone, Copy, PartialEq, Eq, Structural, Debug)]
pub enum IpAddress {
    V4(u32),
    V6 { address: u128, scope_id: u32 },
}

/// An address and a port.
#[derive(Clone, Copy, PartialEq, Eq, Structural, Debug)]
pub struct SocketAddress {
    pub ip: IpAddress,
    pub port: u16,
}

/// Whether the address is this machine's own: 127.0.0.0/8 or ::1.
pub open spec fn loopback(ip: IpAddress) -> bool {
    match ip {
        IpAddress::V4(a) => a / 0x100_0000 == 127,
        IpAddress::V6 { address, .. } => address == 1,
    }
}

/// Whether the address stands for any address.
pub open spec fn unspecified(ip: IpAddress) -> bool {
    match ip {
        IpAddress::V4(a) => a == 0,
        IpAddress::V6 { address, .. } => address == 0,
    }
}

/// Whether the address names a group: 224.0.0.0/4 or ff00::/8.
pub open spec fn multicast(ip: IpAddress) -> bool {
    match ip {
        IpAddress::V4(a) => a / 0x1000_0000 == 14,
        IpAddress::V6 { address, .. } => address / 0x1_0000_0000_0000_0000_0000_0000_0000_00 == 0xff,
    }
}

/// Whether the address reaches every host of a network: 255.255.255.255.
pub open spec fn broadcast_address(ip: IpAddress) -> bool {
    ip == IpAddress::V4(0xffff_ffff)
}

/// Whether a peer can dial the address.
pub open spec fn dialable(address: SocketAddress) -> bool {
    &&& address.port != 0
    &&& !loopback(address.ip)
    &&& !unspecified(address.ip)
    &&& !multicast(address.ip)
    &&& !broadcast_address(address.ip)
}

/// Why an address cannot be used for pairing.
#[derive(Clone, Copy, PartialEq, Eq, Structural, Debug)]
pub struct UnreachablePairingAddress;

impl UnreachablePairingAddress {
    /// The wording of the requirement.
    pub fn message(self) -> (m: &'static str)
        ensures
            m@ == "pairing address must be a reachable non-loopback unicast IP:port for this Mac"@,
    {
        "pairing address must be a reachable non-loopback unicast IP:port for this Mac"
    }
}

/// Checks the address that a peer is to dial; `parsed` is what the trimmed text
/// spells, if it spells an address.
pub fn validate_pairing_address(parsed: Option<SocketAddress>) -> (r: Result<
    SocketAddress,
    UnreachablePairingAddress,
>)
    ensures
        match r {
            Ok(address) => parsed == Some(address) && dialable(address),
            Err(_) => parsed is None || !dialable(parsed->Some_0),
        },
{
    match parsed {
        None => Err(UnreachablePairingAddress),
        Some(address) => {
            let refused: bool = match address.ip {
                IpAddress::V4(a) => a / 0x100_0000 == 127 || a == 0 || a / 0x1000_0000 == 14 || a
                    == 0xffff_ffff,
                IpAddress::V6 { address: a, .. } => a == 1 || a == 0 || a
                    / 0x1_0000_0000_0000_0000_0000_0000_0000_00 == 0xff,
            };
            if address.port == 0 || refused {
                Err(UnreachablePairingAddress)
            } else {
                Ok(address)
            }
        },
    }
}

/// Where a peer listens: the address it was seen at with the port it told.
pub fn peer_listen_endpoint(observed: SocketAddress, listen_port: u16) -> (endpoint: SocketAddress)
    ensures
        endpoint.ip == observed.ip,
        endpoint.port == listen_port,
{
    SocketAddress { ip: observed.ip, port: listen_port }
}

/// An address of four octets can be dialled exactly where it has a port, its first
/// octet is neither 127 nor from 224 to 239, and it is neither all noughts nor all
/// ones.
pub proof fn law_short_addresses_can_be_dialled(a: u8, b: u8, c: u8, d: u8, port: u16)
    ensures
        ({
            let n = a as int * 0x100_0000 + b as int * 0x1_0000 + c as int * 0x100 + d as int;
            dialable(SocketAddress { ip: IpAddress::V4(n as u32), port }) <==> {
                &&& port != 0
                &&& a != 127
                &&& !(224 <= a <= 239)
                &&& !(a == 0 && b == 0 && c == 0 && d == 0)
                &&& !(a == 255 && b == 255 && c == 255 && d == 255)
            }
        }),
{
}

/// A long address can be dialled exactly where it has a port, is not the unspecified
/// one nor that of this machine, and its first byte is not all ones. The scope has no
/// say.
pub proof fn law_long_addresses_can_be_dialled(address: u128, scope_id: u32, port: u16)
    ensures
        dialable(SocketAddress { ip: IpAddress::V6 { address, scope_id }, port }) <==> {
            &&& port != 0
            &&& 1 < address < 0xff00_0000_0000_0000_0000_0000_0000_0000
        },
{
}

} // verus!

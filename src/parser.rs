//! Decoding of one captured Ethernet frame down to the addresses and ports
//! of an IPv4 TCP or UDP packet.
use vstd::prelude::*;
use crate::addr::Ipv4;

verus! {

/// Length of an Ethernet II header.
pub const ETHERNET_HEADER_LEN: usize = 14;

/// EtherType of IPv4.
pub const ETHERTYPE_IPV4: u16 = 0x0800;

/// IP protocol number of TCP.
pub const PROTO_TCP: u8 = 6;

/// IP protocol number of UDP.
pub const PROTO_UDP: u8 = 17;

/// The transport protocol of a decoded packet.
#[derive(Clone, Copy, Debug, PartialEq, Eq, Structural)]
pub enum Transport {
    Tcp,
    Udp,
}

/// The addresses and ports of one decoded packet.
#[derive(Clone, Copy, Debug, PartialEq, Eq, Structural)]
pub struct ParsedConnection {
    pub src_ip: Ipv4,
    pub dst_ip: Ipv4,
    pub src_port: u16,
    pub dst_port: u16,
    pub protocol: Transport,
}

/// Big-endian 16-bit value at `i`.
pub open spec fn be16(s: Seq<u8>, i: int) -> int {
    s[i] * 0x100 + s[i + 1]
}

/// Big-endian 32-bit value at `i`.
pub open spec fn be32(s: Seq<u8>, i: int) -> int {
    s[i] * 0x100_0000 + s[i + 1] * 0x1_0000 + s[i + 2] * 0x100 + s[i + 3]
}

/// Offset of the IPv4 header in a frame.
pub open spec fn ip_start() -> int {
    ETHERNET_HEADER_LEN as int
}

/// The IPv4 header's version field.
pub open spec fn ip_version(f: Seq<u8>) -> u8 {
    f[ip_start()] >> 4u8
}

/// The IPv4 header's length in bytes (four times its IHL field).
pub open spec fn ip_header_len(f: Seq<u8>) -> int {
    4 * (f[ip_start()] & 0x0Fu8)
}

/// The IPv4 total-length field.
pub open spec fn ip_total_len(f: Seq<u8>) -> int {
    be16(f, ip_start() + 2)
}

/// Whether the packet is a first (or only) fragment: its fragment offset is zero.
pub open spec fn ip_first_fragment(f: Seq<u8>) -> bool {
    f[ip_start() + 6] & 0x1Fu8 == 0 && f[ip_start() + 7] == 0
}

/// The frame holds an Ethernet header whose EtherType is IPv4, followed by a
/// well-formed IPv4 header: version 4, a header length of at least 20 bytes,
/// and a total length that covers the header and lies within the frame.
pub open spec fn ipv4_well_formed(f: Seq<u8>) -> bool {
    &&& f.len() >= ip_start() + 20
    &&& be16(f, 12) == ETHERTYPE_IPV4
    &&& ip_version(f) == 4
    &&& ip_header_len(f) >= 20
    &&& ip_header_len(f) <= ip_total_len(f)
    &&& ip_start() + ip_total_len(f) <= f.len()
}

/// Offset of the transport header in a well-formed frame.
pub open spec fn transport_start(f: Seq<u8>) -> int {
    ip_start() + ip_header_len(f)
}

/// Length of the IPv4 payload in a well-formed frame.
pub open spec fn transport_len(f: Seq<u8>) -> int {
    ip_total_len(f) - ip_header_len(f)
}

/// The transport protocol named by the IPv4 header, if it is TCP or UDP.
pub open spec fn transport_of(f: Seq<u8>) -> Option<Transport> {
    if f[ip_start() + 9] == PROTO_TCP {
        Some(Transport::Tcp)
    } else if f[ip_start() + 9] == PROTO_UDP {
        Some(Transport::Udp)
    } else {
        None
    }
}

/// The smallest header of a transport protocol: 20 bytes for TCP, 8 for UDP.
pub open spec fn min_transport_len(t: Transport) -> int {
    match t {
        Transport::Tcp => 20,
        Transport::Udp => 8,
    }
}

/// What a frame decodes to: `None` unless it is an unfragmented-or-first
/// IPv4 fragment over Ethernet carrying a complete TCP or UDP header.
pub open spec fn parse_spec(f: Seq<u8>) -> Option<ParsedConnection> {
    if !ipv4_well_formed(f) || !ip_first_fragment(f) {
        None
    } else {
        match transport_of(f) {
            None => None,
            Some(t) => if transport_len(f) < min_transport_len(t) {
                None
            } else {
                let s = transport_start(f);
                Some(
                    ParsedConnection {
                        src_ip: Ipv4 { bits: be32(f, ip_start() + 12) as u32 },
                        dst_ip: Ipv4 { bits: be32(f, ip_start() + 16) as u32 },
                        src_port: be16(f, s) as u16,
                        dst_port: be16(f, s + 2) as u16,
                        protocol: t,
                    },
                )
            },
        }
    }
}

fn read_be16(f: &[u8], i: usize) -> (r: u16)
    requires
        i + 2 <= f@.len(),
    ensures
        r == be16(f@, i as int),
{
    (f[i] as u16) * 0x100 + (f[i + 1] as u16)
}

fn read_be32(f: &[u8], i: usize) -> (r: u32)
    requires
        i + 4 <= f@.len(),
    ensures
        r == be32(f@, i as int),
{
    (f[i] as u32) * 0x100_0000 + (f[i + 1] as u32) * 0x1_0000 + (f[i + 2] as u32) * 0x100 + (
    f[i + 3] as u32)
}

/// Decodes the Ethernet, IPv4 and TCP/UDP headers of a captured frame.
pub fn parse_frame(frame: &[u8]) -> (r: Option<ParsedConnection>)
    ensures
        r == parse_spec(frame@),
{
    let len = frame.len();
    let ip = ETHERNET_HEADER_LEN;
    if len < ip + 20 {
        return None;
    }
    if read_be16(frame, 12) != ETHERTYPE_IPV4 {
        return None;
    }
    let first = frame[ip];
    let version: u8 = first >> 4u8;
    let ihl: u8 = first & 0x0Fu8;
    assert(ihl <= 15) by (bit_vector)
        requires
            ihl == first & 0x0Fu8,
    ;
    let header_len: usize = 4 * (ihl as usize);
    let total_len: usize = read_be16(frame, ip + 2) as usize;
    if version != 4 || header_len < 20 || header_len > total_len || total_len > len - ip {
        return None;
    }
    if frame[ip + 6] & 0x1Fu8 != 0 || frame[ip + 7] != 0 {
        return None;
    }
    let proto = frame[ip + 9];
    let protocol = if proto == PROTO_TCP {
        Transport::Tcp
    } else if proto == PROTO_UDP {
        Transport::Udp
    } else {
        return None;
    };
    let min_len: usize = match protocol {
        Transport::Tcp => 20,
        Transport::Udp => 8,
    };
    if total_len - header_len < min_len {
        return None;
    }
    let s = ip + header_len;
    Some(
        ParsedConnection {
            src_ip: Ipv4 { bits: read_be32(frame, ip + 12) },
            dst_ip: Ipv4 { bits: read_be32(frame, ip + 16) },
            src_port: read_be16(frame, s),
            dst_port: read_be16(frame, s + 2),
            protocol,
        },
    )
}

} // verus!

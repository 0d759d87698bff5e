use vstd::prelude::*;
use crate::bytes::{be16, be32, copy_range, read_be16, read_be32};
use crate::packet::{Endpoint, TransportProtocol};
use crate::router::Frame;

verus! {

pub const ETHERNET_HEADER_SIZE: usize = 14;
pub const ETHERTYPE_IPV4: u16 = 0x0800;
pub const IP_PROTOCOL_TCP: u8 = 6;
pub const IP_PROTOCOL_UDP: u8 = 17;

/// IPv4 address mapped into the IPv6 space (`::ffff:a.b.c.d`).
pub open spec fn mapped_ipv4(a: u32) -> u128 {
    0xffff_0000_0000u128 | (a as u128)
}

/// Where the IPv4 header starts and how long it is.
pub open spec fn ip_header_len(s: Seq<u8>) -> int {
    4 * (s[14] & 0x0f) as int
}

/// Where the transport header starts.
pub open spec fn transport_start(s: Seq<u8>) -> int {
    14 + ip_header_len(s)
}

/// Where the transport payload starts: after 8 bytes of UDP header, or after the TCP
/// header whose length the data offset gives.
pub open spec fn payload_start(s: Seq<u8>) -> int {
    let t = transport_start(s);
    if s[23] == IP_PROTOCOL_UDP {
        t + 8
    } else {
        t + 4 * ((s[t + 12] >> 4) as int)
    }
}

/// Where the transport payload ends: the IPv4 total length bounds it, and so does the
/// captured data.
pub open spec fn payload_end(s: Seq<u8>) -> int {
    let total = 14 + be16(s, 16);
    if total < s.len() { total } else { s.len() as int }
}

/// An Ethernet II frame carrying IPv4 with a UDP or TCP segment whose headers fit.
pub open spec fn frame_fits(s: Seq<u8>) -> bool {
    &&& s.len() >= 34
    &&& be16(s, 12) == ETHERTYPE_IPV4
    &&& s[14] >> 4 == 4
    &&& ip_header_len(s) >= 20
    &&& (s[23] == IP_PROTOCOL_UDP || s[23] == IP_PROTOCOL_TCP)
    &&& transport_start(s) + (if s[23] == IP_PROTOCOL_UDP { 8int } else { 20int }) <= s.len()
    &&& payload_start(s) <= payload_end(s)
    &&& (s[23] == IP_PROTOCOL_TCP ==> payload_start(s) >= transport_start(s) + 20)
}

pub open spec fn frame_view_of(s: Seq<u8>) -> Option<(u8, u128, u16, u128, u16, Seq<u8>)> {
    if frame_fits(s) {
        let t = transport_start(s);
        Some(
            (
                s[23],
                mapped_ipv4(be32(s, 26)),
                be16(s, t),
                mapped_ipv4(be32(s, 30)),
                be16(s, t + 2),
                s.subrange(payload_start(s), payload_end(s)),
            ),
        )
    } else {
        None
    }
}

pub open spec fn frame_matches(s: Seq<u8>, timestamp: u64, f: Frame) -> bool {
    match frame_view_of(s) {
        Some((proto, src, sport, dst, dport, payload)) => {
            &&& f.timestamp == timestamp
            &&& f.transport_protocol == (if proto == IP_PROTOCOL_UDP {
                TransportProtocol::Udp
            } else {
                TransportProtocol::Tcp
            })
            &&& f.source_addr == Endpoint { address: src, port: sport }
            &&& f.destination_addr == Endpoint { address: dst, port: dport }
            &&& f.payload@ == payload
        },
        None => false,
    }
}

impl Frame {
    /// Reads the addresses, ports and payload of a UDP or TCP segment carried over IPv4
    /// in an Ethernet II frame.
    pub fn from_ethernet(timestamp: u64, data: &[u8]) -> (r: Option<Frame>)
        ensures
            r.is_some() == frame_view_of(data@).is_some(),
            r matches Some(f) ==> frame_matches(data@, timestamp, f),
    {
        let len = data.len();
        if len < 34 || read_be16(data, 12) != ETHERTYPE_IPV4 || data[14] >> 4 != 4 {
            return None;
        }
        let ihl: usize = 4 * (data[14] & 0x0f) as usize;
        if ihl < 20 {
            return None;
        }
        let proto = data[23];
        if proto != IP_PROTOCOL_UDP && proto != IP_PROTOCOL_TCP {
            return None;
        }
        let t: usize = 14 + ihl;
        let min_header: usize = if proto == IP_PROTOCOL_UDP {
            8
        } else {
            20
        };
        if t + min_header > len {
            return None;
        }
        let start: usize = if proto == IP_PROTOCOL_UDP {
            t + 8
        } else {
            t + 4 * ((data[t + 12] >> 4) as usize)
        };
        let total: usize = 14 + read_be16(data, 16) as usize;
        let end: usize = if total < len {
            total
        } else {
            len
        };
        if start > end || (proto == IP_PROTOCOL_TCP && start < t + 20) {
            return None;
        }
        let transport_protocol = if proto == IP_PROTOCOL_UDP {
            TransportProtocol::Udp
        } else {
            TransportProtocol::Tcp
        };
        let src_ip = read_be32(data, 26);
        let dst_ip = read_be32(data, 30);
        let source_addr = Endpoint {
            address: 0xffff_0000_0000u128 | (src_ip as u128),
            port: read_be16(data, t),
        };
        let destination_addr = Endpoint {
            address: 0xffff_0000_0000u128 | (dst_ip as u128),
            port: read_be16(data, t + 2),
        };
        let payload = copy_range(data, start, end);
        Some(Frame { timestamp, transport_protocol, source_addr, destination_addr, payload })
    }
}

} // verus!

use vstd::prelude::*;
use crate::bytes::{be16, be32, read_be16, read_be32};

verus! {

pub const RTCP_SENDER_REPORT: u8 = 200;
pub const RTCP_RECEIVER_REPORT: u8 = 201;
pub const RTCP_SOURCE_DESCRIPTION: u8 = 202;
pub const RTCP_GOODBYE: u8 = 203;
pub const RTCP_APPLICATION_DEFINED: u8 = 204;

/// One packet of an RTCP compound packet, as far as its common header and, for
/// reports, the sender's SSRC tell.
#[derive(Debug, Clone, Copy, PartialEq, Eq, Structural)]
pub enum RtcpPacket {
    SenderReport { ssrc: u32, report_count: u8 },
    ReceiverReport { ssrc: u32, report_count: u8 },
    SourceDescription { chunk_count: u8 },
    Goodbye { source_count: u8 },
    ApplicationDefined { subtype: u8 },
    Other { packet_type: u8 },
}

/// Size in bytes of the sub-packet at `o`: its length field counts 32-bit words minus one.
pub open spec fn sub_packet_size(s: Seq<u8>, o: int) -> int {
    4 * (be16(s, o + 2) + 1)
}

/// The sub-packet at `o`, if its header is valid and its declared size fits.
pub open spec fn sub_packet_at(s: Seq<u8>, o: int) -> Option<RtcpPacket> {
    if o + 4 > s.len() || s[o] >> 6 != 2 || o + sub_packet_size(s, o) > s.len() {
        None
    } else {
        let count = s[o] & 0x1f;
        let pt = s[o + 1];
        if pt == RTCP_SENDER_REPORT || pt == RTCP_RECEIVER_REPORT {
            if sub_packet_size(s, o) < 8 {
                None
            } else if pt == RTCP_SENDER_REPORT {
                Some(RtcpPacket::SenderReport { ssrc: be32(s, o + 4), report_count: count })
            } else {
                Some(RtcpPacket::ReceiverReport { ssrc: be32(s, o + 4), report_count: count })
            }
        } else if pt == RTCP_SOURCE_DESCRIPTION {
            Some(RtcpPacket::SourceDescription { chunk_count: count })
        } else if pt == RTCP_GOODBYE {
            Some(RtcpPacket::Goodbye { source_count: count })
        } else if pt == RTCP_APPLICATION_DEFINED {
            Some(RtcpPacket::ApplicationDefined { subtype: count })
        } else {
            Some(RtcpPacket::Other { packet_type: pt })
        }
    }
}

/// The sub-packets from offset `o` to the end, each found by the length of the one before.
pub open spec fn sub_packets_from(s: Seq<u8>, o: int) -> Option<Seq<RtcpPacket>>
    decreases s.len() - o,
{
    if o < 0 || o >= s.len() {
        if o == s.len() {
            Some(Seq::empty())
        } else {
            None
        }
    } else {
        match sub_packet_at(s, o) {
            None => None,
            Some(p) => match sub_packets_from(s, o + sub_packet_size(s, o)) {
                None => None,
                Some(rest) => Some(seq![p] + rest),
            },
        }
    }
}

/// The compound packet that `s` holds: one or more sub-packets that tile it exactly.
pub open spec fn compound_of(s: Seq<u8>) -> Option<Seq<RtcpPacket>> {
    if s.len() == 0 {
        None
    } else {
        sub_packets_from(s, 0)
    }
}

pub open spec fn prepend(acc: Seq<RtcpPacket>, r: Option<Seq<RtcpPacket>>) -> Option<Seq<RtcpPacket>> {
    match r {
        Some(rest) => Some(acc + rest),
        None => None,
    }
}

fn read_sub_packet(data: &[u8], o: usize) -> (r: Option<(RtcpPacket, usize)>)
    ensures
        match r {
            Some((p, size)) => sub_packet_at(data@, o as int) == Some(p) && size
                == sub_packet_size(data@, o as int),
            None => sub_packet_at(data@, o as int).is_none(),
        },
{
    let len = data.len();
    if o > len || len - o < 4 || data[o] >> 6 != 2 {
        return None;
    }
    let size: usize = 4 * (read_be16(data, o + 2) as usize + 1);
    if size > len - o {
        return None;
    }
    let count = data[o] & 0x1f;
    let pt = data[o + 1];
    let p = if pt == RTCP_SENDER_REPORT || pt == RTCP_RECEIVER_REPORT {
        if size < 8 {
            return None;
        }
        let ssrc = read_be32(data, o + 4);
        if pt == RTCP_SENDER_REPORT {
            RtcpPacket::SenderReport { ssrc, report_count: count }
        } else {
            RtcpPacket::ReceiverReport { ssrc, report_count: count }
        }
    } else if pt == RTCP_SOURCE_DESCRIPTION {
        RtcpPacket::SourceDescription { chunk_count: count }
    } else if pt == RTCP_GOODBYE {
        RtcpPacket::Goodbye { source_count: count }
    } else if pt == RTCP_APPLICATION_DEFINED {
        RtcpPacket::ApplicationDefined { subtype: count }
    } else {
        RtcpPacket::Other { packet_type: pt }
    };
    Some((p, size))
}

impl RtcpPacket {
    /// Decodes a compound packet, walking its sub-packets by their length fields.
    pub fn build_compound(data: &[u8]) -> (r: Option<Vec<RtcpPacket>>)
        ensures
            match r {
                Some(v) => compound_of(data@) == Some(v@),
                None => compound_of(data@).is_none(),
            },
    {
        if data.len() == 0 {
            return None;
        }
        let mut acc: Vec<RtcpPacket> = Vec::new();
        let mut o: usize = 0;
        while o < data.len()
            invariant
                o <= data@.len(),
                sub_packets_from(data@, 0) == prepend(acc@, sub_packets_from(data@, o as int)),
            decreases data@.len() - o,
        {
            match read_sub_packet(data, o) {
                None => {
                    return None;
                },
                Some((p, size)) => {
                    proof {
                        let rest = sub_packets_from(data@, o + size);
                        assert(sub_packets_from(data@, o as int) == prepend(seq![p], rest));
                        match rest {
                            Some(r) => {
                                assert(acc@ + (seq![p] + r) =~= acc@.push(p) + r);
                            },
                            None => {},
                        }
                    }
                    acc.push(p);
                    o = o + size;
                },
            }
        }
        proof {
            assert(acc@ + Seq::<RtcpPacket>::empty() =~= acc@);
        }
        Some(acc)
    }
}

} // verus!

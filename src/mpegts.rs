use vstd::prelude::*;

verus! {

/// Size of one transport stream packet.
pub const TS_PACKET_SIZE: usize = 188;

/// First byte of every transport stream packet.
pub const SYNC_BYTE: u8 = 0x47;

/// PID that carries the Program Association Table.
pub const PAT_PID: u16 = 0;

#[derive(Debug, Clone, Copy, PartialEq, Eq, Structural)]
pub struct TsHeader {
    pub transport_error_indicator: bool,
    pub payload_unit_start_indicator: bool,
    pub transport_priority: bool,
    pub pid: u16,
    pub transport_scrambling_control: u8,
    pub adaptation_field_control: u8,
    pub continuity_counter: u8,
}

/// One transport packet of a datagram: its header and where its payload lies within
/// the datagram (`payload_start == payload_end` when it carries none).
#[derive(Debug, Clone, Copy, PartialEq, Eq, Structural)]
pub struct MpegtsFragment {
    pub header: TsHeader,
    pub payload_start: usize,
    pub payload_end: usize,
}

pub open spec fn ts_header_at(s: Seq<u8>, o: int) -> TsHeader {
    TsHeader {
        transport_error_indicator: s[o + 1] & 0x80 != 0,
        payload_unit_start_indicator: s[o + 1] & 0x40 != 0,
        transport_priority: s[o + 1] & 0x20 != 0,
        pid: (((s[o + 1] & 0x1f) as u16) << 8) | (s[o + 2] as u16),
        transport_scrambling_control: s[o + 3] >> 6,
        adaptation_field_control: (s[o + 3] >> 4) & 0x03,
        continuity_counter: s[o + 3] & 0x0f,
    }
}

/// Where the payload of the packet at `o` starts: after the header, and after the
/// adaptation field when there is one; the packet's end when it carries no payload.
pub open spec fn ts_payload_start(s: Seq<u8>, o: int) -> int {
    let afc = (s[o + 3] >> 4) & 0x03;
    if afc == 1 {
        o + 4
    } else if afc == 2 {
        o + 188
    } else {
        o + 5 + s[o + 4]
    }
}

/// The transport packet at `o`, if the 188 bytes there hold a valid one.
pub open spec fn ts_fragment_at(s: Seq<u8>, o: int) -> Option<MpegtsFragment> {
    if o < 0 || o + 188 > s.len() || s[o] != SYNC_BYTE || (s[o + 3] >> 4) & 0x03 == 0
        || ts_payload_start(s, o) > o + 188 {
        None
    } else {
        Some(
            MpegtsFragment {
                header: ts_header_at(s, o),
                payload_start: ts_payload_start(s, o) as usize,
                payload_end: (o + 188) as usize,
            },
        )
    }
}

/// The transport packets from `o` to the end; the bytes must split into whole packets.
pub open spec fn ts_fragments_from(s: Seq<u8>, o: int) -> Option<Seq<MpegtsFragment>>
    decreases s.len() - o,
{
    if o < 0 || o >= s.len() {
        if o == s.len() {
            Some(Seq::empty())
        } else {
            None
        }
    } else {
        match ts_fragment_at(s, o) {
            None => None,
            Some(f) => match ts_fragments_from(s, o + 188) {
                None => None,
                Some(rest) => Some(seq![f] + rest),
            },
        }
    }
}

/// The transport packets that a datagram carries back to back: at least one.
pub open spec fn mpegts_of(s: Seq<u8>) -> Option<Seq<MpegtsFragment>> {
    if s.len() == 0 {
        None
    } else {
        ts_fragments_from(s, 0)
    }
}

pub open spec fn prepend_fragments(acc: Seq<MpegtsFragment>, r: Option<Seq<MpegtsFragment>>) -> Option<Seq<MpegtsFragment>> {
    match r {
        Some(rest) => Some(acc + rest),
        None => None,
    }
}

fn read_fragment(data: &[u8], o: usize) -> (r: Option<MpegtsFragment>)
    requires
        o + TS_PACKET_SIZE <= data@.len(),
    ensures
        r == ts_fragment_at(data@, o as int),
{
    if data[o] != SYNC_BYTE {
        return None;
    }
    let afc = (data[o + 3] >> 4) & 0x03;
    if afc == 0 {
        return None;
    }
    let start: usize = if afc == 1 {
        o + 4
    } else if afc == 2 {
        o + 188
    } else {
        let adaptation_length = data[o + 4] as usize;
        if adaptation_length > 183 {
            return None;
        }
        o + 5 + adaptation_length
    };
    if start > o + 188 {
        return None;
    }
    let header = TsHeader {
        transport_error_indicator: data[o + 1] & 0x80 != 0,
        payload_unit_start_indicator: data[o + 1] & 0x40 != 0,
        transport_priority: data[o + 1] & 0x20 != 0,
        pid: (((data[o + 1] & 0x1f) as u16) << 8) | (data[o + 2] as u16),
        transport_scrambling_control: data[o + 3] >> 6,
        adaptation_field_control: afc,
        continuity_counter: data[o + 3] & 0x0f,
    };
    Some(MpegtsFragment { header, payload_start: start, payload_end: o + 188 })
}

/// The transport packets of one datagram.
#[derive(Debug, Clone, PartialEq, Eq)]
pub struct MpegtsPacket {
    pub fragments: Vec<MpegtsFragment>,
}

impl MpegtsPacket {
    /// Splits a datagram into 188-byte transport packets and decodes each header.
    pub fn build(data: &[u8]) -> (r: Option<Self>)
        ensures
            match r {
                Some(p) => mpegts_of(data@) == Some(p.fragments@),
                None => mpegts_of(data@).is_none(),
            },
    {
        if data.len() == 0 {
            return None;
        }
        let mut acc: Vec<MpegtsFragment> = Vec::new();
        let mut o: usize = 0;
        while o < data.len()
            invariant
                o <= data@.len(),
                ts_fragments_from(data@, 0) == prepend_fragments(acc@, ts_fragments_from(data@, o as int)),
            decreases data@.len() - o,
        {
            if data.len() - o < TS_PACKET_SIZE {
                return None;
            }
            match read_fragment(data, o) {
                None => {
                    return None;
                },
                Some(f) => {
                    proof {
                        let rest = ts_fragments_from(data@, o + 188);
                        match rest {
                            Some(r) => {
                                assert(acc@ + (seq![f] + r) =~= acc@.push(f) + r);
                            },
                            None => {},
                        }
                    }
                    acc.push(f);
                    o = o + TS_PACKET_SIZE;
                },
            }
        }
        proof {
            assert(acc@ + Seq::<MpegtsFragment>::empty() =~= acc@);
        }
        Some(MpegtsPacket { fragments: acc })
    }
}

} // verus!

use vstd::prelude::*;
use crate::bytes::copy_range;

verus! {

pub const PACKET_START_CODE_PREFIX: u32 = 0x000001;
/// Bytes before the optional header: start code, stream id, packet length.
pub const REQUIRED_FIELDS_SIZE: usize = 6;
/// Bytes of the optional header before its optional fields.
pub const HEADER_REQUIRED_FIELDS_SIZE: usize = 3;
pub const HEADER_MANDATORY_BITS_VALUE: u8 = 0b10;
pub const STUFFING_BYTE: u8 = 0xFF;

/// What a PES `stream_id` announces (ISO/IEC 13818-1, table 2-22).
#[derive(Debug, Clone, Copy, PartialEq, Eq, Structural)]
pub enum StreamType {
    ProgramStreamMap,
    PrivateStream1,
    PaddingStream,
    PrivateStream2,
    AudioStream,
    VideoStream,
    ECMStream,
    EMMStream,
    DSMCCStream,
    IsoIec13522Stream,
    H2221TypeA,
    H2221TypeB,
    H2221TypeC,
    H2221TypeD,
    H2221TypeE,
    AncillaryStream,
    SLPacketizedStream,
    FlexMuxStream,
    MetadataStream,
    ExtendedStreamId,
    ReservedDataStream,
    ProgramStreamDirectory,
    Unknown,
}

pub open spec fn stream_type_of(id: u8) -> StreamType {
    if id == 0xBC {
        StreamType::ProgramStreamMap
    } else if id == 0xBD {
        StreamType::PrivateStream1
    } else if id == 0xBE {
        StreamType::PaddingStream
    } else if id == 0xBF {
        StreamType::PrivateStream2
    } else if 0xC0 <= id <= 0xDF {
        StreamType::AudioStream
    } else if 0xE0 <= id <= 0xEF {
        StreamType::VideoStream
    } else if id == 0xF0 {
        StreamType::ECMStream
    } else if id == 0xF1 {
        StreamType::EMMStream
    } else if id == 0xF2 {
        StreamType::DSMCCStream
    } else if id == 0xF3 {
        StreamType::IsoIec13522Stream
    } else if id == 0xF4 {
        StreamType::H2221TypeA
    } else if id == 0xF5 {
        StreamType::H2221TypeB
    } else if id == 0xF6 {
        StreamType::H2221TypeC
    } else if id == 0xF7 {
        StreamType::H2221TypeD
    } else if id == 0xF8 {
        StreamType::H2221TypeE
    } else if id == 0xF9 {
        StreamType::AncillaryStream
    } else if id == 0xFA {
        StreamType::SLPacketizedStream
    } else if id == 0xFB {
        StreamType::FlexMuxStream
    } else if id == 0xFC {
        StreamType::MetadataStream
    } else if id == 0xFD {
        StreamType::ExtendedStreamId
    } else if id == 0xFE {
        StreamType::ReservedDataStream
    } else if id == 0xFF {
        StreamType::ProgramStreamDirectory
    } else {
        StreamType::Unknown
    }
}

impl From<u8> for StreamType {
    fn from(id: u8) -> (r: Self)
        ensures
            r == stream_type_of(id),
    {
        match id {
            0xBC => StreamType::ProgramStreamMap,
            0xBD => StreamType::PrivateStream1,
            0xBE => StreamType::PaddingStream,
            0xBF => StreamType::PrivateStream2,
            0xC0..=0xDF => StreamType::AudioStream,
            0xE0..=0xEF => StreamType::VideoStream,
            0xF0 => StreamType::ECMStream,
            0xF1 => StreamType::EMMStream,
            0xF2 => StreamType::DSMCCStream,
            0xF3 => StreamType::IsoIec13522Stream,
            0xF4 => StreamType::H2221TypeA,
            0xF5 => StreamType::H2221TypeB,
            0xF6 => StreamType::H2221TypeC,
            0xF7 => StreamType::H2221TypeD,
            0xF8 => StreamType::H2221TypeE,
            0xF9 => StreamType::AncillaryStream,
            0xFA => StreamType::SLPacketizedStream,
            0xFB => StreamType::FlexMuxStream,
            0xFC => StreamType::MetadataStream,
            0xFD => StreamType::ExtendedStreamId,
            0xFE => StreamType::ReservedDataStream,
            0xFF => StreamType::ProgramStreamDirectory,
            _ => StreamType::Unknown,
        }
    }
}

impl vstd::std_specs::convert::FromSpecImpl<u8> for StreamType {
    open spec fn obeys_from_spec() -> bool {
        true
    }

    open spec fn from_spec(v: u8) -> Self {
        stream_type_of(v)
    }
}

/// Streams whose packets carry data right after the six required bytes, with no
/// optional header.
pub open spec fn is_data_only(t: StreamType) -> bool {
    t == StreamType::ProgramStreamMap || t == StreamType::PrivateStream2 || t
        == StreamType::ECMStream || t == StreamType::EMMStream || t
        == StreamType::ProgramStreamDirectory || t == StreamType::DSMCCStream || t
        == StreamType::H2221TypeE
}

/// The optional PES header: its flags, and its size including the header data.
#[derive(Debug, Clone, Copy, PartialEq, Eq, Structural)]
pub struct PesHeader {
    pub scrambling_control: u8,
    pub priority: bool,
    pub data_alignment_indicator: bool,
    pub copyright: bool,
    pub original: bool,
    pub pts_dts_flags: u8,
    pub escr_flag: bool,
    pub es_rate_flag: bool,
    pub dsm_trick_mode_flag: bool,
    pub additional_copy_info_flag: bool,
    pub crc_flag: bool,
    pub extension_flag: bool,
    pub header_data_length: u8,
    pub size: usize,
}

/// The optional header at the start of `s`, if its marker bits are right and the
/// header data it declares fits.
pub open spec fn pes_header_of(s: Seq<u8>) -> Option<PesHeader> {
    if s.len() < 3 || s[0] >> 6 != HEADER_MANDATORY_BITS_VALUE || 3 + s[2] > s.len() {
        None
    } else {
        Some(
            PesHeader {
                scrambling_control: (s[0] & 0x30) >> 4,
                priority: s[0] & 0x08 != 0,
                data_alignment_indicator: s[0] & 0x04 != 0,
                copyright: s[0] & 0x02 != 0,
                original: s[0] & 0x01 != 0,
                pts_dts_flags: (s[1] & 0xC0) >> 6,
                escr_flag: s[1] & 0x20 != 0,
                es_rate_flag: s[1] & 0x10 != 0,
                dsm_trick_mode_flag: s[1] & 0x08 != 0,
                additional_copy_info_flag: s[1] & 0x04 != 0,
                crc_flag: s[1] & 0x02 != 0,
                extension_flag: s[1] & 0x01 != 0,
                header_data_length: s[2],
                size: (3 + s[2]) as usize,
            },
        )
    }
}

impl PesHeader {
    pub fn build(data: &[u8]) -> (r: Option<Self>)
        ensures
            r == pes_header_of(data@),
    {
        if data.len() < HEADER_REQUIRED_FIELDS_SIZE || data[0] >> 6 != HEADER_MANDATORY_BITS_VALUE
            || 3 + data[2] as usize > data.len() {
            return None;
        }
        Some(PesHeader {
            scrambling_control: (data[0] & 0x30) >> 4,
            priority: data[0] & 0x08 != 0,
            data_alignment_indicator: data[0] & 0x04 != 0,
            copyright: data[0] & 0x02 != 0,
            original: data[0] & 0x01 != 0,
            pts_dts_flags: (data[1] & 0xC0) >> 6,
            escr_flag: data[1] & 0x20 != 0,
            es_rate_flag: data[1] & 0x10 != 0,
            dsm_trick_mode_flag: data[1] & 0x08 != 0,
            additional_copy_info_flag: data[1] & 0x04 != 0,
            crc_flag: data[1] & 0x02 != 0,
            extension_flag: data[1] & 0x01 != 0,
            header_data_length: data[2],
            size: 3 + data[2] as usize,
        })
    }
}

/// `n` stuffing bytes start at `from`, and no more follow.
pub open spec fn stuffing_run(s: Seq<u8>, from: int, n: int) -> bool {
    &&& 0 <= n
    &&& from + n <= s.len()
    &&& forall|j: int| from <= j < from + n ==> s[j] == STUFFING_BYTE
    &&& (from + n < s.len() ==> s[from + n] != STUFFING_BYTE)
}

#[derive(Debug, Clone, PartialEq, Eq)]
pub struct PacketizedElementaryStream {
    pub packet_start_code_prefix: u32,
    pub stream_id: u8,
    pub pes_packet_length: u16,
    pub header: Option<PesHeader>,
    pub packet_data: Option<Vec<u8>>,
    pub padding_bytes: Option<Vec<u8>>,
}

pub open spec fn opt_bytes(o: Option<Vec<u8>>) -> Option<Seq<u8>> {
    match o {
        Some(v) => Some(v@),
        None => None,
    }
}

pub open spec fn start_code(s: Seq<u8>) -> u32 {
    ((s[0] as u32) << 16) | ((s[1] as u32) << 8) | (s[2] as u32)
}

/// What follows the six required bytes: by stream type either padding, plain data, or
/// an optional header (absent when it does not decode) followed by stuffing and data.
pub open spec fn pes_body_matches(s: Seq<u8>, p: PacketizedElementaryStream) -> bool {
    let t = stream_type_of(s[3]);
    if t == StreamType::PaddingStream {
        p.header.is_none() && opt_bytes(p.packet_data).is_none() && opt_bytes(p.padding_bytes)
            == Some(s.subrange(6, s.len() as int))
    } else if is_data_only(t) {
        p.header.is_none() && opt_bytes(p.packet_data) == Some(s.subrange(6, s.len() as int))
            && opt_bytes(p.padding_bytes).is_none()
    } else {
        let h = pes_header_of(s.subrange(6, s.len() as int));
        p.header == h && opt_bytes(p.padding_bytes).is_none() && data_after_stuffing(
            s,
            6 + header_size(h),
            opt_bytes(p.packet_data),
        )
    }
}

pub open spec fn header_size(h: Option<PesHeader>) -> int {
    match h {
        Some(x) => x.size as int,
        None => 0,
    }
}

/// `data` is what follows the run of stuffing bytes that starts at `from`.
pub open spec fn data_after_stuffing(s: Seq<u8>, from: int, data: Option<Seq<u8>>) -> bool {
    exists|n: int| #[trigger] stuffing_run(s, from, n) && data == Some(s.subrange(from + n, s.len() as int))
}

/// `p` is the packet that `s` holds: a start code, a stream id and a length, then
/// the body.
pub open spec fn pes_matches(s: Seq<u8>, p: PacketizedElementaryStream) -> bool {
    &&& s.len() >= 6
    &&& start_code(s) == PACKET_START_CODE_PREFIX
    &&& p.packet_start_code_prefix == start_code(s)
    &&& p.stream_id == s[3]
    &&& p.pes_packet_length == (((s[4] as u16) << 8) | (s[5] as u16))
    &&& pes_body_matches(s, p)
}

/// The bytes hold a PES packet: enough of them, and the start code.
pub open spec fn is_pes(s: Seq<u8>) -> bool {
    s.len() >= 6 && start_code(s) == PACKET_START_CODE_PREFIX
}

impl PacketizedElementaryStream {
    pub fn build(data: &[u8]) -> (r: Option<Self>)
        ensures
            r.is_some() == is_pes(data@),
            r matches Some(p) ==> pes_matches(data@, p),
    {
        if data.is_empty() || data.len() < REQUIRED_FIELDS_SIZE {
            return None;
        }
        let Some(pes) = Self::unmarshall(data) else {
            return None;
        };
        Some(pes)
    }

    fn unmarshall(data: &[u8]) -> (r: Option<Self>)
        requires
            data@.len() >= 6,
        ensures
            r.is_some() == is_pes(data@),
            r matches Some(p) ==> pes_matches(data@, p),
    {
        let packet_start_code_prefix: u32 = ((data[0] as u32) << 16) | ((data[1] as u32) << 8)
            | (data[2] as u32);
        if packet_start_code_prefix != PACKET_START_CODE_PREFIX {
            return None;
        }
        let stream_id: u8 = data[3];
        let pes_packet_length: u16 = ((data[4] as u16) << 8) | (data[5] as u16);
        let len = data.len();
        let mut header = None;
        let mut packet_data = None;
        let mut padding_bytes = None;
        let stream_type = StreamType::from(stream_id);
        match stream_type {
            StreamType::PaddingStream => {
                padding_bytes = Some(copy_range(data, 6, len));
            },
            StreamType::ProgramStreamMap
            | StreamType::PrivateStream2
            | StreamType::ECMStream
            | StreamType::EMMStream
            | StreamType::ProgramStreamDirectory
            | StreamType::DSMCCStream
            | StreamType::H2221TypeE => {
                packet_data = Some(copy_range(data, 6, len));
            },
            _ => {
                let header_data = &data[6..len];
                let mut header_size: usize = 0;
                header = PesHeader::build(header_data);
                match header {
                    Some(h) => {
                        header_size = h.size;
                    },
                    None => {},
                }
                let after_header: usize = 6 + header_size;
                let stuffing = Self::number_of_stuffing_bytes(&data[after_header..len]);
                let packet_data_start = after_header + stuffing;
                proof {
                    let n = stuffing as int;
                    let rest = data@.subrange(after_header as int, len as int);
                    assert forall|j: int| after_header <= j < after_header + n implies data@[j]
                        == STUFFING_BYTE by {
                        assert(data@[j] == rest[j - after_header]);
                    }
                    if after_header + n < len {
                        assert(data@[after_header + n] == rest[n]);
                    }
                    assert(stuffing_run(data@, after_header as int, n));
                }
                let bytes = copy_range(data, packet_data_start, len);
                proof {
                    assert(data_after_stuffing(data@, 6 + header_size, Some(bytes@)));
                }
                packet_data = Some(bytes);
            },
        }
        let r = Self {
            packet_start_code_prefix,
            stream_id,
            pes_packet_length,
            header,
            packet_data,
            padding_bytes,
        };
        Some(r)
    }

    /// How many stuffing bytes `data` starts with.
    fn number_of_stuffing_bytes(data: &[u8]) -> (r: usize)
        ensures
            stuffing_run(data@, 0, r as int),
    {
        let mut stuffing_bytes: usize = 0;
        while stuffing_bytes < data.len() && data[stuffing_bytes] == STUFFING_BYTE
            invariant
                stuffing_bytes <= data@.len(),
                forall|j: int| 0 <= j < stuffing_bytes ==> data@[j] == STUFFING_BYTE,
            decreases data@.len() - stuffing_bytes,
        {
            stuffing_bytes = stuffing_bytes + 1;
        }
        stuffing_bytes
    }
}

} // verus!

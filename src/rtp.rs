use vstd::prelude::*;
use crate::bytes::{be16, be32, read_be16, read_be32};

verus! {

/// Size of the fixed RTP header.
pub const RTP_FIXED_HEADER_SIZE: usize = 12;

/// The only RTP version in use.
pub const RTP_VERSION: u8 = 2;

#[derive(Debug, Clone, PartialEq, Eq)]
pub struct RtpPacket {
    pub version: u8,
    pub padding: bool,
    pub extension: bool,
    pub marker: bool,
    pub payload_type: u8,
    pub sequence_number: u16,
    pub timestamp: u32,
    pub ssrc: u32,
    pub csrc: Vec<u32>,
    pub payload_length: usize,
}

pub struct RtpView {
    pub version: u8,
    pub padding: bool,
    pub extension: bool,
    pub marker: bool,
    pub payload_type: u8,
    pub sequence_number: u16,
    pub timestamp: u32,
    pub ssrc: u32,
    pub csrc: Seq<u32>,
    pub payload_length: int,
}

impl View for RtpPacket {
    type V = RtpView;

    open spec fn view(&self) -> RtpView {
        RtpView {
            version: self.version,
            padding: self.padding,
            extension: self.extension,
            marker: self.marker,
            payload_type: self.payload_type,
            sequence_number: self.sequence_number,
            timestamp: self.timestamp,
            ssrc: self.ssrc,
            csrc: self.csrc@,
            payload_length: self.payload_length as int,
        }
    }
}

/// Number of CSRC identifiers that the first header byte announces.
pub open spec fn csrc_count(s: Seq<u8>) -> int {
    (s[0] & 0x0f) as int
}

/// Where the CSRC list ends.
pub open spec fn csrc_end(s: Seq<u8>) -> int {
    12 + 4 * csrc_count(s)
}

/// Where the header ends, extension included (valid once the CSRC list and the
/// extension's own four-byte header fit).
pub open spec fn rtp_header_end(s: Seq<u8>) -> int {
    if s[0] & 0x10 != 0 {
        csrc_end(s) + 4 + 4 * be16(s, csrc_end(s) + 2)
    } else {
        csrc_end(s)
    }
}

/// Number of padding bytes at the end of the packet.
pub open spec fn rtp_padding_len(s: Seq<u8>) -> int {
    if s[0] & 0x20 != 0 {
        s[s.len() - 1] as int
    } else {
        0
    }
}

/// The header is well formed and every length it declares fits in the packet.
pub open spec fn rtp_fits(s: Seq<u8>) -> bool {
    &&& s.len() >= 12
    &&& s[0] >> 6 == 2
    &&& csrc_end(s) <= s.len()
    &&& (s[0] & 0x10 != 0 ==> csrc_end(s) + 4 <= s.len())
    &&& rtp_header_end(s) <= s.len()
    &&& (s[0] & 0x20 != 0 ==> rtp_header_end(s) < s.len() && rtp_padding_len(s) >= 1)
    &&& rtp_header_end(s) + rtp_padding_len(s) <= s.len()
}

/// The RTP packet that `s` holds, if it is one.
pub open spec fn rtp_of(s: Seq<u8>) -> Option<RtpView> {
    if rtp_fits(s) {
        Some(
            RtpView {
                version: s[0] >> 6,
                padding: s[0] & 0x20 != 0,
                extension: s[0] & 0x10 != 0,
                marker: s[1] & 0x80 != 0,
                payload_type: s[1] & 0x7f,
                sequence_number: be16(s, 2),
                timestamp: be32(s, 4),
                ssrc: be32(s, 8),
                csrc: Seq::new(csrc_count(s) as nat, |k: int| be32(s, 12 + 4 * k)),
                payload_length: s.len() - rtp_header_end(s) - rtp_padding_len(s),
            },
        )
    } else {
        None
    }
}

impl RtpPacket {
    /// Decodes an RTP packet, checking every declared length against the bytes there are.
    pub fn build(data: &[u8]) -> (r: Option<Self>)
        ensures
            match r {
                Some(p) => rtp_of(data@) == Some(p@),
                None => rtp_of(data@).is_none(),
            },
    {
        let len = data.len();
        if len < RTP_FIXED_HEADER_SIZE || data[0] >> 6 != RTP_VERSION {
            return None;
        }
        let count: usize = (data[0] & 0x0f) as usize;
        let end_of_csrc: usize = 12 + 4 * count;
        if end_of_csrc > len {
            return None;
        }
        let extension = data[0] & 0x10 != 0;
        let header_end: usize = if extension {
            if end_of_csrc + 4 > len {
                return None;
            }
            end_of_csrc + 4 + 4 * (read_be16(data, end_of_csrc + 2) as usize)
        } else {
            end_of_csrc
        };
        if header_end > len {
            return None;
        }
        let padding = data[0] & 0x20 != 0;
        let pad: usize = if padding {
            if header_end >= len || data[len - 1] < 1 {
                return None;
            }
            data[len - 1] as usize
        } else {
            0
        };
        if header_end + pad > len {
            return None;
        }
        let mut csrc: Vec<u32> = Vec::new();
        let mut k: usize = 0;
        while k < count
            invariant
                k <= count,
                count == csrc_count(data@),
                12 + 4 * count <= len,
                len == data@.len(),
                csrc@ =~= Seq::new(k as nat, |j: int| be32(data@, 12 + 4 * j)),
            decreases count - k,
        {
            csrc.push(read_be32(data, 12 + 4 * k));
            k = k + 1;
        }
        Some(RtpPacket {
            version: data[0] >> 6,
            padding,
            extension,
            marker: data[1] & 0x80 != 0,
            payload_type: data[1] & 0x7f,
            sequence_number: read_be16(data, 2),
            timestamp: read_be32(data, 4),
            ssrc: read_be32(data, 8),
            csrc,
            payload_length: len - header_end - pad,
        })
    }
}

} // verus!

use vstd::prelude::*;
use crate::bytes::{be32, le32, read_be32, read_le32};

verus! {

pub const PCAP_HEADER_SIZE: usize = 24;
pub const PCAP_RECORD_HEADER_SIZE: usize = 16;
pub const PCAP_MAGIC_MICROS: u32 = 0xa1b2_c3d4;
pub const PCAP_MAGIC_NANOS: u32 = 0xa1b2_3c4d;
/// Link type of Ethernet frames.
pub const LINKTYPE_ETHERNET: u32 = 1;

/// How a capture file writes its numbers and times.
#[derive(Debug, Clone, Copy, PartialEq, Eq, Structural)]
pub struct PcapFormat {
    pub little_endian: bool,
    pub nanoseconds: bool,
    pub link_type: u32,
}

/// One record of a capture file: when it was captured, in microseconds, and where
/// its captured bytes lie in the file.
#[derive(Debug, Clone, Copy, PartialEq, Eq, Structural)]
pub struct PcapRecord {
    pub timestamp: u64,
    pub start: usize,
    pub end: usize,
}

pub open spec fn u32_in(s: Seq<u8>, i: int, little_endian: bool) -> u32 {
    if little_endian { le32(s, i) } else { be32(s, i) }
}

/// The format that a file's global header announces, if its magic number is known.
pub open spec fn pcap_format_of(s: Seq<u8>) -> Option<PcapFormat> {
    if s.len() < 24 {
        None
    } else {
        let le = le32(s, 0) == PCAP_MAGIC_MICROS || le32(s, 0) == PCAP_MAGIC_NANOS;
        let be = be32(s, 0) == PCAP_MAGIC_MICROS || be32(s, 0) == PCAP_MAGIC_NANOS;
        if !le && !be {
            None
        } else {
            Some(
                PcapFormat {
                    little_endian: le,
                    nanoseconds: u32_in(s, 0, le) == PCAP_MAGIC_NANOS,
                    link_type: u32_in(s, 20, le),
                },
            )
        }
    }
}

/// The record whose header starts at `o`, if it and its data fit in the file.
pub open spec fn pcap_record_at(s: Seq<u8>, o: int, f: PcapFormat) -> Option<PcapRecord> {
    if o < 0 || o + 16 > s.len() || o + 16 + u32_in(s, o + 8, f.little_endian) > s.len() {
        None
    } else {
        let sec = u32_in(s, o, f.little_endian) as int;
        let frac = u32_in(s, o + 4, f.little_endian) as int;
        let micros = if f.nanoseconds { frac / 1000 } else { frac };
        Some(
            PcapRecord {
                timestamp: (sec * 1_000_000 + micros) as u64,
                start: (o + 16) as usize,
                end: (o + 16 + u32_in(s, o + 8, f.little_endian)) as usize,
            },
        )
    }
}

fn read_u32(s: &[u8], i: usize, little_endian: bool) -> (r: u32)
    requires
        i + 4 <= s@.len(),
    ensures
        r == u32_in(s@, i as int, little_endian),
{
    if little_endian {
        read_le32(s, i)
    } else {
        read_be32(s, i)
    }
}

impl PcapFormat {
    /// Reads the global header of a capture file.
    pub fn parse(data: &[u8]) -> (r: Option<PcapFormat>)
        ensures
            r == pcap_format_of(data@),
    {
        if data.len() < PCAP_HEADER_SIZE {
            return None;
        }
        let l = read_le32(data, 0);
        let b = read_be32(data, 0);
        let le = l == PCAP_MAGIC_MICROS || l == PCAP_MAGIC_NANOS;
        let be = b == PCAP_MAGIC_MICROS || b == PCAP_MAGIC_NANOS;
        if !le && !be {
            return None;
        }
        Some(PcapFormat {
            little_endian: le,
            nanoseconds: read_u32(data, 0, le) == PCAP_MAGIC_NANOS,
            link_type: read_u32(data, 20, le),
        })
    }

    /// Reads the record header at `offset`; the next record starts at its `end`.
    pub fn record_at(&self, data: &[u8], offset: usize) -> (r: Option<PcapRecord>)
        ensures
            r == pcap_record_at(data@, offset as int, *self),
    {
        let len = data.len();
        if offset > len || len - offset < PCAP_RECORD_HEADER_SIZE {
            return None;
        }
        let incl = read_u32(data, offset + 8, self.little_endian) as usize;
        if incl > len - offset - 16 {
            return None;
        }
        let sec = read_u32(data, offset, self.little_endian) as u64;
        let frac = read_u32(data, offset + 4, self.little_endian) as u64;
        let micros: u64 = if self.nanoseconds {
            frac / 1000
        } else {
            frac
        };
        proof {
            assert(sec * 1_000_000 + micros <= u64::MAX) by (nonlinear_arith)
                requires sec <= u32::MAX, micros <= u32::MAX;
        }
        Some(PcapRecord {
            timestamp: sec * 1_000_000 + micros,
            start: offset + 16,
            end: offset + 16 + incl,
        })
    }
}

} // verus!

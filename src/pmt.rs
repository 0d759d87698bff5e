use vstd::prelude::*;
use crate::bytes::{be16, be32, copy_range, read_be16, read_be32};
use crate::crc::{crc32, flip_bit, lemma_bit_flip_detected, section_crc_ok};

verus! {

/// Table id of a program map section.
pub const PMT_TABLE_ID: u8 = 0x02;

/// One elementary stream of a program: its type, its PID and its descriptor bytes.
#[derive(Debug, Clone, PartialEq, Eq)]
pub struct ElementaryStreamInfo {
    pub stream_type: u8,
    pub elementary_pid: u16,
    pub descriptors: Vec<u8>,
}

#[derive(Debug, Clone, PartialEq, Eq)]
pub struct ProgramMapTable {
    pub program_number: u16,
    pub pcr_pid: u16,
    pub program_info: Vec<u8>,
    pub elementary_streams_info: Vec<ElementaryStreamInfo>,
    pub crc_32: u32,
}

pub struct EsView {
    pub stream_type: u8,
    pub elementary_pid: u16,
    pub descriptors: Seq<u8>,
}

pub struct PmtView {
    pub program_number: u16,
    pub pcr_pid: u16,
    pub program_info: Seq<u8>,
    pub elementary_streams_info: Seq<EsView>,
    pub crc_32: u32,
}

pub open spec fn es_view(e: ElementaryStreamInfo) -> EsView {
    EsView { stream_type: e.stream_type, elementary_pid: e.elementary_pid, descriptors: e.descriptors@ }
}

impl View for ProgramMapTable {
    type V = PmtView;

    open spec fn view(&self) -> PmtView {
        PmtView {
            program_number: self.program_number,
            pcr_pid: self.pcr_pid,
            program_info: self.program_info@,
            elementary_streams_info: Seq::new(
                self.elementary_streams_info@.len(),
                |i: int| es_view(self.elementary_streams_info@[i]),
            ),
            crc_32: self.crc_32,
        }
    }
}

/// A 13-bit PID at `i`.
pub open spec fn pid_at(s: Seq<u8>, i: int) -> u16 {
    (((s[i] & 0x1f) as u16) << 8) | (s[i + 1] as u16)
}

/// A 12-bit length at `i`.
pub open spec fn length12_at(s: Seq<u8>, i: int) -> int {
    ((((s[i] & 0x0f) as u16) << 8) | (s[i + 1] as u16)) as int
}

/// The elementary stream entries from `o` up to `end`; each declares the length of
/// its descriptors, and the entries must tile the range exactly.
pub open spec fn streams_from(s: Seq<u8>, o: int, end: int) -> Option<Seq<EsView>>
    decreases end - o,
{
    if o < 0 || end > s.len() || o >= end {
        if 0 <= o && o == end && end <= s.len() {
            Some(Seq::empty())
        } else {
            None
        }
    } else if o + 5 > end || o + 5 + length12_at(s, o + 3) > end {
        None
    } else {
        let next = o + 5 + length12_at(s, o + 3);
        match streams_from(s, next, end) {
            None => None,
            Some(rest) => Some(
                seq![
                    EsView {
                        stream_type: s[o],
                        elementary_pid: pid_at(s, o + 1),
                        descriptors: s.subrange(o + 5, next),
                    },
                ] + rest,
            ),
        }
    }
}

/// The table that a complete program map section spells out, its CRC not checked.
pub open spec fn pmt_of_section(s: Seq<u8>) -> Option<PmtView> {
    if s.len() < 16 || s[0] != PMT_TABLE_ID || 12 + length12_at(s, 10) > s.len() - 4 {
        None
    } else {
        let info_end = 12 + length12_at(s, 10);
        match streams_from(s, info_end, s.len() - 4) {
            None => None,
            Some(es) => Some(
                PmtView {
                    program_number: be16(s, 3),
                    pcr_pid: pid_at(s, 8),
                    program_info: s.subrange(12, info_end),
                    elementary_streams_info: es,
                    crc_32: be32(s, s.len() - 4),
                },
            ),
        }
    }
}

/// The table that a program map section yields once its CRC has been checked.
pub open spec fn checked_pmt_of_section(s: Seq<u8>) -> Option<PmtView> {
    if section_crc_ok(s) {
        pmt_of_section(s)
    } else {
        None
    }
}

/// A program map section that decodes no longer decodes once any single bit of it is
/// inverted.
pub proof fn lemma_corrupted_pmt_rejected(section: Seq<u8>, index: int, bit: u8)
    requires
        checked_pmt_of_section(section) is Some,
        0 <= index < section.len(),
        bit < 8,
    ensures
        checked_pmt_of_section(flip_bit(section, index, bit)) is None,
{
    lemma_bit_flip_detected(section, index, bit);
}

pub open spec fn prepend_streams(acc: Seq<EsView>, r: Option<Seq<EsView>>) -> Option<Seq<EsView>> {
    match r {
        Some(rest) => Some(acc + rest),
        None => None,
    }
}

fn read_length12(s: &[u8], i: usize) -> (r: usize)
    requires
        i + 2 <= s@.len(),
    ensures
        r == length12_at(s@, i as int),
        r < 4096,
{
    let _len = s.len();
    let hi = s[i];
    let lo = s[i + 1];
    let v: u16 = (((hi & 0x0f) as u16) << 8) | (lo as u16);
    assert(v < 4096) by (bit_vector)
        requires v == (((hi & 0x0f) as u16) << 8) | (lo as u16);
    v as usize
}

fn read_pid(s: &[u8], i: usize) -> (r: u16)
    requires
        i + 2 <= s@.len(),
    ensures
        r == pid_at(s@, i as int),
{
    let _len = s.len();
    (((s[i] & 0x1f) as u16) << 8) | (s[i + 1] as u16)
}

impl ProgramMapTable {
    /// Decodes a complete program map section without checking its CRC.
    pub fn unmarshall(section: &[u8]) -> (r: Option<Self>)
        ensures
            match r {
                Some(t) => pmt_of_section(section@) == Some(t@),
                None => pmt_of_section(section@).is_none(),
            },
    {
        let len = section.len();
        if len < 16 || section[0] != PMT_TABLE_ID {
            return None;
        }
        let info_len = read_length12(section, 10);
        if 12 + info_len > len - 4 {
            return None;
        }
        let info_end: usize = 12 + info_len;
        let end: usize = len - 4;
        let mut streams: Vec<ElementaryStreamInfo> = Vec::new();
        let ghost mut seen: Seq<EsView> = Seq::empty();
        let mut o: usize = info_end;
        while o < end
            invariant
                info_end <= o <= end,
                end == section@.len() - 4,
                len == section@.len(),
                len >= 16,
                section@[0] == PMT_TABLE_ID,
                info_end == 12 + length12_at(section@, 10),
                seen == Seq::new(streams@.len(), |i: int| es_view(streams@[i])),
                streams_from(section@, info_end as int, end as int) == prepend_streams(
                    seen,
                    streams_from(section@, o as int, end as int),
                ),
            decreases end - o,
        {
            if end - o < 5 {
                return None;
            }
            let es_len = read_length12(section, o + 3);
            if es_len > end - o - 5 {
                return None;
            }
            let next: usize = o + 5 + es_len;
            let descriptors = copy_range(section, o + 5, next);
            let info = ElementaryStreamInfo {
                stream_type: section[o],
                elementary_pid: read_pid(section, o + 1),
                descriptors,
            };
            proof {
                let e = es_view(info);
                match streams_from(section@, next as int, end as int) {
                    Some(rest) => {
                        assert(seen + (seq![e] + rest) =~= seen.push(e) + rest);
                    },
                    None => {},
                }
                seen = seen.push(e);
            }
            streams.push(info);
            proof {
                assert(seen =~= Seq::new(streams@.len(), |i: int| es_view(streams@[i])));
            }
            o = next;
        }
        proof {
            assert(seen + Seq::<EsView>::empty() =~= seen);
        }
        let r = ProgramMapTable {
            program_number: read_be16(section, 3),
            pcr_pid: read_pid(section, 8),
            program_info: copy_range(section, 12, info_end),
            elementary_streams_info: streams,
            crc_32: read_be32(section, len - 4),
        };
        assert(r@.elementary_streams_info =~= seen);
        Some(r)
    }

    /// Decodes a complete program map section, refusing it unless its CRC checks.
    pub fn build(section: &[u8]) -> (r: Option<Self>)
        ensures
            match r {
                Some(t) => checked_pmt_of_section(section@) == Some(t@),
                None => checked_pmt_of_section(section@).is_none(),
            },
    {
        if crc32(section) != 0 {
            return None;
        }
        Self::unmarshall(section)
    }
}

} // verus!

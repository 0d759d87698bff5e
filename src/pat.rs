use vstd::prelude::*;
use crate::bytes::{be16, be32, copy_range, read_be16, read_be32};
use crate::crc::{crc32, flip_bit, lemma_bit_flip_detected, section_crc_ok};
use crate::psi::{header_at, ProgramSpecificInformationHeader, SECTION_HEADER_SIZE};

verus! {

/// Byte that fills the unused tail of a transport packet after a section.
pub const STUFFING_BYTE: u8 = 0xFF;

/// One section of a Program Association Table (or of another table with the same long
/// section syntax, such as a program map) as carried by one transport packet: its
/// header, the 16-bit table id extension that follows the length (the transport stream
/// id of a PAT), and the bytes that follow the header within the section.
#[derive(Debug, Clone)]
pub struct FragmentaryProgramAssociationTable {
    pub header: ProgramSpecificInformationHeader,
    pub transport_stream_id: u16,
    pub header_bytes: Vec<u8>,
    pub payload: Vec<u8>,
}

pub struct FragmentView {
    pub header: ProgramSpecificInformationHeader,
    pub transport_stream_id: u16,
    pub header_bytes: Seq<u8>,
    pub payload: Seq<u8>,
}

impl View for FragmentaryProgramAssociationTable {
    type V = FragmentView;

    open spec fn view(&self) -> FragmentView {
        FragmentView {
            header: self.header,
            transport_stream_id: self.transport_stream_id,
            header_bytes: self.header_bytes@,
            payload: self.payload@,
        }
    }
}

/// Where the section starts: after the pointer field and the bytes it skips, if present.
pub open spec fn section_start(data: Seq<u8>, pointer_field_present: bool) -> int {
    if pointer_field_present {
        1 + data[0]
    } else {
        0
    }
}

/// The fragment that `data` holds, or `None` where the header does not fit or declares
/// a section too short to hold it.
pub open spec fn fragment_of(data: Seq<u8>, pointer_field_present: bool) -> Option<FragmentView> {
    if pointer_field_present && data.len() == 0 {
        None
    } else {
        let o = section_start(data, pointer_field_present);
        if o + 8 > data.len() {
            None
        } else {
            let h = header_at(data, o);
            let declared_end = o + 3 + h.section_length;
            let end = if declared_end < data.len() { declared_end } else { data.len() as int };
            if end < o + 8 {
                None
            } else {
                Some(
                    FragmentView {
                        header: h,
                        transport_stream_id: be16(data, o + 3),
                        header_bytes: data.subrange(o, o + 8),
                        payload: data.subrange(o + 8, end),
                    },
                )
            }
        }
    }
}

impl FragmentaryProgramAssociationTable {
    /// Decodes the PAT section carried by one transport packet payload.
    pub fn unmarshall(data: &[u8], is_pointer_field_present: bool) -> (r: Option<Self>)
        ensures
            match r {
                Some(f) => fragment_of(data@, is_pointer_field_present) == Some(f@),
                None => fragment_of(data@, is_pointer_field_present).is_none(),
            },
    {
        if is_pointer_field_present && data.len() == 0 {
            return None;
        }
        let o: usize = if is_pointer_field_present {
            1 + data[0] as usize
        } else {
            0
        };
        if data.len() < SECTION_HEADER_SIZE || o > data.len() - SECTION_HEADER_SIZE {
            return None;
        }
        let header = ProgramSpecificInformationHeader::unmarshall(data, o);
        let declared_end: usize = o + 3 + header.section_length as usize;
        let end: usize = if declared_end < data.len() {
            declared_end
        } else {
            data.len()
        };
        if end < o + 8 {
            return None;
        }
        let transport_stream_id = read_be16(data, o + 3);
        let header_bytes = copy_range(data, o, o + 8);
        let payload = copy_range(data, o + 8, end);
        Some(FragmentaryProgramAssociationTable { header, transport_stream_id, header_bytes, payload })
    }
}

/// One entry of the program list: program 0 names the network PID, every other
/// program its program map PID.
#[derive(Debug, Clone, Copy, PartialEq, Eq, Structural)]
pub struct ProgramAssociationItem {
    pub program_number: u16,
    pub network_pid: Option<u16>,
    pub program_map_pid: Option<u16>,
}

#[derive(Debug, Clone, PartialEq, Eq)]
pub struct ProgramAssociationTable {
    pub transport_stream_id: u16,
    pub programs: Vec<ProgramAssociationItem>,
    pub crc_32: u32,
}

pub struct PatView {
    pub transport_stream_id: u16,
    pub programs: Seq<ProgramAssociationItem>,
    pub crc_32: u32,
}

impl View for ProgramAssociationTable {
    type V = PatView;

    open spec fn view(&self) -> PatView {
        PatView {
            transport_stream_id: self.transport_stream_id,
            programs: self.programs@,
            crc_32: self.crc_32,
        }
    }
}

/// The program entry whose four bytes start at `i`.
pub open spec fn item_at(s: Seq<u8>, i: int) -> ProgramAssociationItem {
    let number = be16(s, i);
    let pid = (((s[i + 2] & 0x1f) as u16) << 8) | (s[i + 3] as u16);
    if number == 0 {
        ProgramAssociationItem { program_number: number, network_pid: Some(pid), program_map_pid: None }
    } else {
        ProgramAssociationItem { program_number: number, network_pid: None, program_map_pid: Some(pid) }
    }
}

/// Number of program entries in a section of `len` bytes.
pub open spec fn program_count(len: int) -> int {
    (len - 12) / 4
}

/// The table that a complete section spells out, its CRC not checked: a header of table
/// id 0, whole four-byte program entries, and a four-byte CRC field.
pub open spec fn pat_of_section(s: Seq<u8>) -> Option<PatView> {
    if s.len() >= 12 && (s.len() - 12) % 4 == 0 && s[0] == 0 {
        Some(
            PatView {
                transport_stream_id: be16(s, 3),
                programs: Seq::new(
                    program_count(s.len() as int) as nat,
                    |k: int| item_at(s, 8 + 4 * k),
                ),
                crc_32: be32(s, s.len() - 4),
            },
        )
    } else {
        None
    }
}

/// The table that a section yields once its CRC has been checked.
pub open spec fn checked_pat_of_section(s: Seq<u8>) -> Option<PatView> {
    if section_crc_ok(s) {
        pat_of_section(s)
    } else {
        None
    }
}

/// `s` without its trailing stuffing bytes.
pub open spec fn strip_stuffing(s: Seq<u8>) -> Seq<u8>
    decreases s.len(),
{
    if s.len() > 0 && s.last() == STUFFING_BYTE {
        strip_stuffing(s.drop_last())
    } else {
        s
    }
}

fn read_item(s: &[u8], i: usize) -> (r: ProgramAssociationItem)
    requires
        i + 4 <= s@.len(),
    ensures
        r == item_at(s@, i as int),
{
    let number = read_be16(s, i);
    let _len = s.len();
    let j: usize = i + 2;
    let pid = (((s[j] & 0x1f) as u16) << 8) | (s[j + 1] as u16);
    if number == 0 {
        ProgramAssociationItem { program_number: number, network_pid: Some(pid), program_map_pid: None }
    } else {
        ProgramAssociationItem { program_number: number, network_pid: None, program_map_pid: Some(pid) }
    }
}

/// Length of `s` once trailing stuffing bytes are dropped.
pub fn stuffing_free_len(s: &[u8]) -> (r: usize)
    ensures
        r <= s@.len(),
        s@.subrange(0, r as int) == strip_stuffing(s@),
{
    let mut end: usize = s.len();
    assert(s@.subrange(0, end as int) =~= s@);
    while end > 0 && s[end - 1] == STUFFING_BYTE
        invariant
            end <= s@.len(),
            strip_stuffing(s@.subrange(0, end as int)) == strip_stuffing(s@),
        decreases end,
    {
        proof {
            assert(s@.subrange(0, end as int).drop_last() =~= s@.subrange(0, end as int - 1));
        }
        end = end - 1;
    }
    proof {
        assert(s@.subrange(0, end as int) =~= s@.subrange(0, end as int));
    }
    end
}

/// A section that decodes to a table no longer decodes once any single bit of it is
/// inverted: corruption fails the CRC check instead of yielding a wrong table.
pub proof fn lemma_corrupted_section_rejected(section: Seq<u8>, index: int, bit: u8)
    requires
        checked_pat_of_section(section) is Some,
        0 <= index < section.len(),
        bit < 8,
    ensures
        checked_pat_of_section(flip_bit(section, index, bit)) is None,
{
    lemma_bit_flip_detected(section, index, bit);
}

impl ProgramAssociationTable {
    /// Decodes a complete section without checking its CRC.
    pub fn unmarshall(section: &[u8]) -> (r: Option<Self>)
        ensures
            match r {
                Some(t) => pat_of_section(section@) == Some(t@),
                None => pat_of_section(section@).is_none(),
            },
    {
        let len = section.len();
        if len < 12 || (len - 12) % 4 != 0 || section[0] != 0 {
            return None;
        }
        let count: usize = (len - 12) / 4;
        proof {
            assert(count * 4 == len - 12) by (nonlinear_arith)
                requires count == (len - 12) / 4, (len - 12) % 4 == 0;
        }
        let mut programs: Vec<ProgramAssociationItem> = Vec::new();
        let mut k: usize = 0;
        while k < count
            invariant
                k <= count,
                count * 4 == len - 12,
                len == section@.len(),
                programs@ =~= Seq::new(k as nat, |j: int| item_at(section@, 8 + 4 * j)),
            decreases count - k,
        {
            proof {
                assert(8 + 4 * k + 4 <= len) by (nonlinear_arith)
                    requires k < count, count * 4 == len - 12;
            }
            let item = read_item(section, 8 + 4 * k);
            programs.push(item);
            k = k + 1;
        }
        let transport_stream_id = read_be16(section, 3);
        let crc_32 = read_be32(section, len - 4);
        Some(ProgramAssociationTable { transport_stream_id, programs, crc_32 })
    }

    /// Decodes a complete section, refusing it unless its CRC checks.
    pub fn build(section: &[u8]) -> (r: Option<Self>)
        ensures
            match r {
                Some(t) => checked_pat_of_section(section@) == Some(t@),
                None => checked_pat_of_section(section@).is_none(),
            },
    {
        if crc32(section) != 0 {
            return None;
        }
        Self::unmarshall(section)
    }
}

} // verus!

use vstd::prelude::*;
use crate::pat::ProgramAssociationTable;
use crate::pmt::ProgramMapTable;

verus! {

/// Largest `section_length` that a PSI section may declare.
pub const MAX_SECTION_LENGTH: usize = 0x3FD;

/// Number of bytes from `table_id` through `last_section_number`.
pub const SECTION_HEADER_SIZE: usize = 8;

/// Section-syntax header fields shared by every PSI table.
#[derive(Debug, Clone, Copy, PartialOrd, Ord, Eq)]
pub struct ProgramSpecificInformationHeader {
    pub table_id: u8,
    pub section_syntax_indicator: bool,
    pub section_length: u16,
    pub version_number: u8,
    pub current_next_indicator: bool,
    pub section_number: u8,
    pub last_section_number: u8,
}

impl PartialEq for ProgramSpecificInformationHeader {
    fn eq(&self, other: &Self) -> (r: bool)
        ensures
            r == (*self == *other),
    {
        self.table_id == other.table_id && self.section_syntax_indicator
            == other.section_syntax_indicator && self.section_length == other.section_length
            && self.version_number == other.version_number && self.current_next_indicator
            == other.current_next_indicator && self.section_number == other.section_number
            && self.last_section_number == other.last_section_number
    }
}

impl vstd::std_specs::cmp::PartialEqSpecImpl for ProgramSpecificInformationHeader {
    open spec fn obeys_eq_spec() -> bool {
        true
    }

    open spec fn eq_spec(&self, other: &Self) -> bool {
        *self == *other
    }
}

/// The header whose eight bytes start at `o`.
pub open spec fn header_at(s: Seq<u8>, o: int) -> ProgramSpecificInformationHeader {
    ProgramSpecificInformationHeader {
        table_id: s[o],
        section_syntax_indicator: s[o + 1] & 0x80 != 0,
        section_length: (((s[o + 1] & 0x0f) as u16) << 8) | (s[o + 2] as u16),
        version_number: (s[o + 5] >> 1) & 0x1f,
        current_next_indicator: s[o + 5] & 0x01 != 0,
        section_number: s[o + 6],
        last_section_number: s[o + 7],
    }
}

impl ProgramSpecificInformationHeader {
    /// Reads the eight header bytes that start at `offset`.
    pub fn unmarshall(data: &[u8], offset: usize) -> (r: Self)
        requires
            offset + SECTION_HEADER_SIZE <= data@.len(),
        ensures
            r == header_at(data@, offset as int),
    {
        let o = offset;
        ProgramSpecificInformationHeader {
            table_id: data[o],
            section_syntax_indicator: data[o + 1] & 0x80 != 0,
            section_length: (((data[o + 1] & 0x0f) as u16) << 8) | (data[o + 2] as u16),
            version_number: (data[o + 5] >> 1) & 0x1f,
            current_next_indicator: data[o + 5] & 0x01 != 0,
            section_number: data[o + 6],
            last_section_number: data[o + 7],
        }
    }
}

/// A decoded PSI table.
#[derive(Debug, Clone)]
pub enum PsiTypes {
    PAT(ProgramAssociationTable),
    PMT(ProgramMapTable),
    NONE,
}

/// The kind of table that a `table_id` announces (ISO/IEC 13818-1, table 2-31).
#[derive(Debug, Clone, Copy, PartialEq, Eq, Structural)]
pub enum TableId {
    ProgramAssociationSection,
    ConditionalAccessSection,
    TsProgramMapSection,
    TsDescriptionSection,
    IsoIec14496SceneDescriptionSection,
    IsoIec14496ObjectDescriptorSection,
    MetadataSection,
    IpmpControlInformationSection,
    IsoIec14496Section,
    IsoIse23001_11GreenAccessUnitSection,
    IsoIse23001_10QualityAccessUnitSection,
    RecItuTH222_0IsoIec13818_1Reserved,
    DefinedInIsoIec13818_6,
    UserPrivate,
    Forbidden,
}

pub open spec fn table_id_of(id: u8) -> TableId {
    if id == 0x00 {
        TableId::ProgramAssociationSection
    } else if id == 0x01 {
        TableId::ConditionalAccessSection
    } else if id == 0x02 {
        TableId::TsProgramMapSection
    } else if id == 0x03 {
        TableId::TsDescriptionSection
    } else if id == 0x04 {
        TableId::IsoIec14496SceneDescriptionSection
    } else if id == 0x05 {
        TableId::IsoIec14496ObjectDescriptorSection
    } else if id == 0x06 {
        TableId::MetadataSection
    } else if id == 0x07 {
        TableId::IpmpControlInformationSection
    } else if id == 0x08 {
        TableId::IsoIec14496Section
    } else if id == 0x09 {
        TableId::IsoIse23001_11GreenAccessUnitSection
    } else if id == 0x0A {
        TableId::IsoIse23001_10QualityAccessUnitSection
    } else if id <= 0x37 {
        TableId::RecItuTH222_0IsoIec13818_1Reserved
    } else if id <= 0x3F {
        TableId::DefinedInIsoIec13818_6
    } else if id <= 0xFE {
        TableId::UserPrivate
    } else {
        TableId::Forbidden
    }
}

impl From<u8> for TableId {
    fn from(table_id: u8) -> (r: Self)
        ensures
            r == table_id_of(table_id),
    {
        match table_id {
            0x00 => TableId::ProgramAssociationSection,
            0x01 => TableId::ConditionalAccessSection,
            0x02 => TableId::TsProgramMapSection,
            0x03 => TableId::TsDescriptionSection,
            0x04 => TableId::IsoIec14496SceneDescriptionSection,
            0x05 => TableId::IsoIec14496ObjectDescriptorSection,
            0x06 => TableId::MetadataSection,
            0x07 => TableId::IpmpControlInformationSection,
            0x08 => TableId::IsoIec14496Section,
            0x09 => TableId::IsoIse23001_11GreenAccessUnitSection,
            0x0A => TableId::IsoIse23001_10QualityAccessUnitSection,
            0x0B..=0x37 => TableId::RecItuTH222_0IsoIec13818_1Reserved,
            0x38..=0x3F => TableId::DefinedInIsoIec13818_6,
            0x40..=0xFE => TableId::UserPrivate,
            0xFF => TableId::Forbidden,
        }
    }
}

impl vstd::std_specs::convert::FromSpecImpl<u8> for TableId {
    open spec fn obeys_from_spec() -> bool {
        true
    }

    open spec fn from_spec(v: u8) -> Self {
        table_id_of(v)
    }
}

} // verus!

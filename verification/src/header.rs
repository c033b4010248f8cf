//! The DOS stub, the PE signature and the fields of the COFF header that
//! the rest of the analysis starts from.

use vstd::prelude::*;
use crate::bytes::{can_read, le_u16, le_u32, read_u16, read_u32, readable};
use crate::error::{AnalysisError, Phase};

verus! {

/// Where the DOS stub keeps the offset of the PE signature.
pub const COFF_POINTER_OFFSET: u64 = 0x3C;

/// From the PE signature to the number of sections.
pub const SECTION_COUNT_OFFSET: u64 = 0x06;

/// From the PE signature to the size of the optional header.
pub const OPTIONAL_HEADER_SIZE_OFFSET: u64 = 0x14;

/// From the PE signature to the optional header, which starts with its magic.
pub const OPTIONAL_HEADER_OFFSET: u64 = 0x18;

/// The optional header's magic in a 32-bit image.
pub const MAGIC_PE32: u16 = 0x10B;

/// The optional header's magic in a 64-bit image.
pub const MAGIC_PE32_PLUS: u16 = 0x20B;

/// What the header says of the image.
#[derive(Clone, Copy, Debug, PartialEq, Eq, Structural)]
pub struct PeHeader {
    /// Offset of the PE signature, which the COFF header follows.
    pub coff_header_offset: u32,
    /// Whether the image is a 64-bit one.
    pub is_64bit: bool,
    /// Size of the optional header, after which the section table starts.
    pub optional_header_size: u16,
    /// Number of entries in the section table.
    pub section_count: u16,
}

/// `data` starts with the letters `MZ`.
pub open spec fn has_dos_magic(data: Seq<u8>) -> bool {
    data[0] == 0x4D && data[1] == 0x5A
}

/// The four bytes at `off` are `PE` and two zero bytes.
pub open spec fn has_pe_signature(data: Seq<u8>, off: int) -> bool {
    data[off] == 0x50 && data[off + 1] == 0x45 && data[off + 2] == 0 && data[off + 3] == 0
}

/// The header of the image in `data`, or the reason why it has none.
pub open spec fn spec_parse_header(data: Seq<u8>) -> Result<PeHeader, AnalysisError> {
    if !readable(data, 0, 2) {
        Err(AnalysisError::IoError(Phase::Header))
    } else if !has_dos_magic(data) {
        Err(AnalysisError::NotAPeFile)
    } else if !readable(data, COFF_POINTER_OFFSET as int, 4) {
        Err(AnalysisError::IoError(Phase::Header))
    } else {
        let coff = le_u32(data, COFF_POINTER_OFFSET as int);
        if !readable(data, coff as int, 4) {
            Err(AnalysisError::IoError(Phase::Header))
        } else if !has_pe_signature(data, coff as int) {
            Err(AnalysisError::NotAPeFile)
        } else if !readable(data, coff + OPTIONAL_HEADER_OFFSET, 2) {
            Err(AnalysisError::IoError(Phase::Header))
        } else {
            let magic = le_u16(data, coff + OPTIONAL_HEADER_OFFSET);
            if magic != MAGIC_PE32 && magic != MAGIC_PE32_PLUS {
                Err(AnalysisError::UnknownImageFormat)
            } else {
                Ok(
                    PeHeader {
                        coff_header_offset: coff,
                        is_64bit: magic == MAGIC_PE32_PLUS,
                        optional_header_size: le_u16(data, coff + OPTIONAL_HEADER_SIZE_OFFSET),
                        section_count: le_u16(data, coff + SECTION_COUNT_OFFSET),
                    },
                )
            }
        }
    }
}

/// An image of two bytes or more that does not start with `MZ` is no PE
/// file, whatever follows.
pub proof fn lemma_missing_dos_magic(data: Seq<u8>)
    requires
        data.len() >= 2,
        !has_dos_magic(data),
    ensures
        spec_parse_header(data) == Err::<PeHeader, AnalysisError>(AnalysisError::NotAPeFile),
{
}

/// An image that starts with `MZ` and whose COFF pointer leads to four
/// bytes other than the PE signature is no PE file.
pub proof fn lemma_wrong_pe_signature(data: Seq<u8>)
    requires
        data.len() >= COFF_POINTER_OFFSET + 4,
        has_dos_magic(data),
        readable(data, le_u32(data, COFF_POINTER_OFFSET as int) as int, 4),
        !has_pe_signature(data, le_u32(data, COFF_POINTER_OFFSET as int) as int),
    ensures
        spec_parse_header(data) == Err::<PeHeader, AnalysisError>(AnalysisError::NotAPeFile),
{
}

/// Checks the two signatures and reads the header fields.
pub fn parse_header(data: &[u8]) -> (r: Result<PeHeader, AnalysisError>)
    ensures
        r == spec_parse_header(data@),
{
    if !can_read(data, 0, 2) {
        return Err(AnalysisError::IoError(Phase::Header));
    }
    if data[0] != 0x4D || data[1] != 0x5A {
        return Err(AnalysisError::NotAPeFile);
    }
    let coff: u32 = match read_u32(data, COFF_POINTER_OFFSET) {
        Some(v) => v,
        None => { return Err(AnalysisError::IoError(Phase::Header)); },
    };
    let base: u64 = coff as u64;
    if !can_read(data, base, 4) {
        return Err(AnalysisError::IoError(Phase::Header));
    }
    let at: usize = base as usize;
    if data[at] != 0x50 || data[at + 1] != 0x45 || data[at + 2] != 0 || data[at + 3] != 0 {
        return Err(AnalysisError::NotAPeFile);
    }
    let magic: u16 = match read_u16(data, base + OPTIONAL_HEADER_OFFSET) {
        Some(v) => v,
        None => { return Err(AnalysisError::IoError(Phase::Header)); },
    };
    if magic != MAGIC_PE32 && magic != MAGIC_PE32_PLUS {
        return Err(AnalysisError::UnknownImageFormat);
    }
    let optional_header_size: u16 = match read_u16(data, base + OPTIONAL_HEADER_SIZE_OFFSET) {
        Some(v) => v,
        None => { return Err(AnalysisError::IoError(Phase::Header)); },
    };
    let section_count: u16 = match read_u16(data, base + SECTION_COUNT_OFFSET) {
        Some(v) => v,
        None => { return Err(AnalysisError::IoError(Phase::Header)); },
    };
    Ok(
        PeHeader {
            coff_header_offset: coff,
            is_64bit: magic == MAGIC_PE32_PLUS,
            optional_header_size,
            section_count,
        },
    )
}

} // verus!

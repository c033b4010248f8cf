//! The two slots of the data-directory array that the analysis follows.

use vstd::prelude::*;
use crate::bytes::{can_read, le_u32, read_u32, readable};
use crate::error::{AnalysisError, Phase};
use crate::header::OPTIONAL_HEADER_OFFSET;

verus! {

/// From the optional header of a 32-bit image to its data directories.
pub const DATA_DIRECTORY_OFFSET_PE32: u64 = 0x60;

/// From the optional header of a 64-bit image to its data directories.
pub const DATA_DIRECTORY_OFFSET_PE32_PLUS: u64 = 0x70;

/// Address and size of the export and of the import directory.
#[derive(Clone, Copy, Debug, PartialEq, Eq, Structural)]
pub struct DataDirectories {
    /// Virtual address of the export directory.
    pub export_rva: u32,
    /// Size of the export directory; 0 when the image exports nothing.
    pub export_size: u32,
    /// Virtual address of the import descriptors.
    pub import_rva: u32,
    /// Size of the import descriptors; 0 when the image imports nothing.
    pub import_size: u32,
}

/// Where the data-directory array starts.
pub open spec fn data_directory_offset(coff_header_offset: u32, is_64bit: bool) -> int {
    coff_header_offset + OPTIONAL_HEADER_OFFSET + if is_64bit {
        DATA_DIRECTORY_OFFSET_PE32_PLUS
    } else {
        DATA_DIRECTORY_OFFSET_PE32
    }
}

/// The first two slots of the array, eight bytes each: address, then size.
pub open spec fn spec_read_directories(
    data: Seq<u8>,
    coff_header_offset: u32,
    is_64bit: bool,
) -> Result<DataDirectories, AnalysisError> {
    let at = data_directory_offset(coff_header_offset, is_64bit);
    if readable(data, at, 16) {
        Ok(
            DataDirectories {
                export_rva: le_u32(data, at),
                export_size: le_u32(data, at + 4),
                import_rva: le_u32(data, at + 8),
                import_size: le_u32(data, at + 12),
            },
        )
    } else {
        Err(AnalysisError::IoError(Phase::DataDirectories))
    }
}

/// Reads the export and the import slot of the data-directory array.
pub fn read_directories(data: &[u8], coff_header_offset: u32, is_64bit: bool) -> (r: Result<
    DataDirectories,
    AnalysisError,
>)
    ensures
        r == spec_read_directories(data@, coff_header_offset, is_64bit),
{
    let at: u64 = coff_header_offset as u64 + OPTIONAL_HEADER_OFFSET + if is_64bit {
        DATA_DIRECTORY_OFFSET_PE32_PLUS
    } else {
        DATA_DIRECTORY_OFFSET_PE32
    };
    if !can_read(data, at, 16) {
        return Err(AnalysisError::IoError(Phase::DataDirectories));
    }
    match (read_u32(data, at), read_u32(data, at + 4), read_u32(data, at + 8), read_u32(
        data,
        at + 12,
    )) {
        (Some(export_rva), Some(export_size), Some(import_rva), Some(import_size)) => Ok(
            DataDirectories { export_rva, export_size, import_rva, import_size },
        ),
        _ => Err(AnalysisError::IoError(Phase::DataDirectories)),
    }
}

} // verus!

//! The ways an analysis can fail.

use vstd::prelude::*;

verus! {

/// The step that was reading when the image turned out to be too short.
#[derive(Clone, Copy, Debug, PartialEq, Eq, Structural)]
pub enum Phase {
    /// Opening the image or asking for its size.
    Open,
    /// The DOS stub, the PE signature and the fields of the COFF header.
    Header,
    /// The section table.
    SectionTable,
    /// The export and import slots of the data-directory array.
    DataDirectories,
    /// The export directory and the tables it points to.
    ExportTable,
    /// The import descriptors and the tables they point to.
    ImportTable,
}

/// A table whose address must lie in some section.
#[derive(Clone, Copy, Debug, PartialEq, Eq, Structural)]
pub enum Directory {
    /// The export directory itself.
    Export,
    /// The export address table.
    ExportAddressTable,
    /// The export name-pointer table.
    ExportNamePointerTable,
    /// The export ordinal table.
    ExportOrdinalTable,
    /// The import descriptor array.
    Import,
}

/// Why an image could not be analysed.
#[derive(Clone, Copy, Debug, PartialEq, Eq, Structural)]
pub enum AnalysisError {
    /// The path names no file.
    NotFound,
    /// The image could not be opened, or ended before a field that `Phase` was reading.
    IoError(Phase),
    /// The DOS magic or the PE signature is wrong.
    NotAPeFile,
    /// The optional header's magic is neither the 32-bit nor the 64-bit marker.
    UnknownImageFormat,
    /// The address of a mandatory table lies in no section.
    DirectoryUnresolved(Directory),
}

impl AnalysisError {
    /// The text of `message`.
    pub open spec fn spec_message(self) -> Seq<char> {
        match self {
            AnalysisError::NotFound => "file not found"@,
            AnalysisError::IoError(Phase::Open) => "cannot open the file"@,
            AnalysisError::IoError(Phase::Header) => "cannot read the file: header is truncated"@,
            AnalysisError::IoError(Phase::SectionTable) =>
                "cannot read the file: section table is truncated"@,
            AnalysisError::IoError(Phase::DataDirectories) =>
                "cannot read the file: data directories are truncated"@,
            AnalysisError::IoError(Phase::ExportTable) =>
                "cannot read the file: export table is truncated"@,
            AnalysisError::IoError(Phase::ImportTable) =>
                "cannot read the file: import table is truncated"@,
            AnalysisError::NotAPeFile => "not a valid PE file"@,
            AnalysisError::UnknownImageFormat => "unknown PE image format"@,
            AnalysisError::DirectoryUnresolved(Directory::Export) =>
                "export directory address lies in no section"@,
            AnalysisError::DirectoryUnresolved(Directory::ExportAddressTable) =>
                "export address table address lies in no section"@,
            AnalysisError::DirectoryUnresolved(Directory::ExportNamePointerTable) =>
                "export name table address lies in no section"@,
            AnalysisError::DirectoryUnresolved(Directory::ExportOrdinalTable) =>
                "export ordinal table address lies in no section"@,
            AnalysisError::DirectoryUnresolved(Directory::Import) =>
                "import directory address lies in no section"@,
        }
    }

    /// A sentence for the person who asked for the analysis.
    pub fn message(&self) -> (msg: String)
        ensures
            msg@ == self.spec_message(),
    {
        let text: &str = match self {
            AnalysisError::NotFound => "file not found",
            AnalysisError::IoError(Phase::Open) => "cannot open the file",
            AnalysisError::IoError(Phase::Header) => "cannot read the file: header is truncated",
            AnalysisError::IoError(Phase::SectionTable) =>
                "cannot read the file: section table is truncated",
            AnalysisError::IoError(Phase::DataDirectories) =>
                "cannot read the file: data directories are truncated",
            AnalysisError::IoError(Phase::ExportTable) =>
                "cannot read the file: export table is truncated",
            AnalysisError::IoError(Phase::ImportTable) =>
                "cannot read the file: import table is truncated",
            AnalysisError::NotAPeFile => "not a valid PE file",
            AnalysisError::UnknownImageFormat => "unknown PE image format",
            AnalysisError::DirectoryUnresolved(Directory::Export) =>
                "export directory address lies in no section",
            AnalysisError::DirectoryUnresolved(Directory::ExportAddressTable) =>
                "export address table address lies in no section",
            AnalysisError::DirectoryUnresolved(Directory::ExportNamePointerTable) =>
                "export name table address lies in no section",
            AnalysisError::DirectoryUnresolved(Directory::ExportOrdinalTable) =>
                "export ordinal table address lies in no section",
            AnalysisError::DirectoryUnresolved(Directory::Import) =>
                "import directory address lies in no section",
        };
        text.to_owned()
    }
}

/// An outcome with its value seen through its view.
pub open spec fn outcome_view<T: DeepView>(r: Result<T, AnalysisError>) -> Result<
    T::V,
    AnalysisError,
> {
    match r {
        Ok(v) => Ok(v.deep_view()),
        Err(e) => Err(e),
    }
}

} // verus!

//! The analysis of a whole image: header, sections, exports and imports.

use vstd::prelude::*;
use crate::bytes::{le_u32, readable};
use crate::directory::{read_directories, spec_read_directories};
use crate::error::{outcome_view, AnalysisError, Phase};
use crate::export::{
    lemma_read_exports, read_exports, spec_read_exports, ExportFunction, ExportFunctionView,
};
use crate::header::{
    has_dos_magic, has_pe_signature, lemma_missing_dos_magic, lemma_wrong_pe_signature,
    parse_header, spec_parse_header, PeHeader, COFF_POINTER_OFFSET,
};
use crate::import::{
    lemma_read_imports, read_imports, spec_read_imports, ImportTableEntry, ImportTableEntryView,
};
use crate::section::{
    lemma_sections_wf, read_sections, section_table_offset, spec_read_sections, Section,
    SectionView,
};
use crate::sort::is_sorted;

verus! {

/// What the analysis of an image found.
#[derive(Clone, Debug, PartialEq, Eq)]
pub struct AnalysisResult {
    /// The path that the image was read from.
    pub path: String,
    /// The size of the image in bytes.
    pub size: u64,
    /// Whether the image is a 64-bit one.
    pub is_64bit: bool,
    /// The sections, in the order of the section table.
    pub sections: Vec<Section>,
    /// The exported functions, sorted by ordinal.
    pub exports: Vec<ExportFunction>,
    /// The imported functions, one entry for each library.
    pub imports: Vec<ImportTableEntry>,
}

/// The result of an analysis as the contracts see it: the fields of
/// `AnalysisResult`, text as characters and lists as sequences of views.
pub struct AnalysisResultView {
    pub path: Seq<char>,
    pub size: nat,
    pub is_64bit: bool,
    pub sections: Seq<SectionView>,
    pub exports: Seq<ExportFunctionView>,
    pub imports: Seq<ImportTableEntryView>,
}

impl AnalysisResultView {
    /// Every section is well formed, the exports are sorted by ordinal, and
    /// the functions of each import entry are sorted by hint and well formed.
    pub open spec fn wf(self) -> bool {
        &&& forall|i: int| 0 <= i < self.sections.len() ==> (#[trigger] self.sections[i]).wf()
        &&& is_sorted::<ExportFunction>(self.exports)
        &&& forall|i: int| 0 <= i < self.imports.len() ==> (#[trigger] self.imports[i]).wf()
    }
}

impl View for AnalysisResult {
    type V = AnalysisResultView;

    open spec fn view(&self) -> AnalysisResultView {
        AnalysisResultView {
            path: self.path@,
            size: self.size as nat,
            is_64bit: self.is_64bit,
            sections: self.sections.deep_view(),
            exports: self.exports.deep_view(),
            imports: self.imports.deep_view(),
        }
    }
}

impl DeepView for AnalysisResult {
    type V = AnalysisResultView;

    open spec fn deep_view(&self) -> AnalysisResultView {
        self@
    }
}

/// The sections that the header `h` announces.
pub open spec fn spec_sections_of(data: Seq<u8>, h: PeHeader) -> Result<
    Seq<SectionView>,
    AnalysisError,
> {
    spec_read_sections(
        data,
        section_table_offset(h.coff_header_offset, h.optional_header_size),
        h.section_count as nat,
    )
}

/// The analysis of the image `data` that was read from `path`. The steps
/// follow one another, and the first that fails gives the error: header,
/// section table, data directories, exports, imports.
pub open spec fn spec_analyze(path: Seq<char>, data: Seq<u8>) -> Result<
    AnalysisResultView,
    AnalysisError,
> {
    match spec_parse_header(data) {
        Err(e) => Err(e),
        Ok(h) => match spec_sections_of(data, h) {
            Err(e) => Err(e),
            Ok(sections) => match spec_read_directories(data, h.coff_header_offset, h.is_64bit) {
                Err(e) => Err(e),
                Ok(d) => match spec_read_exports(data, sections, d.export_rva, d.export_size) {
                    Err(e) => Err(e),
                    Ok(exports) => match spec_read_imports(
                        data,
                        sections,
                        h.is_64bit,
                        d.import_rva,
                        d.import_size,
                    ) {
                        Err(e) => Err(e),
                        Ok(imports) => Ok(
                            AnalysisResultView {
                                path,
                                size: data.len(),
                                is_64bit: h.is_64bit,
                                sections,
                                exports,
                                imports,
                            },
                        ),
                    },
                },
            },
        },
    }
}

/// An analysis that succeeds reports the path it was given and the length
/// of the image as its size, and what it reports is well formed.
pub proof fn lemma_analysis_result(path: Seq<char>, data: Seq<u8>)
    ensures
        spec_analyze(path, data) matches Ok(r) ==> {
            &&& r.path == path
            &&& r.size == data.len()
            &&& r.wf()
        },
{
    if let Ok(h) = spec_parse_header(data) {
        lemma_sections_wf(
            data,
            section_table_offset(h.coff_header_offset, h.optional_header_size),
            h.section_count as nat,
        );
        if let Ok(sections) = spec_sections_of(data, h) {
            if let Ok(d) = spec_read_directories(data, h.coff_header_offset, h.is_64bit) {
                lemma_read_exports(data, sections, d.export_rva, d.export_size);
                lemma_read_imports(data, sections, h.is_64bit, d.import_rva, d.import_size);
            }
        }
    }
}

/// An image is valid when its header, its section table, its data
/// directories, its export table and its import table can each be read.
pub open spec fn valid_image(data: Seq<u8>) -> bool {
    &&& spec_parse_header(data) matches Ok(h)
    &&& spec_sections_of(data, h) matches Ok(sections)
    &&& spec_read_directories(data, h.coff_header_offset, h.is_64bit) matches Ok(d)
    &&& spec_read_exports(data, sections, d.export_rva, d.export_size) is Ok
    &&& spec_read_imports(data, sections, h.is_64bit, d.import_rva, d.import_size) is Ok
}

/// The analysis succeeds on the valid images and on no others, and on
/// those it reports the length of the image as its size.
pub proof fn lemma_analysis_succeeds(path: Seq<char>, data: Seq<u8>)
    ensures
        spec_analyze(path, data) is Ok <==> valid_image(data),
        valid_image(data) ==> spec_analyze(path, data).unwrap().size == data.len(),
{
}

/// The analysis of an image that is at hand fails for what the image holds
/// only: a path that names no file and a file that cannot be opened are met
/// before there is an image.
pub proof fn lemma_analysis_errors(path: Seq<char>, data: Seq<u8>)
    ensures
        spec_analyze(path, data) matches Err(e) ==> e != AnalysisError::NotFound && e
            != AnalysisError::IoError(Phase::Open),
{
}

/// An image whose two directory slots have size 0 needs no more than its
/// header, its section table and the slots: the analysis succeeds and both
/// lists are empty.
pub proof fn lemma_analysis_without_tables(path: Seq<char>, data: Seq<u8>)
    requires
        spec_parse_header(data) is Ok,
        spec_sections_of(data, spec_parse_header(data).unwrap()) is Ok,
        spec_read_directories(
            data,
            spec_parse_header(data).unwrap().coff_header_offset,
            spec_parse_header(data).unwrap().is_64bit,
        ) matches Ok(d) && d.export_size == 0 && d.import_size == 0,
    ensures
        spec_analyze(path, data) matches Ok(r) && r.size == data.len() && r.exports.len() == 0
            && r.imports.len() == 0,
{
}

/// An image of two bytes or more that does not start with `MZ` is refused
/// as no PE file, whatever follows.
pub proof fn lemma_analysis_missing_dos_magic(path: Seq<char>, data: Seq<u8>)
    requires
        data.len() >= 2,
        !has_dos_magic(data),
    ensures
        spec_analyze(path, data) == Err::<AnalysisResultView, AnalysisError>(
            AnalysisError::NotAPeFile,
        ),
{
    lemma_missing_dos_magic(data);
}

/// An image that starts with `MZ` and whose COFF pointer leads to four
/// bytes other than the PE signature is refused as no PE file.
pub proof fn lemma_analysis_wrong_pe_signature(path: Seq<char>, data: Seq<u8>)
    requires
        data.len() >= COFF_POINTER_OFFSET + 4,
        has_dos_magic(data),
        readable(data, le_u32(data, COFF_POINTER_OFFSET as int) as int, 4),
        !has_pe_signature(data, le_u32(data, COFF_POINTER_OFFSET as int) as int),
    ensures
        spec_analyze(path, data) == Err::<AnalysisResultView, AnalysisError>(
            AnalysisError::NotAPeFile,
        ),
{
    lemma_wrong_pe_signature(data);
}

/// Analyses the image `data`, which was read from `path`.
pub fn analyze(path: &str, data: &[u8]) -> (r: Result<AnalysisResult, AnalysisError>)
    ensures
        outcome_view(r) == spec_analyze(path@, data@),
{
    let header = match parse_header(data) {
        Ok(h) => h,
        Err(e) => { return Err(e); },
    };
    let sections = match read_sections(
        data,
        header.coff_header_offset,
        header.optional_header_size,
        header.section_count,
    ) {
        Ok(s) => s,
        Err(e) => { return Err(e); },
    };
    let directories = match read_directories(data, header.coff_header_offset, header.is_64bit) {
        Ok(d) => d,
        Err(e) => { return Err(e); },
    };
    let exports = match read_exports(
        data,
        &sections,
        directories.export_rva,
        directories.export_size,
    ) {
        Ok(e) => e,
        Err(e) => { return Err(e); },
    };
    let imports = match read_imports(
        data,
        &sections,
        header.is_64bit,
        directories.import_rva,
        directories.import_size,
    ) {
        Ok(i) => i,
        Err(e) => { return Err(e); },
    };
    Ok(
        AnalysisResult {
            path: path.to_owned(),
            size: data.len() as u64,
            is_64bit: header.is_64bit,
            sections,
            exports,
            imports,
        },
    )
}

} // verus!

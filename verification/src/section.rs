//! The section table, and the translation of virtual addresses into file
//! offsets that rests on it.

use vstd::prelude::*;
use vstd::slice::slice_subrange;
use crate::bytes::{can_read, le_u32, read_u32, readable};
use crate::error::{outcome_view, AnalysisError, Phase};
use crate::header::OPTIONAL_HEADER_OFFSET;
use crate::text::{decode_padded, spec_decode_padded};

verus! {

/// Size of one entry of the section table.
pub const SECTION_ENTRY_SIZE: u64 = 40;

/// Length of the name field that an entry starts with.
pub const SECTION_NAME_SIZE: u64 = 8;

/// From the start of an entry to its virtual size.
pub const SECTION_VIRTUAL_SIZE_OFFSET: u64 = 8;

/// From the start of an entry to its virtual address.
pub const SECTION_VIRTUAL_ADDRESS_OFFSET: u64 = 12;

/// From the start of an entry to the file offset of its data.
pub const SECTION_RAW_POINTER_OFFSET: u64 = 20;

/// How much of an entry is read.
pub const SECTION_ENTRY_READ: u64 = 24;

/// One section of the image.
#[derive(Clone, Debug, PartialEq, Eq)]
pub struct Section {
    /// The name, without its padding.
    pub name: String,
    /// Where the section starts in memory, relative to the image base.
    pub virtual_address: u32,
    /// Where the section's data starts in the file.
    pub raw_pointer: u32,
    /// The virtual address just past the section.
    pub virtual_end: u64,
}

/// A section as the contracts see it.
pub struct SectionView {
    pub name: Seq<char>,
    pub virtual_address: u32,
    pub raw_pointer: u32,
    pub virtual_end: u64,
}

impl SectionView {
    /// The end is the start plus a size of 32 bits.
    pub open spec fn wf(self) -> bool {
        self.virtual_address <= self.virtual_end <= self.virtual_address + u32::MAX
    }

    /// The size that the section takes in memory.
    pub open spec fn virtual_size(self) -> int {
        self.virtual_end - self.virtual_address
    }

    /// Whether `rva` lies in the section: the start counts, the end does not.
    pub open spec fn contains(self, rva: u32) -> bool {
        self.virtual_address <= rva < self.virtual_end
    }

    /// The file offset of `rva`, for an `rva` that lies in the section.
    pub open spec fn offset_of(self, rva: u32) -> u64 {
        (self.raw_pointer + (rva - self.virtual_address)) as u64
    }
}

impl View for Section {
    type V = SectionView;

    open spec fn view(&self) -> SectionView {
        SectionView {
            name: self.name@,
            virtual_address: self.virtual_address,
            raw_pointer: self.raw_pointer,
            virtual_end: self.virtual_end,
        }
    }
}

impl DeepView for Section {
    type V = SectionView;

    open spec fn deep_view(&self) -> SectionView {
        self@
    }
}

impl Section {
    /// A section from the fields of its table entry.
    pub fn new(name: String, virtual_size: u32, virtual_address: u32, raw_pointer: u32) -> (s:
        Section)
        ensures
            s@ == (SectionView {
                name: name@,
                virtual_address,
                raw_pointer,
                virtual_end: (virtual_address + virtual_size) as u64,
            }),
            s@.wf(),
            s@.virtual_size() == virtual_size,
    {
        Section {
            name,
            virtual_address,
            raw_pointer,
            virtual_end: virtual_address as u64 + virtual_size as u64,
        }
    }
}

/// Where the section table starts.
pub open spec fn section_table_offset(coff_header_offset: u32, optional_header_size: u16) -> int {
    coff_header_offset + OPTIONAL_HEADER_OFFSET + optional_header_size
}

/// The section that the table entry at `off` describes.
pub open spec fn section_at(data: Seq<u8>, off: int) -> SectionView {
    SectionView {
        name: spec_decode_padded(data.subrange(off, off + SECTION_NAME_SIZE)),
        virtual_address: le_u32(data, off + SECTION_VIRTUAL_ADDRESS_OFFSET),
        raw_pointer: le_u32(data, off + SECTION_RAW_POINTER_OFFSET),
        virtual_end: (le_u32(data, off + SECTION_VIRTUAL_ADDRESS_OFFSET) + le_u32(
            data,
            off + SECTION_VIRTUAL_SIZE_OFFSET,
        )) as u64,
    }
}

/// The entry at `off`, when the part of it that is read lies inside `data`.
pub open spec fn spec_read_section(data: Seq<u8>, off: int) -> Option<SectionView> {
    if readable(data, off, SECTION_ENTRY_READ as int) {
        Some(section_at(data, off))
    } else {
        None
    }
}

/// Where entry `i` of the table at `table` starts.
pub open spec fn section_entry_offset(table: int, i: int) -> int {
    table + SECTION_ENTRY_SIZE * i
}

/// Whether entry `i` of the table at `table` can be read.
pub open spec fn section_entry_readable(data: Seq<u8>, table: int, i: int) -> bool {
    readable(data, section_entry_offset(table, i), SECTION_ENTRY_READ as int)
}

/// The sections of a table of `count` entries at `table`, in file order; an
/// error when an entry passes the end of `data`.
pub open spec fn spec_read_sections(data: Seq<u8>, table: int, count: nat) -> Result<
    Seq<SectionView>,
    AnalysisError,
> {
    if forall|i: int| 0 <= i < count ==> #[trigger] section_entry_readable(data, table, i) {
        Ok(Seq::new(count, |i: int| section_at(data, section_entry_offset(table, i))))
    } else {
        Err(AnalysisError::IoError(Phase::SectionTable))
    }
}

/// Every section that is read from a table is well formed.
pub proof fn lemma_sections_wf(data: Seq<u8>, table: int, count: nat)
    ensures
        spec_read_sections(data, table, count) matches Ok(sections) ==> sections.len() == count
            && forall|i: int| 0 <= i < count ==> (#[trigger] sections[i]).wf(),
{
}

/// Reads the table entry at `off`.
pub fn read_section(data: &[u8], off: u64) -> (r: Option<Section>)
    ensures
        r.deep_view() == spec_read_section(data@, off as int),
{
    if !can_read(data, off, SECTION_ENTRY_READ) {
        return None;
    }
    let start: usize = off as usize;
    let name = decode_padded(slice_subrange(data, start, start + 8));
    let virtual_size = read_u32(data, off + SECTION_VIRTUAL_SIZE_OFFSET);
    let virtual_address = read_u32(data, off + SECTION_VIRTUAL_ADDRESS_OFFSET);
    let raw_pointer = read_u32(data, off + SECTION_RAW_POINTER_OFFSET);
    match (virtual_size, virtual_address, raw_pointer) {
        (Some(size), Some(address), Some(pointer)) => Some(
            Section::new(name, size, address, pointer),
        ),
        _ => None,
    }
}

/// Reads the section table: `section_count` entries that start behind the
/// optional header, kept in the order of the file.
pub fn read_sections(
    data: &[u8],
    coff_header_offset: u32,
    optional_header_size: u16,
    section_count: u16,
) -> (r: Result<Vec<Section>, AnalysisError>)
    ensures
        outcome_view(r) == spec_read_sections(
            data@,
            section_table_offset(coff_header_offset, optional_header_size),
            section_count as nat,
        ),
{
    let table: u64 = coff_header_offset as u64 + OPTIONAL_HEADER_OFFSET
        + optional_header_size as u64;
    let mut sections: Vec<Section> = Vec::new();
    let mut i: u16 = 0;
    while i < section_count
        invariant
            i <= section_count,
            table == section_table_offset(coff_header_offset, optional_header_size),
            sections@.len() == i,
            forall|j: int| 0 <= j < i ==> #[trigger] section_entry_readable(data@, table as int, j),
            forall|j: int|
                0 <= j < i ==> (#[trigger] sections@[j])@ == section_at(
                    data@,
                    section_entry_offset(table as int, j),
                ),
        decreases section_count - i,
    {
        match read_section(data, table + SECTION_ENTRY_SIZE * (i as u64)) {
            Some(section) => {
                sections.push(section);
            },
            None => {
                assert(!section_entry_readable(data@, table as int, i as int));
                return Err(AnalysisError::IoError(Phase::SectionTable));
            },
        }
        i += 1;
    }
    assert(sections.deep_view() =~= Seq::new(
        section_count as nat,
        |j: int| section_at(data@, section_entry_offset(table as int, j)),
    ));
    Ok(sections)
}

/// Index of the first section from `from` on that contains `rva`; the
/// number of sections when there is none.
pub open spec fn first_containing(sections: Seq<SectionView>, rva: u32, from: int) -> int
    decreases sections.len() - from,
{
    if from < 0 || from >= sections.len() {
        sections.len() as int
    } else if sections[from].contains(rva) {
        from
    } else {
        first_containing(sections, rva, from + 1)
    }
}

/// The file offset of `rva`: taken from the first section, in table order,
/// that contains it. Nothing when no section does.
pub open spec fn spec_translate(sections: Seq<SectionView>, rva: u32) -> Option<u64> {
    let i = first_containing(sections, rva, 0);
    if i < sections.len() {
        Some(sections[i].offset_of(rva))
    } else {
        None
    }
}

/// `first_containing` is the least index from `from` on whose section
/// contains `rva`.
pub proof fn lemma_first_containing(sections: Seq<SectionView>, rva: u32, from: int)
    requires
        0 <= from <= sections.len(),
    ensures
        from <= first_containing(sections, rva, from) <= sections.len(),
        first_containing(sections, rva, from) < sections.len() ==> sections[first_containing(
            sections,
            rva,
            from,
        )].contains(rva),
        forall|i: int|
            from <= i < first_containing(sections, rva, from) ==> !(#[trigger] sections[i]).contains(
                rva,
            ),
    decreases sections.len() - from,
{
    if from < sections.len() && !sections[from].contains(rva) {
        lemma_first_containing(sections, rva, from + 1);
    }
}

/// Sections that do not contain `rva` can be passed over.
pub proof fn lemma_first_containing_skip(sections: Seq<SectionView>, rva: u32, from: int, to: int)
    requires
        0 <= from <= to <= sections.len(),
        forall|i: int| from <= i < to ==> !(#[trigger] sections[i]).contains(rva),
    ensures
        first_containing(sections, rva, from) == first_containing(sections, rva, to),
    decreases to - from,
{
    if from < to {
        lemma_first_containing_skip(sections, rva, from + 1, to);
    }
}

/// An address resolves exactly when some section contains it.
pub proof fn lemma_translate_resolves(sections: Seq<SectionView>, rva: u32)
    ensures
        spec_translate(sections, rva) is Some <==> exists|i: int|
            0 <= i < sections.len() && (#[trigger] sections[i]).contains(rva),
{
    lemma_first_containing(sections, rva, 0);
}

/// An address outside every section does not resolve.
pub proof fn lemma_translate_outside(sections: Seq<SectionView>, rva: u32)
    requires
        forall|i: int| 0 <= i < sections.len() ==> !(#[trigger] sections[i]).contains(rva),
    ensures
        spec_translate(sections, rva) == None::<u64>,
{
    lemma_first_containing(sections, rva, 0);
}

/// An address inside section `i`, and inside no section before it, is
/// translated through section `i`.
pub proof fn lemma_translate_first_match(sections: Seq<SectionView>, rva: u32, i: int)
    requires
        0 <= i < sections.len(),
        sections[i].contains(rva),
        forall|j: int| 0 <= j < i ==> !(#[trigger] sections[j]).contains(rva),
    ensures
        spec_translate(sections, rva) == Some(
            (sections[i].raw_pointer + (rva - sections[i].virtual_address)) as u64,
        ),
{
    lemma_first_containing_skip(sections, rva, 0, i);
}

/// The first address of a section that is not empty, when no section before
/// it contains that address, is translated to the start of the section's data.
pub proof fn lemma_translate_lower_bound(sections: Seq<SectionView>, i: int)
    requires
        0 <= i < sections.len(),
        sections[i].virtual_address < sections[i].virtual_end,
        forall|j: int|
            0 <= j < i ==> !(#[trigger] sections[j]).contains(sections[i].virtual_address),
    ensures
        spec_translate(sections, sections[i].virtual_address) == Some(
            sections[i].raw_pointer as u64,
        ),
{
    lemma_translate_first_match(sections, sections[i].virtual_address, i);
}

/// The end of a section lies outside it: an address that equals the end of
/// section `i` resolves only if another section contains it.
pub proof fn lemma_translate_upper_bound(sections: Seq<SectionView>, rva: u32, i: int)
    requires
        0 <= i < sections.len(),
        rva == sections[i].virtual_end,
        forall|j: int| 0 <= j < sections.len() && j != i ==> !(#[trigger] sections[j]).contains(rva),
    ensures
        !sections[i].contains(rva),
        spec_translate(sections, rva) == None::<u64>,
{
    lemma_translate_outside(sections, rva);
}

/// Translates a virtual address into a file offset through the first
/// section, in table order, that contains it.
pub fn translate(sections: &Vec<Section>, rva: u32) -> (r: Option<u64>)
    ensures
        r == spec_translate(sections.deep_view(), rva),
{
    let ghost views = sections.deep_view();
    let mut i: usize = 0;
    while i < sections.len()
        invariant
            i <= sections@.len(),
            views == sections.deep_view(),
            forall|j: int| 0 <= j < i ==> !(#[trigger] views[j]).contains(rva),
        decreases sections@.len() - i,
    {
        let section = &sections[i];
        if section.virtual_address <= rva && (rva as u64) < section.virtual_end {
            proof {
                assert(views[i as int] == section@);
                lemma_translate_first_match(views, rva, i as int);
            }
            return Some(section.raw_pointer as u64 + (rva - section.virtual_address) as u64);
        }
        assert(views[i as int] == section@);
        i += 1;
    }
    proof {
        lemma_translate_outside(views, rva);
    }
    None
}

} // verus!

//! The import table: the functions that an image asks of other libraries.

use vstd::prelude::*;
use crate::bytes::{
    can_read, read_u16, read_u32, read_u64, readable, spec_read_u16, spec_read_u32, spec_read_u64,
};
use crate::error::{outcome_view, AnalysisError, Directory, Phase};
use crate::section::{spec_translate, translate, Section, SectionView};
use crate::sort::{
    is_sorted, lemma_sort_is_sorted, lemma_sort_keeps_property, sort_by_key, stable_sort, views,
    SortItem,
};
use crate::text::{read_name, spec_read_name};

verus! {

/// Size of one import descriptor.
pub const IMPORT_DESCRIPTOR_SIZE: u64 = 20;

/// From the start of a descriptor to the address of the library's name.
pub const IMPORT_NAME_OFFSET: u64 = 12;

/// The bit that marks an import by ordinal in a 32-bit lookup entry.
pub const ORDINAL_FLAG_32: u64 = 0x8000_0000;

/// The bit that marks an import by ordinal in a 64-bit lookup entry.
pub const ORDINAL_FLAG_64: u64 = 0x8000_0000_0000_0000;

/// One imported function.
#[derive(Clone, Debug, PartialEq, Eq)]
pub struct ImportFunction {
    /// The name; empty for an import by ordinal.
    pub name: String,
    /// Whether the function is imported by ordinal.
    pub is_ordinal: bool,
    /// The ordinal; 0 for an import by name.
    pub ordinal: u16,
    /// The hint that comes with a name; 0 for an import by ordinal.
    pub hint: u16,
}

/// An imported function as the contracts see it.
pub struct ImportFunctionView {
    pub name: Seq<char>,
    pub is_ordinal: bool,
    pub ordinal: u16,
    pub hint: u16,
}

impl ImportFunctionView {
    /// Only one of name and ordinal is there.
    pub open spec fn wf(self) -> bool {
        if self.is_ordinal {
            self.name == Seq::<char>::empty() && self.hint == 0
        } else {
            self.ordinal == 0
        }
    }
}

/// The import by ordinal `ordinal`.
pub open spec fn ordinal_import(ordinal: u16) -> ImportFunctionView {
    ImportFunctionView { name: Seq::empty(), is_ordinal: true, ordinal, hint: 0 }
}

/// The import by name `name` with hint `hint`.
pub open spec fn named_import(name: Seq<char>, hint: u16) -> ImportFunctionView {
    ImportFunctionView { name, is_ordinal: false, ordinal: 0, hint }
}

impl View for ImportFunction {
    type V = ImportFunctionView;

    open spec fn view(&self) -> ImportFunctionView {
        ImportFunctionView {
            name: self.name@,
            is_ordinal: self.is_ordinal,
            ordinal: self.ordinal,
            hint: self.hint,
        }
    }
}

impl DeepView for ImportFunction {
    type V = ImportFunctionView;

    open spec fn deep_view(&self) -> ImportFunctionView {
        self@
    }
}

impl SortItem for ImportFunction {
    open spec fn key_of(v: ImportFunctionView) -> int {
        v.hint as int
    }

    fn key(&self) -> (k: u64) {
        self.hint as u64
    }
}

impl ImportFunction {
    /// An import by ordinal.
    pub fn by_ordinal(ordinal: u16) -> (f: ImportFunction)
        ensures
            f@ == ordinal_import(ordinal),
            f@.wf(),
    {
        ImportFunction { name: String::new(), is_ordinal: true, ordinal, hint: 0 }
    }

    /// An import by name.
    pub fn by_name(name: String, hint: u16) -> (f: ImportFunction)
        ensures
            f@ == named_import(name@, hint),
            f@.wf(),
    {
        ImportFunction { name, is_ordinal: false, ordinal: 0, hint }
    }
}

/// The functions that an image imports from one library.
#[derive(Clone, Debug, PartialEq, Eq)]
pub struct ImportTableEntry {
    /// The library's name.
    pub library_name: String,
    /// The functions, sorted by hint.
    pub functions: Vec<ImportFunction>,
}

/// An import table entry as the contracts see it.
pub struct ImportTableEntryView {
    pub library_name: Seq<char>,
    pub functions: Seq<ImportFunctionView>,
}

impl ImportTableEntryView {
    /// The functions are sorted by hint and each is well formed.
    pub open spec fn wf(self) -> bool {
        &&& is_sorted::<ImportFunction>(self.functions)
        &&& forall|i: int| 0 <= i < self.functions.len() ==> (#[trigger] self.functions[i]).wf()
    }
}

impl View for ImportTableEntry {
    type V = ImportTableEntryView;

    open spec fn view(&self) -> ImportTableEntryView {
        ImportTableEntryView {
            library_name: self.library_name@,
            functions: self.functions.deep_view(),
        }
    }
}

impl DeepView for ImportTableEntry {
    type V = ImportTableEntryView;

    open spec fn deep_view(&self) -> ImportTableEntryView {
        self@
    }
}

/// What an entry of a lookup table says.
#[derive(Clone, Copy, Debug, PartialEq, Eq, Structural)]
pub enum LookupEntry {
    /// The table ends here.
    End,
    /// An import by this ordinal.
    Ordinal(u16),
    /// An import by the hint and name at this virtual address.
    HintName(u32),
}

/// The width in bytes of a lookup entry.
pub open spec fn lookup_entry_size(is_64bit: bool) -> int {
    if is_64bit {
        8
    } else {
        4
    }
}

/// The flag that marks an import by ordinal: the top bit of an entry.
pub open spec fn ordinal_flag(is_64bit: bool) -> u64 {
    if is_64bit {
        ORDINAL_FLAG_64
    } else {
        ORDINAL_FLAG_32
    }
}

/// What the lookup entry `raw` says: zero ends the table; with the top bit
/// set the low 16 bits are an ordinal; else the low 32 bits are the address
/// of a hint and a name.
pub open spec fn spec_decode_lookup_entry(raw: u64, is_64bit: bool) -> LookupEntry {
    if raw == 0 {
        LookupEntry::End
    } else if raw >= ordinal_flag(is_64bit) {
        LookupEntry::Ordinal((raw % 0x1_0000) as u16)
    } else {
        LookupEntry::HintName((raw % 0x1_0000_0000) as u32)
    }
}

/// The lookup entry at `off`, when it lies inside `data`.
pub open spec fn spec_read_lookup_entry(data: Seq<u8>, off: int, is_64bit: bool) -> Option<u64> {
    if is_64bit {
        spec_read_u64(data, off)
    } else {
        match spec_read_u32(data, off) {
            Some(v) => Some(v as u64),
            None => None,
        }
    }
}

/// The hint and the name at `at`: two bytes of hint, then the name up to
/// its terminator.
pub open spec fn spec_read_hint_name(data: Seq<u8>, at: int) -> Option<ImportFunctionView> {
    match (spec_read_u16(data, at), spec_read_name(data, at + 2)) {
        (Some(hint), Some(name)) => Some(named_import(name, hint)),
        _ => None,
    }
}

/// The function that a lookup entry stands for. The outer `None` says that
/// `data` ended too early; the inner one that the entry is passed over,
/// because the address of its hint and name lies in no section.
pub open spec fn spec_import_function(
    data: Seq<u8>,
    sections: Seq<SectionView>,
    entry: LookupEntry,
) -> Option<Option<ImportFunctionView>> {
    match entry {
        LookupEntry::End => Some(None),
        LookupEntry::Ordinal(ordinal) => Some(Some(ordinal_import(ordinal))),
        LookupEntry::HintName(rva) => match spec_translate(sections, rva) {
            None => Some(None),
            Some(at) => match spec_read_hint_name(data, at as int) {
                None => None,
                Some(f) => Some(Some(f)),
            },
        },
    }
}

/// `rest` with `found` before it, when there is one.
pub open spec fn with_found<A>(found: Option<A>, rest: Seq<A>) -> Seq<A> {
    match found {
        Some(f) => seq![f] + rest,
        None => rest,
    }
}

/// The functions of the lookup table at `off`, in table order, up to the
/// first entry that is zero. Nothing when `data` ends before that entry or
/// inside a hint or a name.
pub open spec fn spec_walk_lookup_table(
    data: Seq<u8>,
    sections: Seq<SectionView>,
    is_64bit: bool,
    off: int,
) -> Option<Seq<ImportFunctionView>>
    decreases data.len() - off,
{
    if !readable(data, off, lookup_entry_size(is_64bit)) {
        None
    } else {
        let entry = spec_decode_lookup_entry(
            spec_read_lookup_entry(data, off, is_64bit).unwrap(),
            is_64bit,
        );
        if entry == LookupEntry::End {
            Some(Seq::empty())
        } else {
            match (
                spec_import_function(data, sections, entry),
                spec_walk_lookup_table(
                    data,
                    sections,
                    is_64bit,
                    off + lookup_entry_size(is_64bit),
                ),
            ) {
                (Some(found), Some(rest)) => Some(with_found(found, rest)),
                _ => None,
            }
        }
    }
}

/// The functions of the lookup table at `table`, sorted by hint; functions
/// with the same hint stay in table order.
pub open spec fn spec_read_import_functions(
    data: Seq<u8>,
    sections: Seq<SectionView>,
    is_64bit: bool,
    table: int,
) -> Option<Seq<ImportFunctionView>> {
    match spec_walk_lookup_table(data, sections, is_64bit, table) {
        Some(functions) => Some(stable_sort::<ImportFunction>(functions)),
        None => None,
    }
}

/// What the import descriptor at `at` gives. The outer `None` says that
/// `data` ended too early; the inner one that the descriptor is passed
/// over, because its lookup table or its name lies in no section. The name
/// field is not read when the lookup table is not found.
pub open spec fn spec_read_import_descriptor(
    data: Seq<u8>,
    sections: Seq<SectionView>,
    is_64bit: bool,
    at: int,
) -> Option<Option<ImportTableEntryView>> {
    match spec_read_u32(data, at) {
        None => None,
        Some(lookup_rva) => match spec_translate(sections, lookup_rva) {
            None => Some(None),
            Some(lookup) => match spec_read_u32(data, at + IMPORT_NAME_OFFSET) {
                None => None,
                Some(name_rva) => match spec_translate(sections, name_rva) {
                    None => Some(None),
                    Some(name_at) => match (
                        spec_read_name(data, name_at as int),
                        spec_read_import_functions(data, sections, is_64bit, lookup as int),
                    ) {
                        (Some(library_name), Some(functions)) => Some(
                            Some(ImportTableEntryView { library_name, functions }),
                        ),
                        _ => None,
                    },
                },
            },
        },
    }
}

/// `entries` with `found` behind it, when there is one.
pub open spec fn push_found<A>(entries: Seq<A>, found: Option<A>) -> Seq<A> {
    match found {
        Some(e) => entries.push(e),
        None => entries,
    }
}

/// The entries that the first `count` descriptors at `dir` give, in order.
pub open spec fn spec_read_import_entries(
    data: Seq<u8>,
    sections: Seq<SectionView>,
    is_64bit: bool,
    dir: int,
    count: nat,
) -> Option<Seq<ImportTableEntryView>>
    decreases count,
{
    if count == 0 {
        Some(Seq::empty())
    } else {
        match (
            spec_read_import_entries(data, sections, is_64bit, dir, (count - 1) as nat),
            spec_read_import_descriptor(
                data,
                sections,
                is_64bit,
                dir + IMPORT_DESCRIPTOR_SIZE * (count - 1),
            ),
        ) {
            (Some(entries), Some(found)) => Some(push_found(entries, found)),
            _ => None,
        }
    }
}

/// The import table of an image whose import slot holds `rva` and `size`:
/// empty for size 0, whatever the address; else one entry for each of the
/// `size / 20` descriptors that is not passed over.
pub open spec fn spec_read_imports(
    data: Seq<u8>,
    sections: Seq<SectionView>,
    is_64bit: bool,
    rva: u32,
    size: u32,
) -> Result<Seq<ImportTableEntryView>, AnalysisError> {
    if size == 0 {
        Ok(Seq::empty())
    } else {
        match spec_translate(sections, rva) {
            None => Err(AnalysisError::DirectoryUnresolved(Directory::Import)),
            Some(dir) => match spec_read_import_entries(
                data,
                sections,
                is_64bit,
                dir as int,
                (size as int / IMPORT_DESCRIPTOR_SIZE as int) as nat,
            ) {
                Some(entries) => Ok(entries),
                None => Err(AnalysisError::IoError(Phase::ImportTable)),
            },
        }
    }
}

/// An entry with its top bit set is an import by ordinal: the ordinal is
/// the entry's low 16 bits, there is no name and the hint is 0.
pub proof fn lemma_ordinal_entry(
    data: Seq<u8>,
    sections: Seq<SectionView>,
    raw: u64,
    is_64bit: bool,
)
    requires
        raw >= ordinal_flag(is_64bit),
    ensures
        spec_decode_lookup_entry(raw, is_64bit) == LookupEntry::Ordinal((raw % 0x1_0000) as u16),
        spec_import_function(data, sections, spec_decode_lookup_entry(raw, is_64bit)) == Some(
            Some(
                ImportFunctionView {
                    name: Seq::empty(),
                    is_ordinal: true,
                    ordinal: (raw % 0x1_0000) as u16,
                    hint: 0,
                },
            ),
        ),
{
}

/// Every function that a lookup table gives is well formed.
pub proof fn lemma_walk_wf(data: Seq<u8>, sections: Seq<SectionView>, is_64bit: bool, off: int)
    ensures
        spec_walk_lookup_table(data, sections, is_64bit, off) matches Some(functions) ==> forall|
            i: int,
        | 0 <= i < functions.len() ==> (#[trigger] functions[i]).wf(),
    decreases data.len() - off,
{
    if readable(data, off, lookup_entry_size(is_64bit)) {
        let entry = spec_decode_lookup_entry(
            spec_read_lookup_entry(data, off, is_64bit).unwrap(),
            is_64bit,
        );
        if entry != LookupEntry::End {
            lemma_walk_wf(data, sections, is_64bit, off + lookup_entry_size(is_64bit));
        }
    }
}

/// The functions of an entry are sorted by hint, an import by ordinal has
/// no name, and an import by name has no ordinal.
pub proof fn lemma_import_functions_wf(
    data: Seq<u8>,
    sections: Seq<SectionView>,
    is_64bit: bool,
    table: int,
)
    ensures
        spec_read_import_functions(data, sections, is_64bit, table) matches Some(functions) ==> {
            &&& is_sorted::<ImportFunction>(functions)
            &&& forall|i: int| 0 <= i < functions.len() ==> (#[trigger] functions[i]).wf()
        },
{
    if let Some(walked) = spec_walk_lookup_table(data, sections, is_64bit, table) {
        lemma_walk_wf(data, sections, is_64bit, table);
        lemma_sort_is_sorted::<ImportFunction>(walked);
        lemma_sort_keeps_property::<ImportFunction>(walked, |f: ImportFunctionView| f.wf());
    }
}

/// Every entry that the descriptors give is well formed.
pub proof fn lemma_import_entries_wf(
    data: Seq<u8>,
    sections: Seq<SectionView>,
    is_64bit: bool,
    dir: int,
    count: nat,
)
    ensures
        spec_read_import_entries(data, sections, is_64bit, dir, count) matches Some(entries)
            ==> forall|i: int| 0 <= i < entries.len() ==> (#[trigger] entries[i]).wf(),
    decreases count,
{
    if count > 0 {
        lemma_import_entries_wf(data, sections, is_64bit, dir, (count - 1) as nat);
        let at = dir + IMPORT_DESCRIPTOR_SIZE * (count - 1);
        if let Some(Some(entry)) = spec_read_import_descriptor(data, sections, is_64bit, at) {
            let lookup_rva = spec_read_u32(data, at).unwrap();
            let lookup = spec_translate(sections, lookup_rva).unwrap();
            lemma_import_functions_wf(data, sections, is_64bit, lookup as int);
        }
    }
}

/// Once a descriptor cannot be read, no longer run of descriptors can.
pub proof fn lemma_import_entries_fail(
    data: Seq<u8>,
    sections: Seq<SectionView>,
    is_64bit: bool,
    dir: int,
    failed: nat,
    count: nat,
)
    requires
        failed < count,
        spec_read_import_descriptor(
            data,
            sections,
            is_64bit,
            dir + IMPORT_DESCRIPTOR_SIZE * failed,
        ) is None,
    ensures
        spec_read_import_entries(data, sections, is_64bit, dir, count) is None,
    decreases count,
{
    if failed < count - 1 {
        lemma_import_entries_fail(data, sections, is_64bit, dir, failed, (count - 1) as nat);
    }
}

/// Whatever the image holds, in an import table that is read from it the
/// functions of each library are sorted by hint, and an import by ordinal
/// has no name.
pub proof fn lemma_read_imports(
    data: Seq<u8>,
    sections: Seq<SectionView>,
    is_64bit: bool,
    rva: u32,
    size: u32,
)
    ensures
        spec_read_imports(data, sections, is_64bit, rva, size) matches Ok(entries) ==> {
            &&& size == 0 ==> entries.len() == 0
            &&& forall|i: int| 0 <= i < entries.len() ==> (#[trigger] entries[i]).wf()
        },
{
    if size != 0 {
        if let Some(dir) = spec_translate(sections, rva) {
            lemma_import_entries_wf(
                data,
                sections,
                is_64bit,
                dir as int,
                (size as int / IMPORT_DESCRIPTOR_SIZE as int) as nat,
            );
        }
    }
}

/// Tells what the lookup entry `raw` says. A 32-bit entry is handed over
/// in the low half of `raw`.
pub fn decode_lookup_entry(raw: u64, is_64bit: bool) -> (entry: LookupEntry)
    ensures
        entry == spec_decode_lookup_entry(raw, is_64bit),
{
    let flag: u64 = if is_64bit {
        ORDINAL_FLAG_64
    } else {
        ORDINAL_FLAG_32
    };
    if raw == 0 {
        LookupEntry::End
    } else if raw >= flag {
        assert(raw & 0xFFFF == raw % 0x1_0000) by (bit_vector);
        LookupEntry::Ordinal((raw & 0xFFFF) as u16)
    } else {
        assert(raw & 0xFFFF_FFFF == raw % 0x1_0000_0000) by (bit_vector);
        LookupEntry::HintName((raw & 0xFFFF_FFFF) as u32)
    }
}

/// Reads the lookup entry at `off`: eight bytes in a 64-bit image, four in
/// a 32-bit one.
pub fn read_lookup_entry(data: &[u8], off: u64, is_64bit: bool) -> (r: Option<u64>)
    ensures
        r == spec_read_lookup_entry(data@, off as int, is_64bit),
{
    if is_64bit {
        read_u64(data, off)
    } else {
        match read_u32(data, off) {
            Some(v) => Some(v as u64),
            None => None,
        }
    }
}

/// Reads the hint and the name at `at`.
pub fn read_hint_name(data: &[u8], at: u64) -> (r: Option<ImportFunction>)
    ensures
        r.deep_view() == spec_read_hint_name(data@, at as int),
{
    if !can_read(data, at, 2) {
        return None;
    }
    match (read_u16(data, at), read_name(data, at + 2)) {
        (Some(hint), Some(name)) => Some(ImportFunction::by_name(name, hint)),
        _ => None,
    }
}

/// Finds the function that a lookup entry stands for.
pub fn import_function(data: &[u8], sections: &Vec<Section>, entry: LookupEntry) -> (r: Option<
    Option<ImportFunction>,
>)
    ensures
        r.deep_view() == spec_import_function(data@, sections.deep_view(), entry),
{
    match entry {
        LookupEntry::End => Some(None),
        LookupEntry::Ordinal(ordinal) => Some(Some(ImportFunction::by_ordinal(ordinal))),
        LookupEntry::HintName(rva) => match translate(sections, rva) {
            None => Some(None),
            Some(at) => match read_hint_name(data, at) {
                None => None,
                Some(f) => Some(Some(f)),
            },
        },
    }
}

/// Walks the lookup table at `table` up to its terminator and sorts what
/// it finds by hint.
pub fn read_import_functions(
    data: &[u8],
    sections: &Vec<Section>,
    is_64bit: bool,
    table: u64,
) -> (r: Option<Vec<ImportFunction>>)
    ensures
        r.deep_view() == spec_read_import_functions(
            data@,
            sections.deep_view(),
            is_64bit,
            table as int,
        ),
{
    let ghost secs = sections.deep_view();
    let width: u64 = if is_64bit {
        8
    } else {
        4
    };
    let mut functions: Vec<ImportFunction> = Vec::new();
    let mut off: u64 = table;
    assert(views(functions@) + Seq::<ImportFunctionView>::empty() =~= Seq::empty());
    loop
        invariant
            secs == sections.deep_view(),
            width == lookup_entry_size(is_64bit),
            spec_walk_lookup_table(data@, secs, is_64bit, table as int) == match spec_walk_lookup_table(
                data@,
                secs,
                is_64bit,
                off as int,
            ) {
                Some(rest) => Some(views(functions@) + rest),
                None => None,
            },
        ensures
            spec_walk_lookup_table(data@, secs, is_64bit, table as int) == Some(
                views(functions@),
            ),
        decreases data@.len() - off,
    {
        if !can_read(data, off, width) {
            return None;
        }
        let raw: u64 = match read_lookup_entry(data, off, is_64bit) {
            Some(raw) => raw,
            None => { return None; },
        };
        let entry = decode_lookup_entry(raw, is_64bit);
        if entry == LookupEntry::End {
            assert(views(functions@) + Seq::<ImportFunctionView>::empty() =~= views(functions@));
            break ;
        }
        let ghost before = views(functions@);
        let ghost rest_after = spec_walk_lookup_table(data@, secs, is_64bit, off + width);
        match import_function(data, sections, entry) {
            None => { return None; },
            Some(None) => {},
            Some(Some(f)) => {
                proof {
                    if let Some(rest) = rest_after {
                        assert(before + (seq![f@] + rest) =~= before.push(f@) + rest);
                    }
                }
                functions.push(f);
                assert(views(functions@) =~= before.push(f@));
            },
        }
        off = off + width;
    }
    assert(functions.deep_view() =~= views(functions@));
    Some(sort_by_key(functions))
}

/// Reads the import descriptor at `at`.
pub fn read_import_descriptor(data: &[u8], sections: &Vec<Section>, is_64bit: bool, at: u64) -> (r:
    Option<Option<ImportTableEntry>>)
    ensures
        r.deep_view() == spec_read_import_descriptor(
            data@,
            sections.deep_view(),
            is_64bit,
            at as int,
        ),
{
    let lookup_rva: u32 = match read_u32(data, at) {
        Some(v) => v,
        None => { return None; },
    };
    let lookup: u64 = match translate(sections, lookup_rva) {
        Some(v) => v,
        None => { return Some(None); },
    };
    if !can_read(data, at, IMPORT_NAME_OFFSET + 4) {
        return None;
    }
    let name_rva: u32 = match read_u32(data, at + IMPORT_NAME_OFFSET) {
        Some(v) => v,
        None => { return None; },
    };
    let name_at: u64 = match translate(sections, name_rva) {
        Some(v) => v,
        None => { return Some(None); },
    };
    let library_name: String = match read_name(data, name_at) {
        Some(v) => v,
        None => { return None; },
    };
    match read_import_functions(data, sections, is_64bit, lookup) {
        Some(functions) => Some(Some(ImportTableEntry { library_name, functions })),
        None => None,
    }
}

/// Reads the import table of an image whose import slot holds `rva` and
/// `size`. Size 0 means that the image imports nothing.
pub fn read_imports(
    data: &[u8],
    sections: &Vec<Section>,
    is_64bit: bool,
    rva: u32,
    size: u32,
) -> (r: Result<Vec<ImportTableEntry>, AnalysisError>)
    ensures
        outcome_view(r) == spec_read_imports(data@, sections.deep_view(), is_64bit, rva, size),
{
    let mut entries: Vec<ImportTableEntry> = Vec::new();
    assert(entries.deep_view() =~= Seq::empty());
    if size == 0 {
        return Ok(entries);
    }
    let dir: u64 = match translate(sections, rva) {
        Some(at) => at,
        None => { return Err(AnalysisError::DirectoryUnresolved(Directory::Import)); },
    };
    let ghost secs = sections.deep_view();
    let count: u64 = size as u64 / IMPORT_DESCRIPTOR_SIZE;
    let mut i: u64 = 0;
    while i < count
        invariant
            i <= count,
            size != 0,
            count == size as int / IMPORT_DESCRIPTOR_SIZE as int,
            secs == sections.deep_view(),
            spec_translate(secs, rva) == Some(dir),
            spec_read_import_entries(data@, secs, is_64bit, dir as int, i as nat) == Some(
                entries.deep_view(),
            ),
        decreases count - i,
    {
        let ghost before = entries.deep_view();
        if !can_read(data, dir, IMPORT_DESCRIPTOR_SIZE * i + 4) {
            proof {
                lemma_import_entries_fail(data@, secs, is_64bit, dir as int, i as nat, count as nat);
            }
            return Err(AnalysisError::IoError(Phase::ImportTable));
        }
        match read_import_descriptor(data, sections, is_64bit, dir + IMPORT_DESCRIPTOR_SIZE * i) {
            None => {
                proof {
                    lemma_import_entries_fail(
                        data@,
                        secs,
                        is_64bit,
                        dir as int,
                        i as nat,
                        count as nat,
                    );
                }
                return Err(AnalysisError::IoError(Phase::ImportTable));
            },
            Some(None) => {},
            Some(Some(entry)) => {
                entries.push(entry);
                assert(entries.deep_view() =~= before.push(entry@));
            },
        }
        i += 1;
    }
    Ok(entries)
}

} // verus!

//! The export table: the functions that an image offers.

use vstd::prelude::*;
use crate::bytes::{
    can_read, le_u32, read_u16_array, read_u32, read_u32_array, readable, spec_read_u16_array,
    spec_read_u32, spec_read_u32_array,
};
use crate::error::{outcome_view, AnalysisError, Directory, Phase};
use crate::section::{spec_translate, translate, Section, SectionView};
use crate::sort::{
    is_sorted, lemma_sort_is_sorted, lemma_sort_keeps_values, sort_by_key, stable_sort, views,
    SortItem,
};
use crate::text::{read_name, spec_read_name};

verus! {

/// From the start of the export directory to the fields that are read.
pub const EXPORT_FIELDS_OFFSET: u64 = 0x10;

/// Size of those fields: six values of 32 bits.
pub const EXPORT_FIELDS_SIZE: u64 = 24;

/// One exported function.
#[derive(Clone, Debug, PartialEq, Eq)]
pub struct ExportFunction {
    /// The name; empty where no name leads to the function.
    pub name: String,
    /// Index in the address table plus the ordinal base; 0 where no name
    /// leads to the function.
    pub ordinal: u64,
    /// The function's virtual address, as the address table gives it.
    pub address_rva: u32,
}

/// An exported function as the contracts see it.
pub struct ExportFunctionView {
    pub name: Seq<char>,
    pub ordinal: u64,
    pub address_rva: u32,
}

impl View for ExportFunction {
    type V = ExportFunctionView;

    open spec fn view(&self) -> ExportFunctionView {
        ExportFunctionView {
            name: self.name@,
            ordinal: self.ordinal,
            address_rva: self.address_rva,
        }
    }
}

impl DeepView for ExportFunction {
    type V = ExportFunctionView;

    open spec fn deep_view(&self) -> ExportFunctionView {
        self@
    }
}

impl SortItem for ExportFunction {
    open spec fn key_of(v: ExportFunctionView) -> int {
        v.ordinal as int
    }

    fn key(&self) -> (k: u64) {
        self.ordinal
    }
}

/// The fields of the export directory that the analysis follows.
#[derive(Clone, Copy, Debug, PartialEq, Eq, Structural)]
pub struct ExportDirectory {
    /// What is added to an index of the address table to give an ordinal.
    pub ordinal_base: u32,
    /// Number of entries of the address table.
    pub address_count: u32,
    /// Number of entries of the name-pointer table and of the ordinal table.
    pub name_count: u32,
    /// Virtual address of the address table.
    pub address_table_rva: u32,
    /// Virtual address of the name-pointer table.
    pub name_pointer_table_rva: u32,
    /// Virtual address of the ordinal table.
    pub ordinal_table_rva: u32,
}

/// What the tables of an export directory hold.
#[derive(Clone, Debug, PartialEq, Eq)]
pub struct ExportTables {
    /// What is added to an index of the address table to give an ordinal.
    pub ordinal_base: u32,
    /// The address table.
    pub addresses: Vec<u32>,
    /// The names that the name-pointer table leads to, in its order.
    pub names: Vec<String>,
    /// The ordinal table: for each name an index into the address table.
    pub ordinals: Vec<u16>,
}

/// The tables as the contracts see them.
pub struct ExportTablesView {
    pub ordinal_base: u32,
    pub addresses: Seq<u32>,
    pub names: Seq<Seq<char>>,
    pub ordinals: Seq<u16>,
}

impl View for ExportTables {
    type V = ExportTablesView;

    open spec fn view(&self) -> ExportTablesView {
        ExportTablesView {
            ordinal_base: self.ordinal_base,
            addresses: self.addresses@,
            names: self.names.deep_view(),
            ordinals: self.ordinals@,
        }
    }
}

impl DeepView for ExportTables {
    type V = ExportTablesView;

    open spec fn deep_view(&self) -> ExportTablesView {
        self@
    }
}

/// The fields of the export directory at `dir`, when they lie inside `data`.
pub open spec fn spec_read_export_directory(data: Seq<u8>, dir: int) -> Option<ExportDirectory> {
    let at = dir + EXPORT_FIELDS_OFFSET;
    if readable(data, at, EXPORT_FIELDS_SIZE as int) {
        Some(
            ExportDirectory {
                ordinal_base: le_u32(data, at),
                address_count: le_u32(data, at + 4),
                name_count: le_u32(data, at + 8),
                address_table_rva: le_u32(data, at + 12),
                name_pointer_table_rva: le_u32(data, at + 16),
                ordinal_table_rva: le_u32(data, at + 20),
            },
        )
    } else {
        None
    }
}

/// The name that the name pointer at `entry` leads to: empty when the
/// pointer lies in no section; nothing when the pointer or the name passes
/// the end of `data`.
pub open spec fn spec_export_name(data: Seq<u8>, sections: Seq<SectionView>, entry: int) -> Option<
    Seq<char>,
> {
    match spec_read_u32(data, entry) {
        None => None,
        Some(rva) => match spec_translate(sections, rva) {
            None => Some(Seq::empty()),
            Some(at) => spec_read_name(data, at as int),
        },
    }
}

/// The name for entry `i` of the name-pointer table at `table`.
pub open spec fn export_name_at(
    data: Seq<u8>,
    sections: Seq<SectionView>,
    table: int,
    i: int,
) -> Option<Seq<char>> {
    spec_export_name(data, sections, table + 4 * i)
}

/// The names of a name-pointer table of `count` entries, when each can be read.
pub open spec fn spec_read_export_names(
    data: Seq<u8>,
    sections: Seq<SectionView>,
    table: int,
    count: nat,
) -> Option<Seq<Seq<char>>> {
    if forall|i: int|
        0 <= i < count ==> (#[trigger] export_name_at(data, sections, table, i)) is Some {
        Some(Seq::new(count, |i: int| export_name_at(data, sections, table, i).unwrap()))
    } else {
        None
    }
}

/// The tables of the export directory at `rva`. The directory and its three
/// tables must lie in sections; the fields and every entry must lie inside
/// `data`.
pub open spec fn spec_read_export_tables(
    data: Seq<u8>,
    sections: Seq<SectionView>,
    rva: u32,
) -> Result<ExportTablesView, AnalysisError> {
    match spec_translate(sections, rva) {
        None => Err(AnalysisError::DirectoryUnresolved(Directory::Export)),
        Some(dir) => match spec_read_export_directory(data, dir as int) {
            None => Err(AnalysisError::IoError(Phase::ExportTable)),
            Some(d) => match spec_translate(sections, d.address_table_rva) {
                None => Err(AnalysisError::DirectoryUnresolved(Directory::ExportAddressTable)),
                Some(address_table) => match spec_translate(sections, d.name_pointer_table_rva) {
                    None => Err(
                        AnalysisError::DirectoryUnresolved(Directory::ExportNamePointerTable),
                    ),
                    Some(name_table) => match spec_translate(sections, d.ordinal_table_rva) {
                        None => Err(
                            AnalysisError::DirectoryUnresolved(Directory::ExportOrdinalTable),
                        ),
                        Some(ordinal_table) => match (
                            spec_read_u32_array(data, address_table as int, d.address_count as nat),
                            spec_read_export_names(
                                data,
                                sections,
                                name_table as int,
                                d.name_count as nat,
                            ),
                            spec_read_u16_array(data, ordinal_table as int, d.name_count as nat),
                        ) {
                            (Some(addresses), Some(names), Some(ordinals)) => Ok(
                                ExportTablesView {
                                    ordinal_base: d.ordinal_base,
                                    addresses,
                                    names,
                                    ordinals,
                                },
                            ),
                            _ => Err(AnalysisError::IoError(Phase::ExportTable)),
                        },
                    },
                },
            },
        },
    }
}

/// The list before any name is linked: one function for each address, in
/// the order of the address table, without name and with ordinal 0.
pub open spec fn provisional_exports(addresses: Seq<u32>) -> Seq<ExportFunctionView> {
    Seq::new(
        addresses.len(),
        |i: int| ExportFunctionView { name: Seq::empty(), ordinal: 0, address_rva: addresses[i] },
    )
}

/// Name `i`, or the empty name where the names are fewer.
pub open spec fn name_or_empty(names: Seq<Seq<char>>, i: int) -> Seq<char> {
    if 0 <= i < names.len() {
        names[i]
    } else {
        Seq::empty()
    }
}

/// `functions` after the first `n` entries of the ordinal table have been
/// linked, in order: entry `i` gives the function at index `ordinals[i]`
/// name `i` and the ordinal `ordinals[i] + base`. An entry that points past
/// the list links nothing.
pub open spec fn link_exports(
    functions: Seq<ExportFunctionView>,
    names: Seq<Seq<char>>,
    ordinals: Seq<u16>,
    base: u32,
    n: nat,
) -> Seq<ExportFunctionView>
    decreases n,
{
    if n == 0 {
        functions
    } else {
        let before = link_exports(functions, names, ordinals, base, (n - 1) as nat);
        let target = ordinals[n - 1] as int;
        if target < before.len() {
            before.update(
                target,
                ExportFunctionView {
                    name: name_or_empty(names, n - 1),
                    ordinal: (target + base) as u64,
                    address_rva: before[target].address_rva,
                },
            )
        } else {
            before
        }
    }
}

/// The export list for the given tables, sorted by ordinal; functions with
/// the same ordinal stay in the order of the address table.
pub open spec fn spec_build_exports(t: ExportTablesView) -> Seq<ExportFunctionView> {
    stable_sort::<ExportFunction>(
        link_exports(
            provisional_exports(t.addresses),
            t.names,
            t.ordinals,
            t.ordinal_base,
            t.ordinals.len(),
        ),
    )
}

/// The export list of an image whose export slot holds `rva` and `size`:
/// empty for size 0, whatever the address.
pub open spec fn spec_read_exports(
    data: Seq<u8>,
    sections: Seq<SectionView>,
    rva: u32,
    size: u32,
) -> Result<Seq<ExportFunctionView>, AnalysisError> {
    if size == 0 {
        Ok(Seq::empty())
    } else {
        match spec_read_export_tables(data, sections, rva) {
            Ok(t) => Ok(spec_build_exports(t)),
            Err(e) => Err(e),
        }
    }
}

/// The address that a function view carries.
pub open spec fn address_of() -> spec_fn(ExportFunctionView) -> u32 {
    |f: ExportFunctionView| f.address_rva
}

/// Linking changes neither the number of functions nor any address.
pub proof fn lemma_link_keeps_addresses(
    functions: Seq<ExportFunctionView>,
    names: Seq<Seq<char>>,
    ordinals: Seq<u16>,
    base: u32,
    n: nat,
)
    ensures
        link_exports(functions, names, ordinals, base, n).len() == functions.len(),
        forall|j: int|
            0 <= j < functions.len() ==> (#[trigger] link_exports(
                functions,
                names,
                ordinals,
                base,
                n,
            )[j]).address_rva == functions[j].address_rva,
    decreases n,
{
    if n > 0 {
        lemma_link_keeps_addresses(functions, names, ordinals, base, (n - 1) as nat);
    }
}

/// A function that no linked entry points to is left as it was.
pub proof fn lemma_link_untouched(
    functions: Seq<ExportFunctionView>,
    names: Seq<Seq<char>>,
    ordinals: Seq<u16>,
    base: u32,
    n: nat,
    j: int,
)
    requires
        0 <= j < functions.len(),
        forall|i: int| 0 <= i < n ==> ordinals[i] != j,
    ensures
        link_exports(functions, names, ordinals, base, n)[j] == functions[j],
    decreases n,
{
    if n > 0 {
        lemma_link_keeps_addresses(functions, names, ordinals, base, (n - 1) as nat);
        lemma_link_untouched(functions, names, ordinals, base, (n - 1) as nat, j);
    }
}

/// A function that entry `i` points to, and no later linked entry, has name
/// `i` and its index plus the base as ordinal.
pub proof fn lemma_link_reached(
    functions: Seq<ExportFunctionView>,
    names: Seq<Seq<char>>,
    ordinals: Seq<u16>,
    base: u32,
    n: nat,
    i: int,
)
    requires
        0 <= i < n,
        ordinals[i] < functions.len(),
        forall|later: int| i < later < n ==> ordinals[later] != ordinals[i],
    ensures
        link_exports(functions, names, ordinals, base, n)[ordinals[i] as int] == (
        ExportFunctionView {
            name: name_or_empty(names, i),
            ordinal: (ordinals[i] + base) as u64,
            address_rva: functions[ordinals[i] as int].address_rva,
        }),
    decreases n,
{
    lemma_link_keeps_addresses(functions, names, ordinals, base, (n - 1) as nat);
    if i < n - 1 {
        lemma_link_reached(functions, names, ordinals, base, (n - 1) as nat, i);
    }
}

/// The ordinals of an export list ascend, and the list has one function
/// for each entry of the address table.
pub proof fn lemma_exports_sorted(t: ExportTablesView)
    ensures
        is_sorted::<ExportFunction>(spec_build_exports(t)),
        forall|i: int, j: int|
            0 <= i <= j < spec_build_exports(t).len() ==> spec_build_exports(t)[i].ordinal
                <= spec_build_exports(t)[j].ordinal,
{
    lemma_sort_is_sorted::<ExportFunction>(
        link_exports(
            provisional_exports(t.addresses),
            t.names,
            t.ordinals,
            t.ordinal_base,
            t.ordinals.len(),
        ),
    );
}

/// The addresses of an export list are those of the address table, each as
/// often as there: none is dropped and none is added.
pub proof fn lemma_exports_keep_addresses(t: ExportTablesView)
    ensures
        spec_build_exports(t).map_values(address_of()).to_multiset() == t.addresses.to_multiset(),
{
    let linked = link_exports(
        provisional_exports(t.addresses),
        t.names,
        t.ordinals,
        t.ordinal_base,
        t.ordinals.len(),
    );
    lemma_link_keeps_addresses(
        provisional_exports(t.addresses),
        t.names,
        t.ordinals,
        t.ordinal_base,
        t.ordinals.len(),
    );
    lemma_sort_keeps_values::<ExportFunction, u32>(linked, address_of());
    assert(linked.map_values(address_of()) =~= t.addresses);
}

/// Whatever the image holds, an export list that is read from it is sorted
/// by ordinal, and its addresses are those of the address table.
pub proof fn lemma_read_exports(data: Seq<u8>, sections: Seq<SectionView>, rva: u32, size: u32)
    ensures
        spec_read_exports(data, sections, rva, size) matches Ok(exports) ==> {
            &&& is_sorted::<ExportFunction>(exports)
            &&& size == 0 ==> exports.len() == 0
            &&& size != 0 ==> spec_read_export_tables(data, sections, rva) is Ok
                && exports.map_values(address_of()).to_multiset() == spec_read_export_tables(
                data,
                sections,
                rva,
            ).unwrap().addresses.to_multiset()
        },
{
    if size != 0 {
        if let Ok(t) = spec_read_export_tables(data, sections, rva) {
            lemma_exports_sorted(t);
            lemma_exports_keep_addresses(t);
        }
    }
}

/// Reads the fields of the export directory at `dir`.
pub fn read_export_directory(data: &[u8], dir: u64) -> (r: Option<ExportDirectory>)
    ensures
        r == spec_read_export_directory(data@, dir as int),
{
    if !can_read(data, dir, EXPORT_FIELDS_OFFSET + EXPORT_FIELDS_SIZE) {
        return None;
    }
    let at: u64 = dir + EXPORT_FIELDS_OFFSET;
    match (
        read_u32(data, at),
        read_u32(data, at + 4),
        read_u32(data, at + 8),
        read_u32(data, at + 12),
        read_u32(data, at + 16),
        read_u32(data, at + 20),
    ) {
        (
            Some(ordinal_base),
            Some(address_count),
            Some(name_count),
            Some(address_table_rva),
            Some(name_pointer_table_rva),
            Some(ordinal_table_rva),
        ) => Some(
            ExportDirectory {
                ordinal_base,
                address_count,
                name_count,
                address_table_rva,
                name_pointer_table_rva,
                ordinal_table_rva,
            },
        ),
        _ => None,
    }
}

/// Reads the name that the name pointer at `entry` leads to.
pub fn read_export_name(data: &[u8], sections: &Vec<Section>, entry: u64) -> (r: Option<String>)
    ensures
        r.deep_view() == spec_export_name(data@, sections.deep_view(), entry as int),
{
    match read_u32(data, entry) {
        None => None,
        Some(rva) => match translate(sections, rva) {
            None => Some(String::new()),
            Some(at) => read_name(data, at),
        },
    }
}

/// Reads the names of a name-pointer table of `count` entries at `table`.
pub fn read_export_names(data: &[u8], sections: &Vec<Section>, table: u64, count: u32) -> (r:
    Option<Vec<String>>)
    ensures
        r.deep_view() == spec_read_export_names(
            data@,
            sections.deep_view(),
            table as int,
            count as nat,
        ),
{
    let ghost views = sections.deep_view();
    let mut names: Vec<String> = Vec::new();
    let mut i: u32 = 0;
    while i < count
        invariant
            i <= count,
            views == sections.deep_view(),
            names@.len() == i,
            forall|j: int|
                0 <= j < i ==> (#[trigger] export_name_at(data@, views, table as int, j))
                    == Some(names@[j]@),
        decreases count - i,
    {
        if !can_read(data, table, 4 * (i as u64) + 4) {
            assert(export_name_at(data@, views, table as int, i as int) is None);
            return None;
        }
        match read_export_name(data, sections, table + 4 * (i as u64)) {
            Some(name) => {
                names.push(name);
            },
            None => {
                assert(export_name_at(data@, views, table as int, i as int) is None);
                return None;
            },
        }
        i += 1;
    }
    assert(names.deep_view() =~= Seq::new(
        count as nat,
        |j: int| export_name_at(data@, views, table as int, j).unwrap(),
    ));
    Some(names)
}

/// Finds the export directory at `rva` and reads its tables.
pub fn read_export_tables(data: &[u8], sections: &Vec<Section>, rva: u32) -> (r: Result<
    ExportTables,
    AnalysisError,
>)
    ensures
        outcome_view(r) == spec_read_export_tables(data@, sections.deep_view(), rva),
{
    let dir: u64 = match translate(sections, rva) {
        Some(at) => at,
        None => { return Err(AnalysisError::DirectoryUnresolved(Directory::Export)); },
    };
    let d: ExportDirectory = match read_export_directory(data, dir) {
        Some(d) => d,
        None => { return Err(AnalysisError::IoError(Phase::ExportTable)); },
    };
    let address_table: u64 = match translate(sections, d.address_table_rva) {
        Some(at) => at,
        None => { return Err(AnalysisError::DirectoryUnresolved(Directory::ExportAddressTable)); },
    };
    let name_table: u64 = match translate(sections, d.name_pointer_table_rva) {
        Some(at) => at,
        None => {
            return Err(AnalysisError::DirectoryUnresolved(Directory::ExportNamePointerTable));
        },
    };
    let ordinal_table: u64 = match translate(sections, d.ordinal_table_rva) {
        Some(at) => at,
        None => { return Err(AnalysisError::DirectoryUnresolved(Directory::ExportOrdinalTable)); },
    };
    let addresses: Vec<u32> = match read_u32_array(data, address_table, d.address_count) {
        Some(values) => values,
        None => { return Err(AnalysisError::IoError(Phase::ExportTable)); },
    };
    let names: Vec<String> = match read_export_names(data, sections, name_table, d.name_count) {
        Some(values) => values,
        None => { return Err(AnalysisError::IoError(Phase::ExportTable)); },
    };
    let ordinals: Vec<u16> = match read_u16_array(data, ordinal_table, d.name_count) {
        Some(values) => values,
        None => { return Err(AnalysisError::IoError(Phase::ExportTable)); },
    };
    assert(addresses.deep_view() =~= addresses@);
    assert(ordinals.deep_view() =~= ordinals@);
    Ok(ExportTables { ordinal_base: d.ordinal_base, addresses, names, ordinals })
}

/// Builds the export list from the tables: one function for each address,
/// names and ordinals linked through the ordinal table, sorted by ordinal.
pub fn build_exports(tables: &ExportTables) -> (exports: Vec<ExportFunction>)
    ensures
        exports.deep_view() == spec_build_exports(tables@),
{
    let ghost t = tables@;
    let mut functions: Vec<ExportFunction> = Vec::new();
    let mut i: usize = 0;
    while i < tables.addresses.len()
        invariant
            i <= tables.addresses@.len(),
            functions@.len() == i,
            forall|j: int|
                0 <= j < i ==> (#[trigger] functions@[j])@ == (ExportFunctionView {
                    name: Seq::empty(),
                    ordinal: 0,
                    address_rva: tables.addresses@[j],
                }),
        decreases tables.addresses@.len() - i,
    {
        functions.push(
            ExportFunction { name: String::new(), ordinal: 0, address_rva: tables.addresses[i] },
        );
        i += 1;
    }
    assert(views(functions@) =~= provisional_exports(t.addresses));
    let mut n: usize = 0;
    while n < tables.ordinals.len()
        invariant
            n <= tables.ordinals@.len(),
            t == tables@,
            views(functions@) == link_exports(
                provisional_exports(t.addresses),
                t.names,
                t.ordinals,
                t.ordinal_base,
                n as nat,
            ),
        decreases tables.ordinals@.len() - n,
    {
        let ghost before = views(functions@);
        let target: usize = tables.ordinals[n] as usize;
        if target < functions.len() {
            let name: String = if n < tables.names.len() {
                tables.names[n].clone()
            } else {
                String::new()
            };
            let address_rva: u32 = functions[target].address_rva;
            assert(before[target as int] == functions@[target as int]@);
            functions[target] = ExportFunction {
                name,
                ordinal: target as u64 + tables.ordinal_base as u64,
                address_rva,
            };
            assert(views(functions@) =~= before.update(
                target as int,
                ExportFunctionView {
                    name: name_or_empty(t.names, n as int),
                    ordinal: (target + t.ordinal_base) as u64,
                    address_rva: before[target as int].address_rva,
                },
            ));
        }
        n += 1;
    }
    sort_by_key(functions)
}

/// Reads the export list of an image whose export slot holds `rva` and
/// `size`. Size 0 means that the image exports nothing.
pub fn read_exports(data: &[u8], sections: &Vec<Section>, rva: u32, size: u32) -> (r: Result<
    Vec<ExportFunction>,
    AnalysisError,
>)
    ensures
        outcome_view(r) == spec_read_exports(data@, sections.deep_view(), rva, size),
{
    if size == 0 {
        let none: Vec<ExportFunction> = Vec::new();
        assert(none.deep_view() =~= Seq::empty());
        return Ok(none);
    }
    match read_export_tables(data, sections, rva) {
        Ok(tables) => Ok(build_exports(&tables)),
        Err(e) => Err(e),
    }
}

} // verus!

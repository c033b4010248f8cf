//! Random access to little-endian fields of a byte buffer.
//!
//! Every read either fits inside the buffer or is refused; offsets are 64-bit
//! so that sums of 32-bit fields taken from an image never wrap.

use vstd::prelude::*;

verus! {

/// Whether the `n` bytes starting at `off` lie inside `data`.
pub open spec fn readable(data: Seq<u8>, off: int, n: int) -> bool {
    0 <= off && 0 <= n && off + n <= data.len()
}

/// The little-endian 16-bit value stored at `off`.
pub open spec fn le_u16(data: Seq<u8>, off: int) -> u16 {
    (data[off] as int + 0x100 * (data[off + 1] as int)) as u16
}

/// The little-endian 32-bit value stored at `off`.
pub open spec fn le_u32(data: Seq<u8>, off: int) -> u32 {
    (data[off] as int + 0x100 * (data[off + 1] as int) + 0x1_0000 * (data[off + 2] as int)
        + 0x100_0000 * (data[off + 3] as int)) as u32
}

/// The little-endian 64-bit value stored at `off`.
pub open spec fn le_u64(data: Seq<u8>, off: int) -> u64 {
    (le_u32(data, off) as int + 0x1_0000_0000 * (le_u32(data, off + 4) as int)) as u64
}

/// A 16-bit read at `off`: the value when the two bytes are there.
pub open spec fn spec_read_u16(data: Seq<u8>, off: int) -> Option<u16> {
    if readable(data, off, 2) {
        Some(le_u16(data, off))
    } else {
        None
    }
}

/// A 32-bit read at `off`: the value when the four bytes are there.
pub open spec fn spec_read_u32(data: Seq<u8>, off: int) -> Option<u32> {
    if readable(data, off, 4) {
        Some(le_u32(data, off))
    } else {
        None
    }
}

/// A 64-bit read at `off`: the value when the eight bytes are there.
pub open spec fn spec_read_u64(data: Seq<u8>, off: int) -> Option<u64> {
    if readable(data, off, 8) {
        Some(le_u64(data, off))
    } else {
        None
    }
}

/// Tells whether `n` bytes can be read at `off`.
pub fn can_read(data: &[u8], off: u64, n: u64) -> (ok: bool)
    ensures
        ok == readable(data@, off as int, n as int),
        ok ==> off + n <= usize::MAX,
{
    let len: u64 = data.len() as u64;
    off <= len && n <= len - off
}

/// The little-endian `u16` at index `at`.
fn load_u16(data: &[u8], at: usize) -> (v: u16)
    requires
        at + 2 <= data@.len(),
    ensures
        v == le_u16(data@, at as int),
{
    let b0: u16 = data[at] as u16;
    let b1: u16 = data[at + 1] as u16;
    b0 + 0x100 * b1
}

/// The little-endian `u32` at index `at`.
fn load_u32(data: &[u8], at: usize) -> (v: u32)
    requires
        at + 4 <= data@.len(),
    ensures
        v == le_u32(data@, at as int),
{
    let b0: u32 = data[at] as u32;
    let b1: u32 = data[at + 1] as u32;
    let b2: u32 = data[at + 2] as u32;
    let b3: u32 = data[at + 3] as u32;
    b0 + 0x100 * b1 + 0x1_0000 * b2 + 0x100_0000 * b3
}

/// Reads a little-endian `u16` at `off`, or nothing when it would pass the end.
pub fn read_u16(data: &[u8], off: u64) -> (r: Option<u16>)
    ensures
        r == spec_read_u16(data@, off as int),
{
    if can_read(data, off, 2) {
        Some(load_u16(data, off as usize))
    } else {
        None
    }
}

/// Reads a little-endian `u32` at `off`, or nothing when it would pass the end.
pub fn read_u32(data: &[u8], off: u64) -> (r: Option<u32>)
    ensures
        r == spec_read_u32(data@, off as int),
{
    if can_read(data, off, 4) {
        Some(load_u32(data, off as usize))
    } else {
        None
    }
}

/// Reads a little-endian `u64` at `off`, or nothing when it would pass the end.
pub fn read_u64(data: &[u8], off: u64) -> (r: Option<u64>)
    ensures
        r == spec_read_u64(data@, off as int),
{
    if can_read(data, off, 8) {
        let at: usize = off as usize;
        let lo: u64 = load_u32(data, at) as u64;
        let hi: u64 = load_u32(data, at + 4) as u64;
        Some(lo + 0x1_0000_0000 * hi)
    } else {
        None
    }
}

/// A table of `count` 16-bit values at `table`, when all of it lies inside `data`.
pub open spec fn spec_read_u16_array(data: Seq<u8>, table: int, count: nat) -> Option<Seq<u16>> {
    if count == 0 || readable(data, table, 2 * (count as int)) {
        Some(Seq::new(count, |i: int| le_u16(data, table + 2 * i)))
    } else {
        None
    }
}

/// A table of `count` 32-bit values at `table`, when all of it lies inside `data`.
pub open spec fn spec_read_u32_array(data: Seq<u8>, table: int, count: nat) -> Option<Seq<u32>> {
    if count == 0 || readable(data, table, 4 * (count as int)) {
        Some(Seq::new(count, |i: int| le_u32(data, table + 4 * i)))
    } else {
        None
    }
}

/// Reads a table of `count` little-endian `u16` values at `table`. A table
/// that passes the end of `data` is refused before anything is read.
pub fn read_u16_array(data: &[u8], table: u64, count: u32) -> (r: Option<Vec<u16>>)
    ensures
        r.deep_view() == spec_read_u16_array(data@, table as int, count as nat),
{
    let mut values: Vec<u16> = Vec::new();
    if count == 0 {
        assert(values.deep_view() =~= Seq::new(0, |i: int| le_u16(data@, table + 2 * i)));
        return Some(values);
    }
    if !can_read(data, table, 2 * (count as u64)) {
        return None;
    }
    let len: usize = data.len();
    let start: usize = table as usize;
    let n: usize = count as usize;
    let mut i: usize = 0;
    while i < n
        invariant
            i <= n,
            len == data@.len(),
            n == count,
            start == table,
            start + 2 * n <= data@.len(),
            values@.len() == i,
            forall|j: int| 0 <= j < i ==> values@[j] == le_u16(data@, table + 2 * j),
        decreases n - i,
    {
        values.push(load_u16(data, start + 2 * i));
        i += 1;
    }
    assert(values.deep_view() =~= Seq::new(count as nat, |i: int| le_u16(data@, table + 2 * i)));
    Some(values)
}

/// Reads a table of `count` little-endian `u32` values at `table`. A table
/// that passes the end of `data` is refused before anything is read.
pub fn read_u32_array(data: &[u8], table: u64, count: u32) -> (r: Option<Vec<u32>>)
    ensures
        r.deep_view() == spec_read_u32_array(data@, table as int, count as nat),
{
    let mut values: Vec<u32> = Vec::new();
    if count == 0 {
        assert(values.deep_view() =~= Seq::new(0, |i: int| le_u32(data@, table + 4 * i)));
        return Some(values);
    }
    if !can_read(data, table, 4 * (count as u64)) {
        return None;
    }
    let len: usize = data.len();
    let start: usize = table as usize;
    let n: usize = count as usize;
    let mut i: usize = 0;
    while i < n
        invariant
            i <= n,
            len == data@.len(),
            n == count,
            start == table,
            start + 4 * n <= data@.len(),
            values@.len() == i,
            forall|j: int| 0 <= j < i ==> values@[j] == le_u32(data@, table + 4 * j),
        decreases n - i,
    {
        values.push(load_u32(data, start + 4 * i));
        i += 1;
    }
    assert(values.deep_view() =~= Seq::new(count as nat, |i: int| le_u32(data@, table + 4 * i)));
    Some(values)
}

/// Index of the first zero byte at or after `off`; the buffer's length when
/// there is none.
pub open spec fn first_nul(data: Seq<u8>, off: int) -> int
    decreases data.len() - off,
{
    if off < 0 || off >= data.len() {
        data.len() as int
    } else if data[off] == 0 {
        off
    } else {
        first_nul(data, off + 1)
    }
}

/// The bytes of the zero-terminated string that starts at `off`, without the
/// terminator; nothing when the buffer ends before a terminator is met.
pub open spec fn spec_read_cstr(data: Seq<u8>, off: int) -> Option<Seq<u8>> {
    if 0 <= off && first_nul(data, off) < data.len() {
        Some(data.subrange(off, first_nul(data, off)))
    } else {
        None
    }
}

/// `first_nul` is the least index from `off` on that holds a zero byte.
pub proof fn lemma_first_nul(data: Seq<u8>, off: int)
    requires
        0 <= off <= data.len(),
    ensures
        off <= first_nul(data, off) <= data.len(),
        first_nul(data, off) < data.len() ==> data[first_nul(data, off)] == 0,
        forall|i: int| off <= i < first_nul(data, off) ==> data[i] != 0,
    decreases data.len() - off,
{
    if off < data.len() && data[off] != 0 {
        lemma_first_nul(data, off + 1);
    }
}

/// A scan that met no zero byte in `[off, end)` has not passed `first_nul`.
pub proof fn lemma_first_nul_from_scan(data: Seq<u8>, off: int, end: int)
    requires
        0 <= off <= end <= data.len(),
        forall|i: int| off <= i < end ==> data[i] != 0,
    ensures
        first_nul(data, off) == first_nul(data, end),
    decreases end - off,
{
    if off < end {
        lemma_first_nul_from_scan(data, off + 1, end);
    }
}

/// A string read is the stretch of non-zero bytes from `off` up to a zero byte.
pub proof fn lemma_read_cstr(data: Seq<u8>, off: int, s: Seq<u8>)
    requires
        0 <= off,
    ensures
        spec_read_cstr(data, off) == Some(s) <==> {
            &&& off + s.len() < data.len()
            &&& s == data.subrange(off, off + s.len())
            &&& data[off + s.len()] == 0
            &&& forall|i: int| 0 <= i < s.len() ==> s[i] != 0
        },
{
    if off <= data.len() {
        lemma_first_nul(data, off);
        let end = off + s.len();
        if end < data.len() && s == data.subrange(off, end) && data[end] == 0 && (forall|i: int|
            0 <= i < s.len() ==> s[i] != 0) {
            assert forall|i: int| off <= i < end implies data[i] != 0 by {
                assert(data[i] == s[i - off]);
            }
            lemma_first_nul_from_scan(data, off, end);
        }
        if spec_read_cstr(data, off) == Some(s) {
            let e = first_nul(data, off);
            assert(s.len() == e - off);
            assert forall|i: int| 0 <= i < s.len() implies s[i] != 0 by {
                assert(s[i] == data[off + i]);
            }
        }
    }
}

/// Reads the zero-terminated byte string at `off`, terminator left out, or
/// nothing when the buffer ends first.
pub fn read_cstr(data: &[u8], off: u64) -> (r: Option<Vec<u8>>)
    ensures
        r.deep_view() == spec_read_cstr(data@, off as int),
{
    let len: usize = data.len();
    if off >= len as u64 {
        return None;
    }
    let start: usize = off as usize;
    let mut out: Vec<u8> = Vec::new();
    let mut i: usize = start;
    while i < len && data[i] != 0
        invariant
            start <= i <= len,
            len == data@.len(),
            out@ == data@.subrange(start as int, i as int),
            forall|j: int| start <= j < i ==> data@[j] != 0,
        decreases len - i,
    {
        out.push(data[i]);
        i += 1;
    }
    proof {
        lemma_first_nul_from_scan(data@, start as int, i as int);
        assert(out.deep_view() =~= out@);
    }
    if i < len {
        Some(out)
    } else {
        None
    }
}

} // verus!

//! From the bytes of a name to the text shown for it.

use vstd::prelude::*;
use vstd::slice::slice_subrange;
use crate::bytes::{read_cstr, spec_read_cstr};

verus! {

/// The text that lossy UTF-8 decoding gives for `bytes`: what is well formed
/// is decoded, each malformed stretch becomes U+FFFD.
pub uninterp spec fn utf8_lossy(bytes: Seq<u8>) -> Seq<char>;

/// `String::from_utf8_lossy`, made into an owned `String`. Nothing is proved
/// of it: the result is taken to be `utf8_lossy` of the bytes given.
#[verifier::external_body]
fn decode_lossy(bytes: &[u8]) -> (s: String)
    ensures
        s@ == utf8_lossy(bytes@),
{
    String::from_utf8_lossy(bytes).into_owned()
}

/// How many bytes of `bytes` are left when the zero bytes at its end are cut.
pub open spec fn trimmed_len(bytes: Seq<u8>) -> int
    decreases bytes.len(),
{
    if bytes.len() == 0 {
        0
    } else if bytes.last() != 0 {
        bytes.len() as int
    } else {
        trimmed_len(bytes.drop_last())
    }
}

/// `bytes` without the zero bytes at its end.
pub open spec fn spec_trim_trailing_nuls(bytes: Seq<u8>) -> Seq<u8> {
    bytes.take(trimmed_len(bytes))
}

/// Trimming cuts zero bytes only, and all of those at the end.
pub proof fn lemma_trimmed_len(bytes: Seq<u8>)
    ensures
        0 <= trimmed_len(bytes) <= bytes.len(),
        trimmed_len(bytes) > 0 ==> bytes[trimmed_len(bytes) - 1] != 0,
        forall|i: int| trimmed_len(bytes) <= i < bytes.len() ==> bytes[i] == 0,
    decreases bytes.len(),
{
    if bytes.len() > 0 && bytes.last() == 0 {
        let rest = bytes.drop_last();
        lemma_trimmed_len(rest);
        assert forall|i: int| trimmed_len(bytes) <= i < bytes.len() implies bytes[i] == 0 by {
            if i < rest.len() {
                assert(rest[i] == bytes[i]);
            }
        }
    }
}

/// The text of a padded name field: the padding is cut, the rest decoded.
pub open spec fn spec_decode_padded(bytes: Seq<u8>) -> Seq<char> {
    utf8_lossy(spec_trim_trailing_nuls(bytes))
}

/// The text of the zero-terminated name at `off`, when it ends inside `data`.
pub open spec fn spec_read_name(data: Seq<u8>, off: int) -> Option<Seq<char>> {
    match spec_read_cstr(data, off) {
        Some(bytes) => Some(utf8_lossy(bytes)),
        None => None,
    }
}

/// Cuts the zero bytes at the end of `bytes`.
pub fn trim_trailing_nuls(bytes: &[u8]) -> (r: &[u8])
    ensures
        r@ == spec_trim_trailing_nuls(bytes@),
{
    let mut end: usize = bytes.len();
    assert(bytes@.take(end as int) == bytes@);
    while end > 0 && bytes[end - 1] == 0
        invariant
            end <= bytes@.len(),
            trimmed_len(bytes@) == trimmed_len(bytes@.take(end as int)),
        decreases end,
    {
        assert(bytes@.take(end as int).drop_last() == bytes@.take(end - 1));
        end -= 1;
    }
    slice_subrange(bytes, 0, end)
}

/// Decodes a name field padded with zero bytes.
pub fn decode_padded(bytes: &[u8]) -> (s: String)
    ensures
        s@ == spec_decode_padded(bytes@),
{
    decode_lossy(trim_trailing_nuls(bytes))
}

/// Reads the zero-terminated name at `off`, or nothing when `data` ends
/// before the terminator.
pub fn read_name(data: &[u8], off: u64) -> (r: Option<String>)
    ensures
        r.deep_view() == spec_read_name(data@, off as int),
{
    match read_cstr(data, off) {
        Some(bytes) => {
            assert(bytes.deep_view() =~= bytes@);
            Some(decode_lossy(bytes.as_slice()))
        },
        None => None,
    }
}

} // verus!

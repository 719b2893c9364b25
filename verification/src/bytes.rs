//! Views of collections of byte strings, and comparison of byte strings.

use vstd::prelude::*;

verus! {

/// The byte strings held by a sequence of arrays.
pub open spec fn array_views<const N: usize>(s: Seq<[u8; N]>) -> Seq<Seq<u8>> {
    s.map_values(|a: [u8; N]| a@)
}

/// The byte strings held by a sequence of vectors.
pub open spec fn vec_views(s: Seq<Vec<u8>>) -> Seq<Seq<u8>> {
    s.map_values(|v: Vec<u8>| v@)
}

/// Whether two byte strings are the same.
pub fn bytes_eq(a: &[u8], b: &[u8]) -> (same: bool)
    ensures
        same == (a@ == b@),
{
    if a.len() != b.len() {
        return false;
    }
    let mut i: usize = 0;
    while i < a.len()
        invariant
            i <= a@.len(),
            a@.len() == b@.len(),
            a@.subrange(0, i as int) == b@.subrange(0, i as int),
        decreases a@.len() - i,
    {
        if a[i] != b[i] {
            return false;
        }
        assert(a@.subrange(0, i + 1) =~= a@.subrange(0, i as int).push(a@[i as int]));
        assert(b@.subrange(0, i + 1) =~= b@.subrange(0, i as int).push(b@[i as int]));
        i += 1;
    }
    assert(a@ =~= a@.subrange(0, a@.len() as int));
    assert(b@ =~= b@.subrange(0, b@.len() as int));
    true
}

/// The 32 bytes of `bytes` as an array; `None` for any other length.
pub fn to_array32(bytes: &[u8]) -> (array: Option<[u8; 32]>)
    ensures
        match array {
            Some(a) => a@ == bytes@,
            None => bytes@.len() != 32,
        },
{
    if bytes.len() != 32 {
        return None;
    }
    let mut array: [u8; 32] = [0u8; 32];
    let mut i: usize = 0;
    while i < 32
        invariant
            i <= 32,
            bytes@.len() == 32,
            array@.len() == 32,
            array@.subrange(0, i as int) == bytes@.subrange(0, i as int),
        decreases 32 - i,
    {
        array[i] = bytes[i];
        i += 1;
        assert(array@.subrange(0, i as int) =~= bytes@.subrange(0, i as int));
    }
    assert(array@ =~= array@.subrange(0, 32));
    assert(bytes@ =~= bytes@.subrange(0, 32));
    Some(array)
}

} // verus!

//! Big- and little-endian integers and UTF-8 text inside byte buffers.
use vstd::prelude::*;
use vstd::utf8::{decode_utf8, valid_utf8};

verus! {

/// Big-endian `u32` from four bytes.
pub open spec fn be_u32(b0: u8, b1: u8, b2: u8, b3: u8) -> u32 {
    (b0 as int * 0x1000000 + b1 as int * 0x10000 + b2 as int * 0x100 + b3 as int) as u32
}

/// Big-endian `u32` at `data[at..at + 4]`.
pub open spec fn be_u32_at(data: Seq<u8>, at: int) -> u32 {
    be_u32(data[at], data[at + 1], data[at + 2], data[at + 3])
}

/// Little-endian `u32` at `data[at..at + 4]`.
pub open spec fn le_u32_at(data: Seq<u8>, at: int) -> u32 {
    be_u32(data[at + 3], data[at + 2], data[at + 1], data[at])
}

/// `u32::from_be_bytes` on `data[at..at + 4]`.
pub fn read_be_u32(data: &[u8], at: usize) -> (v: u32)
    requires
        at + 4 <= data@.len(),
    ensures
        v == be_u32_at(data@, at as int),
        v as int == data@[at as int] as int * 0x1000000 + data@[at + 1] as int * 0x10000
            + data@[at + 2] as int * 0x100 + data@[at + 3] as int,
{
    (data[at] as u32) * 0x1000000 + (data[at + 1] as u32) * 0x10000 + (data[at + 2] as u32) * 0x100
        + (data[at + 3] as u32)
}

/// `u32::from_le_bytes` on `data[at..at + 4]`.
pub fn read_le_u32(data: &[u8], at: usize) -> (v: u32)
    requires
        at + 4 <= data@.len(),
    ensures
        v == le_u32_at(data@, at as int),
        v as int == data@[at + 3] as int * 0x1000000 + data@[at + 2] as int * 0x10000
            + data@[at + 1] as int * 0x100 + data@[at as int] as int,
{
    let b0 = data[at] as u32;
    (data[at + 3] as u32) * 0x1000000 + (data[at + 2] as u32) * 0x10000 + (data[at + 1] as u32)
        * 0x100 + b0
}

/// `std::str::from_utf8`: the text that the bytes encode, or `None` when they are not valid UTF-8.
#[verifier::external_body]
pub(crate) fn utf8_to_string(v: &[u8]) -> (res: Option<String>)
    ensures
        res is Some <==> valid_utf8(v@),
        res matches Some(s) ==> s@ == decode_utf8(v@),
{
    match std::str::from_utf8(v) {
        Ok(s) => Some(s.to_string()),
        Err(_) => None,
    }
}

/// Copy of `data[from..to]`.
pub fn copy_range(data: &[u8], from: usize, to: usize) -> (r: Vec<u8>)
    requires
        from <= to <= data@.len(),
    ensures
        r@ == data@.subrange(from as int, to as int),
{
    let mut r: Vec<u8> = Vec::new();
    let mut i = from;
    while i < to
        invariant
            from <= i <= to <= data@.len(),
            r@ == data@.subrange(from as int, i as int),
        decreases to - i,
    {
        r.push(data[i]);
        assert(data@.subrange(from as int, i + 1) == data@.subrange(from as int, i as int).push(
            data@[i as int],
        ));
        i += 1;
    }
    r
}

/// Index of the first byte equal to `b` at or after `from`.
pub open spec fn first_index_of(s: Seq<u8>, b: u8, from: int) -> Option<int>
    decreases s.len() - from,
{
    if from < 0 || from >= s.len() {
        None
    } else if s[from] == b {
        Some(from)
    } else {
        first_index_of(s, b, from + 1)
    }
}

pub fn position_of(data: &[u8], b: u8, from: usize) -> (r: Option<usize>)
    ensures
        r matches Some(k) ==> first_index_of(data@, b, from as int) == Some(k as int),
        r is None ==> first_index_of(data@, b, from as int) is None,
{
    let mut i = from;
    while i < data.len()
        invariant
            from <= i,
            first_index_of(data@, b, from as int) == first_index_of(data@, b, i as int),
        decreases data.len() - i,
    {
        if data[i] == b {
            return Some(i);
        }
        i += 1;
    }
    None
}

pub proof fn lemma_first_index_of(s: Seq<u8>, b: u8, from: int)
    requires
        0 <= from,
    ensures
        first_index_of(s, b, from) matches Some(k) ==> from <= k < s.len() && s[k] == b && forall|
            j: int,
        | from <= j < k ==> s[j] != b,
        first_index_of(s, b, from) is None ==> forall|j: int| from <= j < s.len() ==> s[j] != b,
    decreases s.len() - from,
{
    if from < s.len() && s[from] != b {
        lemma_first_index_of(s, b, from + 1);
    }
}

} // verus!

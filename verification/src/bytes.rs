//! Byte strings: joining, comparing and length prefixes.
use vstd::prelude::*;

verus! {

/// The two big-endian bytes of `n` modulo 2^16.
pub open spec fn u16_be(n: nat) -> Seq<u8> {
    seq![((n % 0x1_0000) / 0x100) as u8, (n % 0x100) as u8]
}

/// A byte string after its length, which is taken modulo 2^16.
pub open spec fn length_prefixed(bytes: Seq<u8>) -> Seq<u8> {
    u16_be(bytes.len()) + bytes
}

/// The bytes of a text label.
pub open spec fn label(text: &str) -> Seq<u8> {
    vstd::utf8::encode_utf8(text@)
}

/// Appends `more` to `buffer`.
pub fn append(buffer: &mut Vec<u8>, more: &[u8])
    ensures
        final(buffer)@ == old(buffer)@ + more@,
{
    buffer.extend_from_slice(more);
    assert(buffer@ =~= old(buffer)@ + more@);
}

/// Appends the low 16 bits of the length of `more`, then `more` itself.
pub fn append_length_prefixed(buffer: &mut Vec<u8>, more: &[u8])
    ensures
        final(buffer)@ == old(buffer)@ + length_prefixed(more@),
{
    let len: usize = more.len();
    buffer.push(((len % 0x1_0000) / 0x100) as u8);
    buffer.push((len % 0x100) as u8);
    buffer.extend_from_slice(more);
    assert(buffer@ =~= old(buffer)@ + length_prefixed(more@));
}

/// The two byte strings, one after the other.
pub fn concat(first: &[u8], second: &[u8]) -> (joined: Vec<u8>)
    ensures
        joined@ == first@ + second@,
{
    let mut joined: Vec<u8> = Vec::new();
    append(&mut joined, first);
    append(&mut joined, second);
    assert(joined@ =~= first@ + second@);
    joined
}

/// The three byte strings, one after the other.
pub fn concat3(first: &[u8], second: &[u8], third: &[u8]) -> (joined: Vec<u8>)
    ensures
        joined@ == first@ + second@ + third@,
{
    let mut joined: Vec<u8> = concat(first, second);
    append(&mut joined, third);
    joined
}

/// Whether the two byte strings are the same.
pub fn equal(first: &[u8], second: &[u8]) -> (same: bool)
    ensures
        same == (first@ == second@),
{
    if first.len() != second.len() {
        return false;
    }
    let mut i: usize = 0;
    while i < first.len()
        invariant
            first@.len() == second@.len(),
            i <= first@.len(),
            forall|j: int| 0 <= j < i ==> first@[j] == second@[j],
        decreases first@.len() - i,
    {
        if first[i] != second[i] {
            return false;
        }
        i = i + 1;
    }
    assert(first@ =~= second@);
    true
}

/// 32 bytes from a place on, as an array.
pub fn array32_at(bytes: &[u8], start: usize) -> (array: [u8; 32])
    requires
        start + 32 <= bytes@.len(),
    ensures
        array@ == bytes@.subrange(start as int, start + 32),
{
    let mut array: [u8; 32] = [0u8; 32];
    let end: usize = bytes.len();
    let mut i: usize = 0;
    while i < 32
        invariant
            start + 32 <= end,
            end == bytes@.len(),
            i <= 32,
            forall|j: int| 0 <= j < i ==> array@[j] == bytes@[start + j],
        decreases 32 - i,
    {
        array[i] = bytes[start + i];
        i = i + 1;
    }
    assert(array@ =~= bytes@.subrange(start as int, start + 32));
    array
}

/// A 64-byte string as an array.
pub fn to_array64(bytes: &[u8]) -> (array: [u8; 64])
    requires
        bytes@.len() == 64,
    ensures
        array@ == bytes@,
{
    let mut array: [u8; 64] = [0u8; 64];
    let mut i: usize = 0;
    while i < 64
        invariant
            bytes@.len() == 64,
            i <= 64,
            forall|j: int| 0 <= j < i ==> array@[j] == bytes@[j],
        decreases 64 - i,
    {
        array[i] = bytes[i];
        i = i + 1;
    }
    assert(array@ =~= bytes@);
    array
}

} // verus!

//! Big-endian fields inside byte sequences.
//!
//! The spec functions name the value of a field at an offset of a frame and
//! the bytes of a field on the wire. The executable functions read and append
//! such fields.

use vstd::prelude::*;

verus! {

/// The 16-bit value whose big-endian bytes are `hi`, `lo`.
pub open spec fn be16(hi: u8, lo: u8) -> u16 {
    (hi * 256 + lo) as u16
}

/// The two big-endian bytes of `v`.
pub open spec fn be16_bytes(v: u16) -> Seq<u8> {
    seq![(v / 256) as u8, (v % 256) as u8]
}

/// The 16-bit field at offset `i` of `s`.
pub open spec fn be16_at(s: Seq<u8>, i: int) -> u16 {
    be16(s[i], s[i + 1])
}

/// The four big-endian bytes of `v`.
pub open spec fn be32_bytes(v: u32) -> Seq<u8> {
    be16_bytes((v / 0x1_0000) as u16) + be16_bytes((v % 0x1_0000) as u16)
}

/// The 32-bit field at offset `i` of `s`.
pub open spec fn be32_at(s: Seq<u8>, i: int) -> u32 {
    (be16_at(s, i) * 0x1_0000 + be16_at(s, i + 2)) as u32
}

/// The low 16 bits of a length.
pub open spec fn low16(n: int) -> u16 {
    (n % 0x1_0000) as u16
}

/// Reading back the bytes of a 16-bit value gives the value.
pub broadcast proof fn lemma_be16_round_trip(v: u16)
    ensures
        (#[trigger] be16_bytes(v)).len() == 2,
        be16(be16_bytes(v)[0], be16_bytes(v)[1]) == v,
{
}

/// Reading back the bytes of a 32-bit value gives the value.
pub proof fn lemma_be32_round_trip(v: u32)
    ensures
        be32_bytes(v).len() == 4,
        be32_at(be32_bytes(v), 0) == v,
{
}

/// The high byte of `v`.
pub fn high_byte(v: u16) -> (r: u8)
    ensures
        r == be16_bytes(v)[0],
        r == v / 256,
{
    (v / 256) as u8
}

/// The low byte of `v`.
pub fn low_byte(v: u16) -> (r: u8)
    ensures
        r == be16_bytes(v)[1],
        r == v % 256,
{
    (v % 256) as u8
}

/// Joins two big-endian bytes.
pub fn join16(hi: u8, lo: u8) -> (r: u16)
    ensures
        r == be16(hi, lo),
{
    hi as u16 * 256 + lo as u16
}

/// Reads the 16-bit field at offset `i`.
pub fn read_be16(data: &[u8], i: usize) -> (r: u16)
    requires
        i + 1 < data@.len(),
    ensures
        r == be16_at(data@, i as int),
{
    join16(data[i], data[i + 1])
}

/// Reads the 32-bit field at offset `i`.
pub fn read_be32(data: &[u8], i: usize) -> (r: u32)
    requires
        i + 3 < data@.len(),
    ensures
        r == be32_at(data@, i as int),
{
    assert(i + 3 < data.len());
    read_be16(data, i) as u32 * 0x1_0000 + read_be16(data, i + 2) as u32
}

/// Reads the six bytes at offset `i`.
pub fn read_mac(data: &[u8], i: usize) -> (r: [u8; 6])
    requires
        i + 6 <= data@.len(),
    ensures
        r@ == data@.subrange(i as int, i + 6),
{
    let r = [data[i], data[i + 1], data[i + 2], data[i + 3], data[i + 4], data[i + 5]];
    assert(r@ =~= data@.subrange(i as int, i + 6));
    r
}

/// Appends the two big-endian bytes of `v`.
pub fn push_be16(out: &mut Vec<u8>, v: u16)
    ensures
        final(out)@ == old(out)@ + be16_bytes(v),
{
    out.push(high_byte(v));
    out.push(low_byte(v));
    assert(out@ =~= old(out)@ + be16_bytes(v));
}

/// Appends the four big-endian bytes of `v`.
pub fn push_be32(out: &mut Vec<u8>, v: u32)
    ensures
        final(out)@ == old(out)@ + be32_bytes(v),
{
    push_be16(out, (v / 0x1_0000) as u16);
    push_be16(out, (v % 0x1_0000) as u16);
    assert(out@ =~= old(out)@ + be32_bytes(v));
}

/// Appends a byte slice.
pub fn push_bytes(out: &mut Vec<u8>, data: &[u8])
    ensures
        final(out)@ == old(out)@ + data@,
{
    out.extend_from_slice(data);
    assert(out@ =~= old(out)@ + data@);
}

/// Copies a byte slice into a vector of its own.
pub fn copy_bytes(data: &[u8]) -> (r: Vec<u8>)
    ensures
        r@ == data@,
{
    let mut r: Vec<u8> = Vec::new();
    push_bytes(&mut r, data);
    assert(r@ =~= data@);
    r
}

/// The part of `data` from `i` up to `j`.
pub fn slice_of(data: &[u8], i: usize, j: usize) -> (r: &[u8])
    requires
        i <= j <= data@.len(),
    ensures
        r@ == data@.subrange(i as int, j as int),
{
    vstd::slice::slice_subrange(data, i, j)
}

/// The low 16 bits of a length.
pub fn truncate16(n: usize) -> (r: u16)
    ensures
        r == n % 0x1_0000,
        r == low16(n as int),
{
    (n % 0x1_0000) as u16
}

/// The low four bits of a byte.
pub fn low_nibble(b: u8) -> (r: usize)
    ensures
        r == b % 16,
{
    (b % 16) as usize
}

/// The high four bits of a byte.
pub fn high_nibble(b: u8) -> (r: u8)
    ensures
        r == b / 16,
{
    b / 16
}

/// The low 16 bits of the length of `n` bytes behind a header of `header` bytes.
pub fn truncate16_behind(header: usize, n: usize) -> (r: u16)
    requires
        header <= 0xFFFF,
    ensures
        r == low16(header + n),
{
    let tail: usize = n % 0x1_0000;
    let sum: usize = header + tail;
    assert(sum % 0x1_0000 == (header + n) % 0x1_0000);
    (sum % 0x1_0000) as u16
}

/// How many bytes fit from a source of `src` bytes into a buffer of `dst` bytes.
pub open spec fn fitting(dst: nat, src: nat) -> nat {
    if src < dst {
        src
    } else {
        dst
    }
}

/// A buffer after as much of `src` as fits was copied to its front.
pub open spec fn overlaid(dst: Seq<u8>, src: Seq<u8>) -> Seq<u8> {
    src.take(fitting(dst.len(), src.len()) as int) + dst.skip(fitting(dst.len(), src.len()) as int)
}

/// Copies as much of `src` as fits to the front of `dst`, and says how much that was.
pub fn copy_prefix(dst: &mut [u8], src: &[u8]) -> (r: usize)
    ensures
        r == fitting(old(dst)@.len(), src@.len()),
        final(dst)@ == overlaid(old(dst)@, src@),
{
    let n = if src.len() < dst.len() {
        src.len()
    } else {
        dst.len()
    };
    let mut i: usize = 0;
    while i < n
        invariant
            i <= n,
            n <= src@.len(),
            n <= dst@.len(),
            dst@.len() == old(dst)@.len(),
            forall|k: int| 0 <= k < i ==> dst@[k] == src@[k],
            forall|k: int| i <= k < dst@.len() ==> dst@[k] == old(dst)@[k],
        decreases n - i,
    {
        dst[i] = src[i];
        i = i + 1;
    }
    assert(dst@ =~= overlaid(old(dst)@, src@));
    n
}

} // verus!

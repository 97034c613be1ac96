//! Little- and big-endian integer access on byte buffers, stated over
//! their mathematical value.
use vstd::prelude::*;

verus! {

/// `2^n` as a natural number.
pub open spec fn pow2(n: nat) -> nat
    decreases n,
{
    if n == 0 {
        1
    } else {
        2 * pow2((n - 1) as nat)
    }
}

/// Value of the little-endian 16-bit word at `i`.
pub open spec fn u16_le(b: Seq<u8>, i: int) -> int {
    b[i] as int + 256 * b[i + 1]
}

/// Value of the little-endian 32-bit word at `i`.
pub open spec fn u32_le(b: Seq<u8>, i: int) -> int {
    b[i] as int + 256 * b[i + 1] + 65536 * b[i + 2] + 16777216 * b[i + 3]
}

/// Value of the big-endian 16-bit word at `i`.
pub open spec fn u16_be(b: Seq<u8>, i: int) -> int {
    256 * b[i] + b[i + 1] as int
}

/// Value of the big-endian 32-bit word at `i`.
pub open spec fn u32_be(b: Seq<u8>, i: int) -> int {
    16777216 * b[i] + 65536 * b[i + 1] + 256 * b[i + 2] + b[i + 3] as int
}

/// The little-endian 16-bit word at `i`, when the buffer holds it.
pub open spec fn le16_at(b: Seq<u8>, i: int) -> Option<u16> {
    if 0 <= i && i + 2 <= b.len() {
        Some(u16_le(b, i) as u16)
    } else {
        None
    }
}

/// The little-endian 32-bit word at `i`, when the buffer holds it.
pub open spec fn le32_at(b: Seq<u8>, i: int) -> Option<u32> {
    if 0 <= i && i + 4 <= b.len() {
        Some(u32_le(b, i) as u32)
    } else {
        None
    }
}

/// The big-endian 16-bit word at `i`, when the buffer holds it.
pub open spec fn be16_at(b: Seq<u8>, i: int) -> Option<u16> {
    if 0 <= i && i + 2 <= b.len() {
        Some(u16_be(b, i) as u16)
    } else {
        None
    }
}

/// The big-endian 32-bit word at `i`, when the buffer holds it.
pub open spec fn be32_at(b: Seq<u8>, i: int) -> Option<u32> {
    if 0 <= i && i + 4 <= b.len() {
        Some(u32_be(b, i) as u32)
    } else {
        None
    }
}

/// The four little-endian bytes of `v` (taken modulo `2^32`).
pub open spec fn le32_bytes(v: int) -> Seq<u8> {
    seq![
        (v % 256) as u8,
        ((v / 256) % 256) as u8,
        ((v / 65536) % 256) as u8,
        ((v / 16777216) % 256) as u8,
    ]
}

/// The two little-endian bytes of `v` (taken modulo `2^16`).
pub open spec fn le16_bytes(v: int) -> Seq<u8> {
    seq![(v % 256) as u8, ((v / 256) % 256) as u8]
}

/// The four big-endian bytes of `v` (taken modulo `2^32`).
pub open spec fn be32_bytes(v: int) -> Seq<u8> {
    seq![
        ((v / 16777216) % 256) as u8,
        ((v / 65536) % 256) as u8,
        ((v / 256) % 256) as u8,
        (v % 256) as u8,
    ]
}

/// The two big-endian bytes of `v` (taken modulo `2^16`).
pub open spec fn be16_bytes(v: int) -> Seq<u8> {
    seq![((v / 256) % 256) as u8, (v % 256) as u8]
}

/// `n` zero bytes.
pub open spec fn zeros(n: nat) -> Seq<u8> {
    Seq::new(n, |i: int| 0u8)
}

/// Reads the little-endian `u16` at `offset`; `None` when fewer than two
/// bytes remain there.
pub fn read_u16_le(bytes: &[u8], offset: usize) -> (r: Option<u16>)
    ensures
        r == le16_at(bytes@, offset as int),
        r is Some <==> offset + 2 <= bytes@.len(),
        r is Some ==> r.unwrap() as int == u16_le(bytes@, offset as int),
{
    if offset > bytes.len() || bytes.len() - offset < 2 {
        return None;
    }
    let v: u16 = bytes[offset] as u16 + 256 * (bytes[offset + 1] as u16);
    Some(v)
}

/// Reads the little-endian `u32` at `offset`; `None` when fewer than four
/// bytes remain there.
pub fn read_u32_le(bytes: &[u8], offset: usize) -> (r: Option<u32>)
    ensures
        r == le32_at(bytes@, offset as int),
        r is Some <==> offset + 4 <= bytes@.len(),
        r is Some ==> r.unwrap() as int == u32_le(bytes@, offset as int),
{
    if offset > bytes.len() || bytes.len() - offset < 4 {
        return None;
    }
    let v: u32 = bytes[offset] as u32 + 256 * (bytes[offset + 1] as u32) + 65536 * (
    bytes[offset + 2] as u32) + 16777216 * (bytes[offset + 3] as u32);
    Some(v)
}

/// Reads the big-endian `u16` at `offset`; `None` when fewer than two
/// bytes remain there.
pub fn read_u16(data: &[u8], offset: usize) -> (r: Option<u16>)
    ensures
        r == be16_at(data@, offset as int),
        r is Some <==> offset + 2 <= data@.len(),
        r is Some ==> r.unwrap() as int == u16_be(data@, offset as int),
{
    if offset > data.len() || data.len() - offset < 2 {
        return None;
    }
    let v: u16 = 256 * (data[offset] as u16) + data[offset + 1] as u16;
    Some(v)
}

/// Reads the big-endian `u32` at `offset`; `None` when fewer than four
/// bytes remain there.
pub fn read_u32(data: &[u8], offset: usize) -> (r: Option<u32>)
    ensures
        r == be32_at(data@, offset as int),
        r is Some <==> offset + 4 <= data@.len(),
        r is Some ==> r.unwrap() as int == u32_be(data@, offset as int),
{
    if offset > data.len() || data.len() - offset < 4 {
        return None;
    }
    let v: u32 = 16777216 * (data[offset] as u32) + 65536 * (data[offset + 1] as u32) + 256 * (
    data[offset + 2] as u32) + data[offset + 3] as u32;
    Some(v)
}

/// Overwrites four bytes at `offset` with the big-endian encoding of `value`.
pub fn write_u32(data: &mut Vec<u8>, offset: usize, value: u32)
    requires
        offset + 4 <= old(data)@.len(),
    ensures
        final(data)@ == old(data)@.subrange(0, offset as int) + be32_bytes(value as int)
            + old(data)@.subrange(offset + 4, old(data)@.len() as int),
{
    let _n = data.len();
    data.set(offset, (value / 16777216) as u8);
    data.set(offset + 1, ((value / 65536) % 256) as u8);
    data.set(offset + 2, ((value / 256) % 256) as u8);
    data.set(offset + 3, (value % 256) as u8);
    assert(data@ =~= old(data)@.subrange(0, offset as int) + be32_bytes(value as int)
        + old(data)@.subrange(offset + 4, old(data)@.len() as int));
}

/// Overwrites two bytes at `offset` with the big-endian encoding of `value`.
pub fn write_u16(data: &mut Vec<u8>, offset: usize, value: u16)
    requires
        offset + 2 <= old(data)@.len(),
    ensures
        final(data)@ == old(data)@.subrange(0, offset as int) + be16_bytes(value as int)
            + old(data)@.subrange(offset + 2, old(data)@.len() as int),
{
    let _n = data.len();
    data.set(offset, (value / 256) as u8);
    data.set(offset + 1, (value % 256) as u8);
    assert(data@ =~= old(data)@.subrange(0, offset as int) + be16_bytes(value as int)
        + old(data)@.subrange(offset + 2, old(data)@.len() as int));
}

/// Appends the little-endian bytes of `v`.
pub fn push_u32_le(out: &mut Vec<u8>, v: u32)
    ensures
        final(out)@ == old(out)@ + le32_bytes(v as int),
{
    out.push((v % 256) as u8);
    out.push(((v / 256) % 256) as u8);
    out.push(((v / 65536) % 256) as u8);
    out.push((v / 16777216) as u8);
    assert(out@ =~= old(out)@ + le32_bytes(v as int));
}

/// Appends the little-endian bytes of `v`.
pub fn push_u16_le(out: &mut Vec<u8>, v: u16)
    ensures
        final(out)@ == old(out)@ + le16_bytes(v as int),
{
    out.push((v % 256) as u8);
    out.push((v / 256) as u8);
    assert(out@ =~= old(out)@ + le16_bytes(v as int));
}

/// Appends every byte of `s`.
pub fn push_slice(out: &mut Vec<u8>, s: &[u8])
    ensures
        final(out)@ == old(out)@ + s@,
{
    let mut i: usize = 0;
    while i < s.len()
        invariant
            i <= s.len(),
            out@ == old(out)@ + s@.subrange(0, i as int),
        decreases s.len() - i,
    {
        out.push(s[i]);
        i = i + 1;
        assert(out@ =~= old(out)@ + s@.subrange(0, i as int));
    }
    assert(s@.subrange(0, s.len() as int) =~= s@);
}

/// Appends `n` zero bytes.
pub fn push_zeros(out: &mut Vec<u8>, n: usize)
    ensures
        final(out)@ == old(out)@ + zeros(n as nat),
{
    let mut i: usize = 0;
    while i < n
        invariant
            i <= n,
            out@ == old(out)@ + zeros(i as nat),
        decreases n - i,
    {
        out.push(0u8);
        i = i + 1;
        assert(out@ =~= old(out)@ + zeros(i as nat));
    }
}

/// A vector of `n` zero bytes.
pub fn zero_vec(n: usize) -> (r: Vec<u8>)
    ensures
        r@ == zeros(n as nat),
{
    let mut out: Vec<u8> = Vec::new();
    push_zeros(&mut out, n);
    assert(out@ =~= zeros(n as nat));
    out
}

/// `2^n` for the small exponents used by palette sizes.
pub fn pow2_usize(n: u16) -> (r: usize)
    requires
        n <= 8,
    ensures
        r as nat == pow2(n as nat),
{
    let mut r: usize = 1;
    let mut i: u16 = 0;
    while i < n
        invariant
            i <= n <= 8,
            r as nat == pow2(i as nat),
            r <= 256,
        decreases n - i,
    {
        proof {
            lemma_pow2_bound((i + 1) as nat);
        }
        r = r * 2;
        i = i + 1;
    }
    r
}

proof fn lemma_pow2_bound(n: nat)
    requires
        n <= 8,
    ensures
        pow2(n) <= 256,
        pow2(n) >= 1,
    decreases n,
{
    reveal_with_fuel(pow2, 9);
}

} // verus!

//! Little-endian integer access to byte sequences, and the two ways a span of
//! bytes is overwritten (copied from a source, or zeroed).
use vstd::prelude::*;

verus! {

/// The unsigned value of the two bytes at `pos`, least significant first.
pub open spec fn u16_le(b: Seq<u8>, pos: int) -> int {
    b[pos] as int + 256 * (b[pos + 1] as int)
}

/// The unsigned value of the four bytes at `pos`, least significant first.
pub open spec fn u32_le(b: Seq<u8>, pos: int) -> int {
    u16_le(b, pos) + 65536 * u16_le(b, pos + 2)
}

/// The unsigned value of the eight bytes at `pos`, least significant first.
pub open spec fn u64_le(b: Seq<u8>, pos: int) -> int {
    u32_le(b, pos) + 4294967296 * u32_le(b, pos + 4)
}

/// The eight bytes that encode `v` (taken modulo 2^64), least significant first.
pub open spec fn le_bytes64(v: int) -> Seq<u8> {
    Seq::new(8, |k: int| ((v / pow256(k)) % 256) as u8)
}

/// `mem` with the bytes of `src` written over it from `pos` on.
pub open spec fn write_at(mem: Seq<u8>, pos: int, src: Seq<u8>) -> Seq<u8> {
    mem.subrange(0, pos) + src + mem.subrange(pos + src.len(), mem.len() as int)
}

/// A run of `n` zero bytes.
pub open spec fn zeros(n: int) -> Seq<u8> {
    Seq::new(n as nat, |i: int| 0u8)
}

/// Reading back the encoding of a 64-bit value gives the value.
pub proof fn lemma_le_bytes64_round_trip(v: u64)
    ensures
        u64_le(le_bytes64(v as int), 0) == v as int,
        le_bytes64(v as int).len() == 8,
{
    let b = le_bytes64(v as int);
    let x = v as int;
    let x0 = x / pow256(0);
    let x1 = x / pow256(1);
    let x2 = x / pow256(2);
    let x3 = x / pow256(3);
    let x4 = x / pow256(4);
    let x5 = x / pow256(5);
    let x6 = x / pow256(6);
    let x7 = x / pow256(7);
    let x8 = x / pow256(8);
    lemma_pow256_step(x, 0);
    lemma_pow256_step(x, 1);
    lemma_pow256_step(x, 2);
    lemma_pow256_step(x, 3);
    lemma_pow256_step(x, 4);
    lemma_pow256_step(x, 5);
    lemma_pow256_step(x, 6);
    lemma_pow256_step(x, 7);
    assert(x0 == x);
    assert(x8 == 0);
    assert(x0 == b[0] as int + 256 * x1);
    assert(x1 == b[1] as int + 256 * x2);
    assert(x2 == b[2] as int + 256 * x3);
    assert(x3 == b[3] as int + 256 * x4);
    assert(x4 == b[4] as int + 256 * x5);
    assert(x5 == b[5] as int + 256 * x6);
    assert(x6 == b[6] as int + 256 * x7);
    assert(x7 == b[7] as int + 256 * x8);
}

/// Two runs of eight equal bytes read as the same 64-bit value.
pub proof fn lemma_u64_le_same_bytes(a: Seq<u8>, pa: int, b: Seq<u8>, pb: int)
    requires
        forall|q: int| 0 <= q < 8 ==> #[trigger] a[pa + q] == b[pb + q],
    ensures
        u64_le(a, pa) == u64_le(b, pb),
{
    assert(a[pa + 0] == b[pb + 0]);
    assert(a[pa + 1] == b[pb + 1]);
    assert(a[pa + 2] == b[pb + 2]);
    assert(a[pa + 3] == b[pb + 3]);
    assert(a[pa + 4] == b[pb + 4]);
    assert(a[pa + 5] == b[pb + 5]);
    assert(a[pa + 6] == b[pb + 6]);
    assert(a[pa + 7] == b[pb + 7]);
    assert(pa + 0 == pa && pb + 0 == pb);
    assert(pa + 2 + 1 == pa + 3 && pb + 2 + 1 == pb + 3);
    assert(pa + 4 + 1 == pa + 5 && pb + 4 + 1 == pb + 5);
    assert(pa + 4 + 2 == pa + 6 && pb + 4 + 2 == pb + 6);
    assert(pa + 4 + 2 + 1 == pa + 7 && pb + 4 + 2 + 1 == pb + 7);
}

/// Reads the 16-bit little-endian value at `pos`.
pub fn read_u16(b: &Vec<u8>, pos: usize) -> (r: u16)
    requires
        pos + 2 <= b.len(),
    ensures
        r as int == u16_le(b@, pos as int),
{
    (b[pos] as u16) + 256 * (b[pos + 1] as u16)
}

/// Reads the 32-bit little-endian value at `pos`.
pub fn read_u32(b: &Vec<u8>, pos: usize) -> (r: u32)
    requires
        pos + 4 <= b.len(),
    ensures
        r as int == u32_le(b@, pos as int),
{
    let lo = read_u16(b, pos);
    let hi = read_u16(b, pos + 2);
    (lo as u32) + 65536 * (hi as u32)
}

/// Reads the 64-bit little-endian value at `pos`.
pub fn read_u64(b: &Vec<u8>, pos: usize) -> (r: u64)
    requires
        pos + 8 <= b.len(),
    ensures
        r as int == u64_le(b@, pos as int),
{
    let lo = read_u32(b, pos);
    let hi = read_u32(b, pos + 4);
    (lo as u64) + 4294967296 * (hi as u64)
}

/// Overwrites the eight bytes at `pos` with the encoding of `v`.
pub fn write_u64(mem: &mut Vec<u8>, pos: usize, v: u64)
    requires
        pos + 8 <= old(mem).len(),
    ensures
        final(mem)@ == write_at(old(mem)@, pos as int, le_bytes64(v as int)),
{
    let ghost start = mem@;
    let mut i: usize = 0;
    let mut rest: u64 = v;
    while i < 8
        invariant
            0 <= i <= 8,
            pos + 8 <= start.len(),
            mem.len() == start.len(),
            rest as int == (v as int) / pow256(i as int),
            forall|k: int| 0 <= k < pos || pos + 8 <= k < start.len() ==> mem@[k] == start[k],
            forall|k: int| pos <= k < pos + i ==> #[trigger] mem@[k] == le_bytes64(v as int)[k - pos],
        decreases 8 - i,
    {
        proof {
            lemma_pow256_step(v as int, i as int);
        }
        mem.set(pos + i, (rest % 256) as u8);
        rest = rest / 256;
        i = i + 1;
    }
    assert(mem@ =~= write_at(start, pos as int, le_bytes64(v as int)));
}

/// 256 raised to `i`, for `0 <= i <= 8`.
pub open spec fn pow256(i: int) -> int {
    if i <= 0 {
        1
    } else if i == 1 {
        0x100
    } else if i == 2 {
        0x1_0000
    } else if i == 3 {
        0x100_0000
    } else if i == 4 {
        0x1_0000_0000
    } else if i == 5 {
        0x100_0000_0000
    } else if i == 6 {
        0x1_0000_0000_0000
    } else if i == 7 {
        0x100_0000_0000_0000
    } else {
        0x1_0000_0000_0000_0000
    }
}

proof fn lemma_pow256_step(v: int, i: int)
    requires
        0 <= v,
        0 <= i < 8,
    ensures
        (v / pow256(i)) / 256 == v / pow256(i + 1),
        ((v / pow256(i)) % 256) as u8 == le_bytes64(v)[i],
        v / pow256(i) == 256 * (v / pow256(i + 1)) + (v / pow256(i)) % 256,
        ((v / pow256(i)) % 256) as u8 as int == (v / pow256(i)) % 256,
{
    let p = pow256(i);
    assert(p > 0);
    assert(pow256(i + 1) == p * 256);
    vstd::arithmetic::div_mod::lemma_div_denominator(v, p, 256);
    vstd::arithmetic::div_mod::lemma_fundamental_div_mod(v / p, 256);
}

/// Copies `len` bytes of `src`, starting at `from`, into `mem` at `pos`.
pub fn copy_into(mem: &mut Vec<u8>, pos: usize, src: &Vec<u8>, from: usize, len: usize)
    requires
        pos + len <= old(mem).len(),
        from + len <= src.len(),
    ensures
        final(mem)@ == write_at(old(mem)@, pos as int, src@.subrange(from as int, from + len)),
{
    let ghost start = mem@;
    let mut i: usize = 0;
    while i < len
        invariant
            0 <= i <= len,
            pos + len <= start.len(),
            from + len <= src.len(),
            mem.len() == start.len(),
            forall|k: int| 0 <= k < pos || pos + i <= k < start.len() ==> mem@[k] == start[k],
            forall|k: int| pos <= k < pos + i ==> #[trigger] mem@[k] == src@[from + (k - pos)],
        decreases len - i,
    {
        mem.set(pos + i, src[from + i]);
        i = i + 1;
    }
    assert(mem@ =~= write_at(start, pos as int, src@.subrange(from as int, from + len)));
}

/// Sets the `len` bytes of `mem` from `pos` on to zero.
pub fn fill_zero(mem: &mut Vec<u8>, pos: usize, len: usize)
    requires
        pos + len <= old(mem).len(),
    ensures
        final(mem)@ == write_at(old(mem)@, pos as int, zeros(len as int)),
{
    let ghost start = mem@;
    let mut i: usize = 0;
    while i < len
        invariant
            0 <= i <= len,
            pos + len <= start.len(),
            mem.len() == start.len(),
            forall|k: int| 0 <= k < pos || pos + i <= k < start.len() ==> mem@[k] == start[k],
            forall|k: int| pos <= k < pos + i ==> #[trigger] mem@[k] == 0u8,
        decreases len - i,
    {
        mem.set(pos + i, 0u8);
        i = i + 1;
    }
    assert(mem@ =~= write_at(start, pos as int, zeros(len as int)));
}

} // verus!

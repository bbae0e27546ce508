//! Byte layout of the prepared key and signature buffers: polynomials stored as 256
//! little-endian `i32` coefficients.
use vstd::prelude::*;

verus! {

/// Unsigned value of the four little-endian bytes at `start`.
pub open spec fn le_u32(s: Seq<u8>, start: int) -> int {
    s[start] + 256 * s[start + 1] + 65536 * s[start + 2] + 16_777_216 * s[start + 3]
}

/// Two's-complement value of the four little-endian bytes at `start`.
pub open spec fn le_i32(s: Seq<u8>, start: int) -> int {
    let u = le_u32(s, start);
    if u >= 0x8000_0000 { u - 0x1_0000_0000 } else { u }
}

/// Coefficient `n` of the polynomial stored at byte `offset`.
pub open spec fn prepared_coeff(s: Seq<u8>, offset: int, n: int) -> int {
    le_i32(s, offset + 4 * n)
}

/// Every coefficient of the polynomial stored at `offset` lies in `[lo, hi]`.
pub open spec fn prepared_poly_within(s: Seq<u8>, offset: int, lo: int, hi: int) -> bool {
    forall|n: int| 0 <= n < 256 ==> lo <= #[trigger] prepared_coeff(s, offset, n) <= hi
}

/// The polynomial stored at `offset` is `poly`.
pub open spec fn prepared_poly_is(s: Seq<u8>, offset: int, poly: Seq<i32>) -> bool {
    forall|n: int| 0 <= n < 256 ==> #[trigger] prepared_coeff(s, offset, n) == poly[n]
}

/// Bytes outside `[lo, hi)` are the same in both buffers.
pub open spec fn same_outside(a: Seq<u8>, b: Seq<u8>, lo: int, hi: int) -> bool {
    &&& a.len() == b.len()
    &&& forall|k: int| 0 <= k < a.len() && !(lo <= k < hi) ==> #[trigger] a[k] == b[k]
}

/// A polynomial with all coefficients zero.
pub fn zero_poly() -> (p: Vec<i32>)
    ensures
        p@.len() == 256,
        forall|n: int| 0 <= n < 256 ==> #[trigger] p@[n] == 0,
{
    let mut p: Vec<i32> = Vec::new();
    while p.len() < 256
        invariant
            p@.len() <= 256,
            forall|n: int| 0 <= n < p@.len() ==> #[trigger] p@[n] == 0,
        decreases 256 - p@.len(),
    {
        p.push(0);
    }
    p
}

/// Offset of row `row` of `t1` (NTT domain, Montgomery form) in a prepared public key.
pub fn prepared_t1_offset(row: usize) -> (off: usize)
    requires
        row < 4,
    ensures
        off == 1376 + 1024 * row,
{
    1376 + row * 1024
}

/// Offset of the challenge polynomial (NTT domain) in a prepared signature.
pub fn prepared_c_offset() -> (off: usize)
    ensures
        off == 0,
{
    0
}

/// Offset of column `col` of `z` (NTT domain, Montgomery form) in a prepared signature.
pub fn prepared_z_offset(col: usize) -> (off: usize)
    requires
        col < 4,
    ensures
        off == 1024 + 1024 * col,
{
    1024 + col * 1024
}

proof fn lemma_le_bytes(b0: u8, b1: u8, b2: u8, b3: u8, u: u32)
    requires
        u == (b0 as u32) | ((b1 as u32) << 8u32) | ((b2 as u32) << 16u32) | ((b3 as u32) << 24u32),
    ensures
        u as int == b0 + 256 * b1 + 65536 * b2 + 16_777_216 * b3,
        (u as i32) as int == (if u >= 0x8000_0000 { u - 0x1_0000_0000 } else { u as int }),
{
    assert(u == (b0 as u32) | ((b1 as u32) << 8u32) | ((b2 as u32) << 16u32) | ((b3 as u32) << 24u32)
        ==> u == b0 as u32 + (b1 as u32) * 256 + (b2 as u32) * 65536 + (b3 as u32) * 16_777_216)
        by (bit_vector);
    assert((u as i32) as int == (if u >= 0x8000_0000 { u - 0x1_0000_0000 } else { u as int }))
        by (bit_vector);
}

/// Reads coefficient `index` of the polynomial stored at `offset`.
pub fn read_prepared_coeff(prepared: &[u8], offset: usize, index: usize) -> (c: i32)
    requires
        offset + 4 * index + 4 <= prepared@.len(),
    ensures
        c as int == prepared_coeff(prepared@, offset as int, index as int),
{
    let _len = prepared.len();
    let start = offset + index * 4;
    let b0 = prepared[start];
    let b1 = prepared[start + 1];
    let b2 = prepared[start + 2];
    let b3 = prepared[start + 3];
    let u: u32 = (b0 as u32) | ((b1 as u32) << 8u32) | ((b2 as u32) << 16u32) | ((b3 as u32) << 24u32);
    proof {
        lemma_le_bytes(b0, b1, b2, b3, u);
    }
    u as i32
}

/// Writes `coeff` as coefficient `index` of the polynomial stored at `offset`.
pub fn write_prepared_coeff(prepared: &mut [u8], offset: usize, index: usize, coeff: i32)
    requires
        offset + 4 * index + 4 <= old(prepared)@.len(),
    ensures
        prepared_coeff(final(prepared)@, offset as int, index as int) == coeff,
        same_outside(final(prepared)@, old(prepared)@, offset + 4 * index, offset + 4 * index + 4),
{
    let _len = prepared.len();
    let start = offset + index * 4;
    let u: u32 = coeff as u32;
    let b0: u8 = (u & 0xff) as u8;
    let b1: u8 = ((u >> 8u32) & 0xff) as u8;
    let b2: u8 = ((u >> 16u32) & 0xff) as u8;
    let b3: u8 = ((u >> 24u32) & 0xff) as u8;
    proof {
        assert(u == (b0 as u32) | ((b1 as u32) << 8u32) | ((b2 as u32) << 16u32) | ((b3 as u32) << 24u32))
            by (bit_vector)
            requires
                b0 == (u & 0xff) as u8,
                b1 == ((u >> 8u32) & 0xff) as u8,
                b2 == ((u >> 16u32) & 0xff) as u8,
                b3 == ((u >> 24u32) & 0xff) as u8,
        ;
        lemma_le_bytes(b0, b1, b2, b3, u);
        assert((coeff as u32) as i32 == coeff) by (bit_vector);
    }
    prepared[start] = b0;
    prepared[start + 1] = b1;
    prepared[start + 2] = b2;
    prepared[start + 3] = b3;
}

/// Writes the 256 coefficients of `poly` at `offset`.
pub fn write_prepared_poly(prepared: &mut [u8], offset: usize, poly: &[i32])
    requires
        poly@.len() == 256,
        offset + 1024 <= old(prepared)@.len(),
    ensures
        prepared_poly_is(final(prepared)@, offset as int, poly@),
        same_outside(final(prepared)@, old(prepared)@, offset as int, offset + 1024),
{
    let mut i: usize = 0;
    while i < 256
        invariant
            poly@.len() == 256,
            offset + 1024 <= old(prepared)@.len(),
            i <= 256,
            same_outside(prepared@, old(prepared)@, offset as int, offset + 1024),
            forall|n: int| 0 <= n < i ==> #[trigger] prepared_coeff(prepared@, offset as int, n) == poly@[n],
        decreases 256 - i,
    {
        let ghost before = prepared@;
        write_prepared_coeff(prepared, offset, i, poly[i]);
        proof {
            assert forall|n: int| 0 <= n < i implies #[trigger] prepared_coeff(prepared@, offset as int, n) == poly@[n] by {
                assert(prepared_coeff(before, offset as int, n) == poly@[n]);
                assert(prepared@[offset + 4 * n] == before[offset + 4 * n]);
                assert(prepared@[offset + 4 * n + 1] == before[offset + 4 * n + 1]);
                assert(prepared@[offset + 4 * n + 2] == before[offset + 4 * n + 2]);
                assert(prepared@[offset + 4 * n + 3] == before[offset + 4 * n + 3]);
            }
        }
        i += 1;
    }
}

} // verus!

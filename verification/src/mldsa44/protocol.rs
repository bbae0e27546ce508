//! ML-DSA-44 verification, split into steps small enough for one transaction each:
//! prepare the key, the challenge and the `z` columns, accumulate `A z` column by column,
//! finish each row of `w1`, and compare the final hash with the signature's `c~`.
use vstd::prelude::*;
use crate::digest::{shake256, spec_shake256};
use crate::mldsa44::arith::{
    q, r32, cong, mont_reduce, partial_reduce32, to_mont, center_mod, spec_center_mod, use_hint,
    spec_use_hint, r32_inv, lemma_cong_mul, lemma_cong_trans, lemma_cong_add, lemma_cong_sym, lemma_cong_mod,
    lemma_cong_canonical, lemma_cancel_r32, lemma_multiple_cong, lemma_unmont, lemma_cong_same_mod, spec_partial_reduce64,
};
use crate::mldsa44::encode::{
    bit_unpack_into, spec_unpack_ok, unpack_coeff, spec_bit_length, spec_hints_valid, hint_end,
    hint_row_sorted, parse_hint_offsets, lemma_bits_val_bound, bits_val,
};
use crate::mldsa44::layout::{
    prepared_coeff, prepared_poly_within, prepared_poly_is, same_outside, zero_poly,
    prepared_t1_offset, prepared_c_offset, prepared_z_offset, read_prepared_coeff,
    write_prepared_coeff, write_prepared_poly,
};
use crate::mldsa44::ntt::{ntt, inv_ntt, ntt_out_bound, spec_ntt, spec_ntt_exact, spec_intt, poly_cong, poly_ints, lemma_intt_cong};
use crate::mldsa44::sample::{
    rej_ntt_poly_into, sample_in_ball, spec_rej_ntt_poly, spec_sample_in_ball, matrix_seed,
    REJ_STREAM_LEN, BALL_STREAM_LEN,
};

verus! {

pub const MLDSA44_PUBLIC_KEY_LEN: usize = 1312;
pub const MLDSA44_SIGNATURE_LEN: usize = 2420;
/// Public key, `tr`, then the four rows of `t1` as prepared polynomials.
pub const MLDSA44_PREPARED_PUBLIC_KEY_LEN: usize = 5472;
/// The challenge polynomial, then the four columns of `z`.
pub const MLDSA44_PREPARED_SIGNATURE_LEN: usize = 5120;
pub const MLDSA44_AZ_ROW_LEN: usize = 1024;
pub const MLDSA44_W1_ROW_LEN: usize = 192;
pub const MLDSA44_W1_LEN: usize = 768;
pub const MLDSA44_ROWS: usize = 4;
pub const MLDSA44_COLUMNS: usize = 4;

/// `GAMMA1 - BETA`: the exclusive bound on the centered coefficients of `z`.
pub const Z_NORM_BOUND: i32 = 130_994;

/// Largest magnitude of an accumulated `A z` coefficient that a row can be finished from.
pub open spec fn az_bound() -> int {
    0x4000_0000
}

/// The hint bytes of a signature.
pub open spec fn sig_hints(sig: Seq<u8>) -> Seq<u8> {
    sig.subrange(2336, 2420)
}

/// The commitment hash `c~` of a signature.
pub open spec fn sig_ctilde(sig: Seq<u8>) -> Seq<u8> {
    sig.subrange(0, 32)
}

/// The packed bytes of column `col` of `z`.
pub open spec fn sig_z_bytes(sig: Seq<u8>, col: int) -> Seq<u8> {
    sig.subrange(32 + 576 * col, 608 + 576 * col)
}

pub open spec fn abs_int(x: int) -> int {
    if x < 0 { -x } else { x }
}

/// Column `col` of `z` decodes, and its centered coefficients are below `GAMMA1 - BETA`.
pub open spec fn z_column_valid(sig: Seq<u8>, col: int) -> bool {
    let s = sig_z_bytes(sig, col);
    &&& spec_unpack_ok(s, 18, 131_071, 131_072)
    &&& forall|i: int| 0 <= i < 256 ==> #[trigger] abs_int(spec_center_mod(unpack_coeff(s, i, 18, 131_071, 131_072))) < Z_NORM_BOUND
}

/// Entry `(row, col)` of the matrix `A` (NTT domain), sampled from `rho`.
pub open spec fn matrix_entry(rho: Seq<u8>, row: int, col: int) -> Option<Seq<int>> {
    spec_rej_ntt_poly(spec_shake128_matrix(rho, row, col))
}

/// The SHAKE128 stream that entry `(row, col)` is sampled from.
pub open spec fn spec_shake128_matrix(rho: Seq<u8>, row: int, col: int) -> Seq<u8> {
    crate::digest::spec_shake128(matrix_seed(rho, col as u8, row as u8), REJ_STREAM_LEN as nat)
}

/// The challenge polynomial sampled from `c~`.
pub open spec fn challenge_of(sig: Seq<u8>) -> Option<Seq<int>> {
    spec_sample_in_ball(spec_shake256(sig_ctilde(sig), BALL_STREAM_LEN as nat))
}

/// Row `row` of `t1`, decoded from a public key and scaled by `2^13`.
pub open spec fn t1_scaled(pk: Seq<u8>, row: int) -> Seq<int> {
    Seq::new(256, |i: int| unpack_coeff(pk.subrange(32 + 320 * row, 352 + 320 * row), i, 10, 0, 1023) * 8192)
}

/// The polynomial stored at `offset` is `NTT(v)` in Montgomery form (times `2^32`), modulo Q.
pub open spec fn prepared_ntt_mont(s: Seq<u8>, offset: int, v: Seq<int>) -> bool {
    forall|n: int| 0 <= n < 256 ==> #[trigger] cong(prepared_coeff(s, offset, n), spec_ntt(v)[n] * r32())
}

/// The polynomial stored at `offset` is `NTT(v)`, modulo Q.
pub open spec fn prepared_ntt(s: Seq<u8>, offset: int, v: Seq<int>) -> bool {
    forall|n: int| 0 <= n < 256 ==> #[trigger] cong(prepared_coeff(s, offset, n), spec_ntt(v)[n])
}

/// The challenge polynomial `c` of a signature (its 256 coefficients).
pub open spec fn challenge_poly(sig: Seq<u8>) -> Seq<int> {
    Seq::new(256, |n: int| challenge_of(sig)->0[n])
}

/// Column `col` of `z`, decoded from a signature.
pub open spec fn z_poly(sig: Seq<u8>, col: int) -> Seq<int> {
    Seq::new(256, |i: int| unpack_coeff(sig_z_bytes(sig, col), i, 18, 131_071, 131_072))
}

/// The Montgomery form `to_mont` stores for a coefficient `x`.
pub open spec fn mont_form(x: int) -> int {
    spec_partial_reduce64(x * r32())
}

/// The polynomial stored at `offset` is exactly the computed `NTT(v)`.
pub open spec fn prepared_ntt_exact(s: Seq<u8>, offset: int, v: Seq<int>) -> bool {
    forall|n: int| 0 <= n < 256 ==> #[trigger] prepared_coeff(s, offset, n) == spec_ntt_exact(v)[n]
}

/// The polynomial stored at `offset` is exactly the computed `NTT(v)` in Montgomery form.
pub open spec fn prepared_ntt_mont_exact(s: Seq<u8>, offset: int, v: Seq<int>) -> bool {
    forall|n: int| 0 <= n < 256 ==> #[trigger] prepared_coeff(s, offset, n) == mont_form(spec_ntt_exact(v)[n])
}

/// Layout of a prepared public key: the key, `tr = SHAKE256(pk)`, and for each row the
/// reduced `NTT(t1 * 2^13)` in Montgomery form.
pub open spec fn prepared_key_layout(p: Seq<u8>, pk: Seq<u8>) -> bool {
    &&& p.len() == 5472
    &&& p.subrange(0, 1312) == pk
    &&& p.subrange(1312, 1376) == spec_shake256(pk, 64)
    &&& forall|row: int| 0 <= row < 4 ==> #[trigger] prepared_poly_within(p, 1376 + 1024 * row, -q(), 2 * q() - 1)
    &&& forall|row: int| 0 <= row < 4 ==> #[trigger] prepared_ntt_mont(p, 1376 + 1024 * row, t1_scaled(pk, row))
    &&& forall|row: int| 0 <= row < 4 ==> #[trigger] prepared_ntt_mont_exact(p, 1376 + 1024 * row, t1_scaled(pk, row))
}

/// An NTT followed by `to_mont` stores `NTT(v) * 2^32` modulo Q.
proof fn lemma_ntt_then_mont(before: Seq<i32>, transformed: Seq<i32>, mont: Seq<i32>, v: Seq<int>)
    requires
        poly_ints(before) == v,
        poly_cong(poly_ints(transformed), spec_ntt(poly_ints(before))),
        transformed.len() == 256,
        mont.len() == 256,
        forall|i: int| 0 <= i < 256 ==> #[trigger] cong(mont[i] as int, transformed[i] * r32()),
    ensures
        forall|n: int| 0 <= n < 256 ==> #[trigger] cong(mont[n] as int, spec_ntt(v)[n] * r32()),
{
    assert forall|n: int| 0 <= n < 256 implies #[trigger] cong(mont[n] as int, spec_ntt(v)[n] * r32()) by {
        assert(cong(poly_ints(transformed)[n], spec_ntt(v)[n]));
        lemma_cong_mul(transformed[n] as int, spec_ntt(v)[n], r32());
        lemma_cong_trans(mont[n] as int, transformed[n] * r32(), spec_ntt(v)[n] * r32());
    }
}

/// `next - prev` is the Montgomery product of `x`: the one value `d` with `d * 2^32 = x`
/// modulo Q and `d * 2^32` within `2^31 Q` of `x` (which puts `d` below Q in magnitude).
pub open spec fn mont_step(prev: int, next: int, x: int) -> bool {
    let d = next - prev;
    &&& -q() < d < q()
    &&& x - 0x8000_0000 * q() < d * r32() <= x + 0x8000_0000 * q()
    &&& cong(d * r32(), x)
}

/// Hint bit of coefficient `n` of row `row`: whether `n` is listed among the row's indices.
pub open spec fn hint_bit(h: Seq<u8>, row: int, n: int) -> int {
    if exists|i: int| hint_end(h, row) <= i < hint_end(h, row + 1) && #[trigger] h[i] == n { 1 } else { 0 }
}

/// The three little-endian bytes at `start`.
pub open spec fn le24(s: Seq<u8>, start: int) -> int {
    s[start] + 256 * s[start + 1] + 65536 * s[start + 2]
}

/// `out` is FIPS 204 `SimpleBitPack(v, 43)`: 256 six-bit little-endian fields.
pub open spec fn w1_packed(out: Seq<u8>, v: Seq<int>) -> bool {
    &&& out.len() == 192
    &&& forall|g: int| 0 <= g < 64 ==> #[trigger] le24(out, 3 * g) == v[4 * g] + 64 * v[4 * g + 1] + 4096 * v[4 * g + 2] + 262_144 * v[4 * g + 3]
}

/// `out` is row `row` of `w1`: `UseHint` of the row's hints applied to `w`, packed.
pub open spec fn w1_row_from(out: Seq<u8>, h: Seq<u8>, row: int, w: Seq<int>) -> bool {
    &&& w.len() == 256
    &&& forall|n: int| 0 <= n < 256 ==> 0 <= #[trigger] w[n] < q()
    &&& w1_packed(out, Seq::new(256, |n: int| spec_use_hint(hint_bit(h, row, n), w[n])))
}

/// `mu = SHAKE256(tr || 0 || 0 || message)` (empty context string).
pub open spec fn spec_mu(tr: Seq<u8>, message: Seq<u8>) -> Seq<u8> {
    spec_shake256(tr + seq![0u8, 0u8] + message, 64)
}

/// The final check of a verification: `SHAKE256(mu || w1)` truncated to 32 bytes is `c~`.
pub open spec fn commitment_matches(tr: Seq<u8>, message: Seq<u8>, w1: Seq<u8>, ctilde: Seq<u8>) -> bool {
    spec_shake256(spec_mu(tr, message) + w1, 32) == ctilde
}

/// Copies `src` into `dst` at `at`.
fn copy_into(dst: &mut [u8], at: usize, src: &[u8])
    requires
        at + src@.len() <= old(dst)@.len(),
    ensures
        final(dst)@.subrange(at as int, at + src@.len()) == src@,
        same_outside(final(dst)@, old(dst)@, at as int, at + src@.len()),
{
    let dlen = dst.len();
    let mut k: usize = 0;
    while k < src.len()
        invariant
            dlen == dst@.len(),
            at + src@.len() <= dst@.len(),
            k <= src@.len(),
            same_outside(dst@, old(dst)@, at as int, at + src@.len()),
            forall|i: int| 0 <= i < k ==> dst@[at + i] == #[trigger] src@[i],
        decreases src@.len() - k,
    {
        dst[at + k] = src[k];
        k += 1;
    }
    assert(dst@.subrange(at as int, at + src@.len()) =~= src@);
}

/// Sets every byte of `dst` to zero.
fn fill_zero(dst: &mut [u8])
    ensures
        final(dst)@.len() == old(dst)@.len(),
        forall|k: int| 0 <= k < final(dst)@.len() ==> #[trigger] final(dst)@[k] == 0,
{
    let mut k: usize = 0;
    while k < dst.len()
        invariant
            k <= dst@.len(),
            dst@.len() == old(dst)@.len(),
            forall|i: int| 0 <= i < k ==> #[trigger] dst@[i] == 0,
        decreases dst@.len() - k,
    {
        dst[k] = 0;
        k += 1;
    }
}

/// Decodes row `row` of `t1` (ten bits per coefficient) from a public key.
pub fn decode_t1_row_into(out: &mut [i32], public_key: &[u8], row: usize) -> (res: Result<(), ()>)
    requires
        old(out)@.len() == 256,
        public_key@.len() == 1312,
        row < 4,
    ensures
        final(out)@.len() == 256,
        res is Ok,
        forall|i: int| 0 <= i < 256 ==> #[trigger] final(out)@[i] == unpack_coeff(public_key@.subrange(32 + 320 * row, 352 + 320 * row), i, 10, 0, 1023),
        forall|i: int| 0 <= i < 256 ==> 0 <= #[trigger] final(out)@[i] <= 1023,
{
    let start = 32 + row * 320;
    let bytes = &public_key[start..start + 320];
    proof {
        assert(spec_bit_length(1023) == 10) by {
            reveal_with_fuel(spec_bit_length, 11);
        }
        vstd::arithmetic::power2::lemma2_to64();
        assert forall|i: int| 0 <= i < 256 implies 0 <= #[trigger] unpack_coeff(bytes@, i, 10, 0, 1023) <= 1023 by {
            lemma_bits_val_bound(bytes@, i * 10, 10);
        }
        assert(spec_unpack_ok(bytes@, 10, 0, 1023));
    }
    simple_bit_unpack_into(out, bytes, 1023)
}

/// Unpacks 256 coefficients in `[0, b]` (FIPS 204 `SimpleBitUnpack`).
pub fn simple_bit_unpack_into(out: &mut [i32], input: &[u8], b: i32) -> (res: Result<(), ()>)
    requires
        old(out)@.len() == 256,
        1 <= b < 0x80_0000,
    ensures
        final(out)@.len() == 256,
        res is Ok <==> spec_unpack_ok(input@, spec_bit_length(b as nat), 0, b as int),
        res is Ok ==> forall|i: int| 0 <= i < 256 ==> #[trigger] final(out)@[i] == unpack_coeff(input@, i, spec_bit_length(b as nat), 0, b as int),
{
    bit_unpack_into(out, input, 0, b)
}

/// Largest centered magnitude among the coefficients (0 for an empty polynomial).
pub fn infinity_norm(poly: &[i32]) -> (r: i32)
    requires
        forall|k: int| 0 <= k < poly@.len() ==> #[trigger] poly@[k] <= i32::MAX - 0x40_0000,
    ensures
        forall|k: int| 0 <= k < poly@.len() ==> abs_int(spec_center_mod(#[trigger] poly@[k] as int)) <= r,
        (poly@.len() == 0 && r == 0) || exists|k: int| 0 <= k < poly@.len() && abs_int(spec_center_mod(#[trigger] poly@[k] as int)) == r,
{
    let mut best: i32 = 0;
    let mut i: usize = 0;
    while i < poly.len()
        invariant
            i <= poly@.len(),
            forall|k: int| 0 <= k < poly@.len() ==> #[trigger] poly@[k] <= i32::MAX - 0x40_0000,
            forall|k: int| 0 <= k < i ==> abs_int(spec_center_mod(#[trigger] poly@[k] as int)) <= best,
            (i == 0 && best == 0) || exists|k: int| 0 <= k < i && abs_int(spec_center_mod(#[trigger] poly@[k] as int)) == best,
        decreases poly@.len() - i,
    {
        let c = center_mod(poly[i]);
        proof {
            assert(-(q() - 1) / 2 <= spec_center_mod(poly@[i as int] as int) <= (q() - 1) / 2) by {
                vstd::arithmetic::div_mod::lemma_mod_bound(poly@[i as int] as int, q());
            }
        }
        let a: i32 = if c < 0 { -c } else { c };
        if i == 0 || a > best {
            best = a;
        }
        i += 1;
    }
    best
}

/// Packs 256 values below 64 as six-bit little-endian fields (FIPS 204 `SimpleBitPack` with
/// `b = 43`).
pub fn pack_w1_row(vals: &[i32], out: &mut [u8])
    requires
        vals@.len() == 256,
        old(out)@.len() == 192,
        forall|n: int| 0 <= n < 256 ==> 0 <= #[trigger] vals@[n] < 64,
    ensures
        w1_packed(final(out)@, vals@.map_values(|v: i32| v as int)),
{
    let mut g: usize = 0;
    while g < 64
        invariant
            vals@.len() == 256,
            out@.len() == 192,
            g <= 64,
            forall|n: int| 0 <= n < 256 ==> 0 <= #[trigger] vals@[n] < 64,
            forall|h: int| 0 <= h < g ==> #[trigger] le24(out@, 3 * h) == vals@[4 * h] + 64 * vals@[4 * h + 1] + 4096 * vals@[4 * h + 2] + 262_144 * vals@[4 * h + 3],
        decreases 64 - g,
    {
        let v0 = vals[4 * g] as u32;
        let v1 = vals[4 * g + 1] as u32;
        let v2 = vals[4 * g + 2] as u32;
        let v3 = vals[4 * g + 3] as u32;
        let b0: u8 = ((v0 | (v1 << 6u32)) & 0xff) as u8;
        let b1: u8 = (((v1 >> 2u32) | (v2 << 4u32)) & 0xff) as u8;
        let b2: u8 = (((v2 >> 4u32) | (v3 << 2u32)) & 0xff) as u8;
        proof {
            assert(b0 as int + 256 * (b1 as int) + 65536 * (b2 as int) == v0 + 64 * v1 + 4096 * v2 + 262_144 * v3)
                by (bit_vector)
                requires
                    v0 < 64, v1 < 64, v2 < 64, v3 < 64,
                    b0 == ((v0 | (v1 << 6u32)) & 0xff) as u8,
                    b1 == (((v1 >> 2u32) | (v2 << 4u32)) & 0xff) as u8,
                    b2 == (((v2 >> 4u32) | (v3 << 2u32)) & 0xff) as u8,
            ;
        }
        let ghost before = out@;
        out[3 * g] = b0;
        out[3 * g + 1] = b1;
        out[3 * g + 2] = b2;
        proof {
            assert forall|h: int| 0 <= h < g implies #[trigger] le24(out@, 3 * h) == le24(before, 3 * h) by {
                assert(out@[3 * h] == before[3 * h]);
                assert(out@[3 * h + 1] == before[3 * h + 1]);
                assert(out@[3 * h + 2] == before[3 * h + 2]);
            }
            assert(le24(out@, 3 * g) == b0 as int + 256 * (b1 as int) + 65536 * (b2 as int));
        }
        g += 1;
    }
}

/// Prepares a public key for split verification: copies the key, stores
/// `tr = SHAKE256(pk, 64)`, and stores each row of `t1 * 2^13` in the NTT domain, in
/// Montgomery form. `false`, with `prepared` untouched, on a wrong length.
pub fn prepare_mldsa44_public_key(public_key: &[u8], prepared: &mut [u8]) -> (ok: bool)
    ensures
        final(prepared)@.len() == old(prepared)@.len(),
        ok == (public_key@.len() == MLDSA44_PUBLIC_KEY_LEN && old(prepared)@.len() == MLDSA44_PREPARED_PUBLIC_KEY_LEN),
        !ok ==> final(prepared)@ == old(prepared)@,
        ok ==> prepared_key_layout(final(prepared)@, public_key@),
{
    if public_key.len() != MLDSA44_PUBLIC_KEY_LEN || prepared.len() != MLDSA44_PREPARED_PUBLIC_KEY_LEN {
        return false;
    }
    copy_into(prepared, 0, public_key);
    let tr = shake256(public_key, 64);
    copy_into(prepared, MLDSA44_PUBLIC_KEY_LEN, tr.as_slice());
    proof {
        assert(prepared@.subrange(0, 1312) == public_key@) by {
            assert forall|k: int| 0 <= k < 1312 implies prepared@.subrange(0, 1312)[k] == public_key@[k] by {}
        }
    }
    let mut poly = zero_poly();
    let mut row: usize = 0;
    while row < 4
        invariant
            public_key@.len() == 1312,
            prepared@.len() == 5472,
            poly@.len() == 256,
            row <= 4,
            prepared@.subrange(0, 1312) == public_key@,
            prepared@.subrange(1312, 1376) == spec_shake256(public_key@, 64),
            forall|r: int| 0 <= r < row ==> #[trigger] prepared_poly_within(prepared@, 1376 + 1024 * r, -q(), 2 * q() - 1),
            forall|r: int| 0 <= r < row ==> #[trigger] prepared_ntt_mont(prepared@, 1376 + 1024 * r, t1_scaled(public_key@, r)),
            forall|r: int| 0 <= r < row ==> #[trigger] prepared_ntt_mont_exact(prepared@, 1376 + 1024 * r, t1_scaled(public_key@, r)),
        decreases 4 - row,
    {
        let _ = decode_t1_row_into(poly.as_mut_slice(), public_key, row);
        let ghost raw = poly@;
        let mut n: usize = 0;
        while n < 256
            invariant
                poly@.len() == 256,
                raw.len() == 256,
                n <= 256,
                forall|i: int| n <= i < 256 ==> 0 <= #[trigger] poly@[i] <= 1023,
                forall|i: int| 0 <= i < n ==> 0 <= #[trigger] poly@[i] <= 1023 * 8192,
                forall|i: int| n <= i < 256 ==> #[trigger] poly@[i] == raw[i],
                forall|i: int| 0 <= i < n ==> #[trigger] poly@[i] == raw[i] * 8192,
            decreases 256 - n,
        {
            let v = poly[n];
            poly.set(n, v * 8192);
            n += 1;
        }
        let ghost scaled = poly@;
        proof {
            assert(poly_ints(scaled) =~= t1_scaled(public_key@, row as int));
        }
        ntt(poly.as_mut_slice());
        let ghost transformed = poly@;
        to_mont(poly.as_mut_slice());
        proof {
            lemma_ntt_then_mont(scaled, transformed, poly@, t1_scaled(public_key@, row as int));
        }
        let off = prepared_t1_offset(row);
        let ghost before = prepared@;
        write_prepared_poly(prepared, off, poly.as_slice());
        proof {
            assert(prepared@.subrange(0, 1312) =~= before.subrange(0, 1312));
            assert(prepared@.subrange(1312, 1376) =~= before.subrange(1312, 1376));
            assert forall|r: int, m: int| 0 <= r < row && 0 <= m < 256 implies #[trigger] prepared_coeff(prepared@, 1376 + 1024 * r, m) == prepared_coeff(before, 1376 + 1024 * r, m) by {
                let b = 1376 + 1024 * r + 4 * m;
                assert(prepared@[b] == before[b]);
                assert(prepared@[b + 1] == before[b + 1]);
                assert(prepared@[b + 2] == before[b + 2]);
                assert(prepared@[b + 3] == before[b + 3]);
            }
            assert forall|r: int| 0 <= r < row + 1 implies #[trigger] prepared_poly_within(prepared@, 1376 + 1024 * r, -q(), 2 * q() - 1) by {
                if r < row {
                    assert(prepared_poly_within(before, 1376 + 1024 * r, -q(), 2 * q() - 1));
                }
            }
            assert forall|r: int| 0 <= r < row + 1 implies #[trigger] prepared_ntt_mont(prepared@, 1376 + 1024 * r, t1_scaled(public_key@, r)) by {
                if r < row {
                    assert(prepared_ntt_mont(before, 1376 + 1024 * r, t1_scaled(public_key@, r)));
                } else {
                    assert(prepared_ntt_mont(prepared@, 1376 + 1024 * row, t1_scaled(public_key@, row as int)));
                }
            }
            assert(prepared_ntt_mont_exact(prepared@, 1376 + 1024 * row, t1_scaled(public_key@, row as int))) by {
                assert forall|n: int| 0 <= n < 256 implies #[trigger] prepared_coeff(prepared@, 1376 + 1024 * row, n)
                    == mont_form(spec_ntt_exact(t1_scaled(public_key@, row as int))[n]) by {
                    assert(poly_ints(transformed)[n] == spec_ntt_exact(poly_ints(scaled))[n]);
                }
            }
            assert forall|r: int| 0 <= r < row + 1 implies #[trigger] prepared_ntt_mont_exact(prepared@, 1376 + 1024 * r, t1_scaled(public_key@, r)) by {
                if r < row {
                    assert(prepared_ntt_mont_exact(before, 1376 + 1024 * r, t1_scaled(public_key@, r)));
                } else {
                    assert(prepared_ntt_mont_exact(prepared@, 1376 + 1024 * row, t1_scaled(public_key@, row as int)));
                }
            }
        }
        row += 1;
    }
    true
}

/// Prepares the challenge: checks the hint encoding, samples `c` from `c~`, and stores its
/// NTT at the start of a zeroed prepared signature. `false`, with `prepared` untouched, on a
/// wrong length, a malformed hint encoding, or a challenge stream that runs short.
pub fn prepare_mldsa44_challenge(signature: &[u8], prepared: &mut [u8]) -> (ok: bool)
    ensures
        final(prepared)@.len() == old(prepared)@.len(),
        ok == (signature@.len() == MLDSA44_SIGNATURE_LEN && old(prepared)@.len() == MLDSA44_PREPARED_SIGNATURE_LEN
            && spec_hints_valid(sig_hints(signature@)) && challenge_of(signature@) is Some),
        !ok ==> final(prepared)@ == old(prepared)@,
        ok ==> prepared_poly_within(final(prepared)@, 0, -ntt_out_bound(), ntt_out_bound()),
        ok ==> prepared_ntt(final(prepared)@, 0, challenge_poly(signature@)),
        ok ==> prepared_ntt_exact(final(prepared)@, 0, challenge_poly(signature@)),
        ok ==> forall|k: int| 1024 <= k < 5120 ==> #[trigger] final(prepared)@[k] == 0,
{
    if signature.len() != MLDSA44_SIGNATURE_LEN || prepared.len() != MLDSA44_PREPARED_SIGNATURE_LEN {
        return false;
    }
    let hints = &signature[2336..2420];
    if parse_hint_offsets(hints).is_err() {
        return false;
    }
    let c_tilde = &signature[0..32];
    let sampled = sample_in_ball(c_tilde);
    match sampled {
        None => false,
        Some(c) => {
            let mut c = c;
            fill_zero(prepared);
            proof {
                assert(c_tilde@ == sig_ctilde(signature@));
                assert(poly_ints(c@) =~= challenge_poly(signature@));
            }
            let ghost sampled_c = c@;
            ntt(c.as_mut_slice());
            let ghost zeroed = prepared@;
            write_prepared_poly(prepared, prepared_c_offset(), c.as_slice());
            proof {
                assert forall|n: int| 0 <= n < 256 implies #[trigger] cong(prepared_coeff(prepared@, 0, n), spec_ntt(challenge_poly(signature@))[n]) by {
                    assert(cong(poly_ints(c@)[n], spec_ntt(poly_ints(sampled_c))[n]));
                }
                assert forall|n: int| 0 <= n < 256 implies #[trigger] prepared_coeff(prepared@, 0, n) == spec_ntt_exact(challenge_poly(signature@))[n] by {
                    assert(poly_ints(c@)[n] == spec_ntt_exact(poly_ints(sampled_c))[n]);
                }
                assert forall|k: int| 1024 <= k < 5120 implies #[trigger] prepared@[k] == 0 by {
                    assert(prepared@[k] == zeroed[k]);
                }
            }
            true
        },
    }
}

/// Prepares column `col` of `z`: decodes it, checks its norm, and stores its NTT in
/// Montgomery form. `false`, with `prepared` untouched, on a wrong length or column, a
/// malformed encoding, or a coefficient of norm at least `GAMMA1 - BETA`.
pub fn prepare_mldsa44_z_column(signature: &[u8], col: usize, prepared: &mut [u8]) -> (ok: bool)
    ensures
        final(prepared)@.len() == old(prepared)@.len(),
        ok == (signature@.len() == MLDSA44_SIGNATURE_LEN && old(prepared)@.len() == MLDSA44_PREPARED_SIGNATURE_LEN
            && col < MLDSA44_COLUMNS && z_column_valid(signature@, col as int)),
        !ok ==> final(prepared)@ == old(prepared)@,
        ok ==> same_outside(final(prepared)@, old(prepared)@, 1024 + 1024 * col, 2048 + 1024 * col),
        ok ==> prepared_poly_within(final(prepared)@, 1024 + 1024 * col, -q(), 2 * q() - 1),
        ok ==> prepared_ntt_mont(final(prepared)@, 1024 + 1024 * col, z_poly(signature@, col as int)),
        ok ==> prepared_ntt_mont_exact(final(prepared)@, 1024 + 1024 * col, z_poly(signature@, col as int)),
{
    if signature.len() != MLDSA44_SIGNATURE_LEN || prepared.len() != MLDSA44_PREPARED_SIGNATURE_LEN || col >= MLDSA44_COLUMNS {
        return false;
    }
    let mut z = zero_poly();
    let start = 32 + col * 576;
    let bytes = &signature[start..start + 576];
    proof {
        assert(spec_bit_length(262_143) == 18) by {
            reveal_with_fuel(spec_bit_length, 19);
        }
        assert(bytes@ == sig_z_bytes(signature@, col as int));
    }
    if bit_unpack_into(z.as_mut_slice(), bytes, 131_071, 131_072).is_err() {
        return false;
    }
    proof {
        assert forall|i: int| 0 <= i < 256 implies -131_071 <= #[trigger] z@[i] <= 131_072 by {
            vstd::arithmetic::power2::lemma2_to64();
        }
    }
    let norm = infinity_norm(z.as_slice());
    if norm >= Z_NORM_BOUND {
        proof {
            let k = choose|k: int| 0 <= k < 256 && abs_int(spec_center_mod(#[trigger] z@[k] as int)) == norm;
            assert(!(abs_int(spec_center_mod(unpack_coeff(bytes@, k, 18, 131_071, 131_072))) < Z_NORM_BOUND));
        }
        return false;
    }
    proof {
        assert forall|i: int| 0 <= i < 256 implies #[trigger] abs_int(spec_center_mod(unpack_coeff(bytes@, i, 18, 131_071, 131_072))) < Z_NORM_BOUND by {
            assert(z@[i] == unpack_coeff(bytes@, i, 18, 131_071, 131_072));
        }
    }
    let ghost decoded = z@;
    proof {
        assert(poly_ints(decoded) =~= z_poly(signature@, col as int));
    }
    ntt(z.as_mut_slice());
    let ghost transformed = z@;
    to_mont(z.as_mut_slice());
    proof {
        lemma_ntt_then_mont(decoded, transformed, z@, z_poly(signature@, col as int));
    }
    write_prepared_poly(prepared, prepared_z_offset(col), z.as_slice());
    proof {
        assert forall|n: int| 0 <= n < 256 implies #[trigger] prepared_coeff(prepared@, 1024 + 1024 * col, n)
            == mont_form(spec_ntt_exact(z_poly(signature@, col as int))[n]) by {
            assert(poly_ints(transformed)[n] == spec_ntt_exact(poly_ints(decoded))[n]);
        }
    }
    true
}

/// Adds `A[row][col] * z[col]` (Montgomery products) into the accumulated row `az_row`.
/// `false`, with `az_row` untouched, on a wrong length, row or column, or when the matrix
/// entry's sampling stream runs short.
pub fn accumulate_mldsa44_column(
    prepared_public_key: &[u8],
    prepared_signature: &[u8],
    row: usize,
    col: usize,
    az_row: &mut [u8],
) -> (ok: bool)
    requires
        old(az_row)@.len() == MLDSA44_AZ_ROW_LEN ==> prepared_poly_within(old(az_row)@, 0, i32::MIN + q(), i32::MAX - q()),
    ensures
        final(az_row)@.len() == old(az_row)@.len(),
        ok == (prepared_public_key@.len() == MLDSA44_PREPARED_PUBLIC_KEY_LEN
            && prepared_signature@.len() == MLDSA44_PREPARED_SIGNATURE_LEN && row < MLDSA44_ROWS
            && col < MLDSA44_COLUMNS && old(az_row)@.len() == MLDSA44_AZ_ROW_LEN
            && matrix_entry(prepared_public_key@.subrange(0, 32), row as int, col as int) is Some),
        !ok ==> final(az_row)@ == old(az_row)@,
        ok ==> forall|n: int| 0 <= n < 256 ==> #[trigger] mont_step(
            prepared_coeff(old(az_row)@, 0, n),
            prepared_coeff(final(az_row)@, 0, n),
            matrix_entry(prepared_public_key@.subrange(0, 32), row as int, col as int)->0[n]
                * prepared_coeff(prepared_signature@, 1024 + 1024 * col, n),
        ),
{
    if prepared_public_key.len() != MLDSA44_PREPARED_PUBLIC_KEY_LEN || prepared_signature.len() != MLDSA44_PREPARED_SIGNATURE_LEN
        || row >= MLDSA44_ROWS || col >= MLDSA44_COLUMNS || az_row.len() != MLDSA44_AZ_ROW_LEN {
        return false;
    }
    let rho = &prepared_public_key[0..32];
    let mut a = zero_poly();
    if !rej_ntt_poly_into(a.as_mut_slice(), rho, col as u8, row as u8) {
        return false;
    }
    let ghost entry = matrix_entry(rho@, row as int, col as int)->0;
    let z_offset = prepared_z_offset(col);
    let mut n: usize = 0;
    while n < 256
        invariant
            a@.len() == 256,
            prepared_signature@.len() == 5120,
            z_offset == 1024 + 1024 * col,
            col < 4,
            az_row@.len() == 1024,
            n <= 256,
            forall|i: int| 0 <= i < 256 ==> #[trigger] a@[i] as int == entry[i],
            forall|i: int| 0 <= i < 256 ==> 0 <= #[trigger] a@[i] < q(),
            prepared_poly_within(old(az_row)@, 0, i32::MIN + q(), i32::MAX - q()),
            forall|k: int| 4 * n <= k < 1024 ==> #[trigger] az_row@[k] == old(az_row)@[k],
            forall|m: int| 0 <= m < n ==> #[trigger] mont_step(prepared_coeff(old(az_row)@, 0, m), prepared_coeff(az_row@, 0, m),
                entry[m] * prepared_coeff(prepared_signature@, 1024 + 1024 * col, m)),
        decreases 256 - n,
    {
        let z = read_prepared_coeff(prepared_signature, z_offset, n);
        let previous = read_prepared_coeff(az_row, 0, n);
        proof {
            assert(previous == prepared_coeff(old(az_row)@, 0, n as int));
            assert(prepared_coeff(old(az_row)@, 0, n as int) >= i32::MIN + q());
            let av = a@[n as int] as int;
            assert(-0x8000_0000 * q() <= av * (z as int) < 0x8000_0000 * q()) by (nonlinear_arith)
                requires 0 <= av < q(), i32::MIN <= z <= i32::MAX, q() == 8_380_417;
        }
        let prod: i64 = (a[n] as i64) * (z as i64);
        let r = mont_reduce(prod);
        let next = previous + r;
        let ghost before = az_row@;
        write_prepared_coeff(az_row, 0, n, next);
        proof {
            assert forall|m: int| 0 <= m < n implies #[trigger] prepared_coeff(az_row@, 0, m) == prepared_coeff(before, 0, m) by {
                assert(az_row@[4 * m] == before[4 * m]);
                assert(az_row@[4 * m + 1] == before[4 * m + 1]);
                assert(az_row@[4 * m + 2] == before[4 * m + 2]);
                assert(az_row@[4 * m + 3] == before[4 * m + 3]);
            }
        }
        n += 1;
    }
    true
}

/// Within a row of a valid hint encoding, the listed indices increase by at least one per step.
proof fn lemma_hint_row_increasing(h: Seq<u8>, row: int, i: int, j: int)
    requires
        spec_hints_valid(h),
        0 <= row < 4,
        hint_end(h, row) <= i <= j < hint_end(h, row + 1),
    ensures
        h[i] + (j - i) <= h[j],
    decreases j - i,
{
    if i < j {
        lemma_hint_row_increasing(h, row, i, j - 1);
        assert(hint_row_sorted(h, row));
        assert(h[j - 1] < h[j]);
    }
}

/// `az - c * t1 / 2^32`, coefficientwise: the row's `A z - c t1 2^13` in the NTT domain, from
/// the stored accumulator, challenge and key row.
pub open spec fn row_difference(ppk: Seq<u8>, psig: Seq<u8>, az: Seq<u8>, row: int) -> Seq<int> {
    Seq::new(256, |n: int| prepared_coeff(az, 0, n) - prepared_coeff(psig, 0, n) * prepared_coeff(ppk, 1376 + 1024 * row, n) * r32_inv())
}

/// The reduced `NTT^-1` of the row difference: the polynomial the row's hints apply to.
pub open spec fn finalized_row(ppk: Seq<u8>, psig: Seq<u8>, az: Seq<u8>, row: int) -> Seq<int> {
    Seq::new(256, |n: int| spec_intt(row_difference(ppk, psig, az, row))[n] % q())
}

/// Finishes row `row` of `w1`: subtracts `c * t1[row]` from the accumulated `A z`, leaves
/// the NTT domain, applies the row's hints and packs the result into `out_w1_row`. `false`,
/// with `out_w1_row` untouched, on a wrong length or row, or a malformed hint encoding.
pub fn finalize_mldsa44_row(
    prepared_public_key: &[u8],
    signature: &[u8],
    prepared_signature: &[u8],
    row: usize,
    az_row: &[u8],
    out_w1_row: &mut [u8],
) -> (ok: bool)
    requires
        prepared_public_key@.len() == MLDSA44_PREPARED_PUBLIC_KEY_LEN && row < MLDSA44_ROWS
            ==> prepared_poly_within(prepared_public_key@, 1376 + 1024 * row, -q(), 2 * q() - 1),
        prepared_signature@.len() == MLDSA44_PREPARED_SIGNATURE_LEN
            ==> prepared_poly_within(prepared_signature@, 0, -ntt_out_bound(), ntt_out_bound()),
        az_row@.len() == MLDSA44_AZ_ROW_LEN ==> prepared_poly_within(az_row@, 0, -az_bound(), az_bound()),
    ensures
        final(out_w1_row)@.len() == old(out_w1_row)@.len(),
        ok == (prepared_public_key@.len() == MLDSA44_PREPARED_PUBLIC_KEY_LEN
            && signature@.len() == MLDSA44_SIGNATURE_LEN
            && prepared_signature@.len() == MLDSA44_PREPARED_SIGNATURE_LEN && row < MLDSA44_ROWS
            && az_row@.len() == MLDSA44_AZ_ROW_LEN && old(out_w1_row)@.len() == MLDSA44_W1_ROW_LEN
            && spec_hints_valid(sig_hints(signature@))),
        !ok ==> final(out_w1_row)@ == old(out_w1_row)@,
        ok ==> w1_row_from(final(out_w1_row)@, sig_hints(signature@), row as int,
            finalized_row(prepared_public_key@, prepared_signature@, az_row@, row as int)),
{
    if prepared_public_key.len() != MLDSA44_PREPARED_PUBLIC_KEY_LEN || signature.len() != MLDSA44_SIGNATURE_LEN
        || prepared_signature.len() != MLDSA44_PREPARED_SIGNATURE_LEN || row >= MLDSA44_ROWS
        || az_row.len() != MLDSA44_AZ_ROW_LEN || out_w1_row.len() != MLDSA44_W1_ROW_LEN {
        return false;
    }
    let hints = &signature[2336..2420];
    let offsets = match parse_hint_offsets(hints) {
        Ok(o) => o,
        Err(_) => { return false; },
    };
    let c_offset = prepared_c_offset();
    let t1_offset = prepared_t1_offset(row);
    let mut az = zero_poly();
    let mut n: usize = 0;
    while n < 256
        invariant
            az@.len() == 256,
            n <= 256,
            row < 4,
            t1_offset == 1376 + 1024 * row,
            c_offset == 0,
            prepared_public_key@.len() == 5472,
            prepared_signature@.len() == 5120,
            az_row@.len() == 1024,
            prepared_poly_within(prepared_public_key@, 1376 + 1024 * row, -q(), 2 * q() - 1),
            prepared_poly_within(prepared_signature@, 0, -ntt_out_bound(), ntt_out_bound()),
            prepared_poly_within(az_row@, 0, -az_bound(), az_bound()),
            forall|m: int| 0 <= m < 256 ==> -q() <= #[trigger] az@[m] <= q(),
            forall|m: int| 0 <= m < n ==> #[trigger] cong(az@[m] as int, row_difference(prepared_public_key@, prepared_signature@, az_row@, row as int)[m]),
        decreases 256 - n,
    {
        let previous = read_prepared_coeff(az_row, 0, n);
        let c = read_prepared_coeff(prepared_signature, c_offset, n);
        let t1 = read_prepared_coeff(prepared_public_key, t1_offset, n);
        proof {
            assert(-ntt_out_bound() <= prepared_coeff(prepared_signature@, 0, n as int) <= ntt_out_bound());
            assert(-q() <= prepared_coeff(prepared_public_key@, 1376 + 1024 * row, n as int) <= 2 * q() - 1);
            assert(-0x8000_0000 * q() <= (c as int) * (t1 as int) < 0x8000_0000 * q()) by (nonlinear_arith)
                requires
                    -44_000_000 <= c <= 44_000_000,
                    -q() <= t1 <= 2 * q(),
                    q() == 8_380_417;
        }
        let r = mont_reduce((c as i64) * (t1 as i64));
        let v = previous - r;
        let reduced = partial_reduce32(v);
        proof {
            let x = (c as int) * (t1 as int);
            lemma_unmont(r as int, x);
            lemma_cong_add(previous as int, previous as int, r as int, x * r32_inv());
            lemma_cong_trans(reduced as int, v as int, previous - x * r32_inv());
            assert(row_difference(prepared_public_key@, prepared_signature@, az_row@, row as int)[n as int] == previous - x * r32_inv());
        }
        az.set(n, reduced);
        n += 1;
    }
    let ghost difference = az@;
    proof {
        lemma_intt_cong(poly_ints(difference), row_difference(prepared_public_key@, prepared_signature@, az_row@, row as int));
    }
    inv_ntt(az.as_mut_slice());
    proof {
        assert forall|m: int| 0 <= m < 256 implies #[trigger] az@[m] == finalized_row(prepared_public_key@, prepared_signature@, az_row@, row as int)[m] by {
            lemma_cong_same_mod(spec_intt(poly_ints(difference))[m], spec_intt(row_difference(prepared_public_key@, prepared_signature@, az_row@, row as int))[m]);
        }
    }
    let mut w: Vec<i32> = zero_poly();
    let ghost h = hints@;
    let ghost start = hint_end(h, row as int);
    let ghost end = hint_end(h, row as int + 1);
    let mut hint_index: usize = offsets[row];
    let hint_end_index: usize = offsets[row + 1];
    proof {
        assert(hint_end(h, row as int) <= hint_end(h, row as int + 1) <= 80);
    }
    let mut n: usize = 0;
    while n < 256
        invariant
            h == hints@,
            spec_hints_valid(h),
            row < 4,
            az@.len() == 256,
            w@.len() == 256,
            forall|m: int| 0 <= m < 256 ==> 0 <= #[trigger] az@[m] < q(),
            start == hint_end(h, row as int),
            end == hint_end(h, row as int + 1),
            hint_end_index == end,
            start <= hint_index <= end <= 80,
            n <= 256,
            forall|i: int| start <= i < hint_index ==> #[trigger] h[i] < n,
            hint_index < end ==> h[hint_index as int] >= n,
            forall|m: int| 0 <= m < n ==> #[trigger] w@[m] == spec_use_hint(hint_bit(h, row as int, m), az@[m] as int),
            forall|m: int| 0 <= m < n ==> 0 <= #[trigger] w@[m] <= 43,
        decreases 256 - n,
    {
        let hint: i32 = if hint_index < hint_end_index && (hints[hint_index] as usize) == n {
            proof {
                assert(start <= hint_index < end && h[hint_index as int] == n);
                assert(hint_bit(h, row as int, n as int) == 1);
            }
            hint_index += 1;
            proof {
                if hint_index < end {
                    lemma_hint_row_increasing(h, row as int, hint_index - 1, hint_index as int);
                }
            }
            1
        } else {
            proof {
                assert forall|i: int| start <= i < end implies #[trigger] h[i] != n by {
                    if i >= hint_index {
                        lemma_hint_row_increasing(h, row as int, hint_index as int, i);
                    }
                }
                assert(hint_bit(h, row as int, n as int) == 0);
            }
            0
        };
        let x = az[n];
        let u = use_hint(hint, x);
        w.set(n, u);
        n += 1;
    }
    let ghost wv = az@.map_values(|x: i32| x as int);
    pack_w1_row(w.as_slice(), out_w1_row);
    proof {
        assert(w@.map_values(|v: i32| v as int) =~= Seq::new(256, |m: int| spec_use_hint(hint_bit(h, row as int, m), wv[m])));
        assert(w1_row_from(out_w1_row@, sig_hints(signature@), row as int, wv));
        assert(wv =~= finalized_row(prepared_public_key@, prepared_signature@, az_row@, row as int));
    }
    true
}

/// The final check: `true` exactly when `SHAKE256(mu || w1)` (32 bytes) equals the
/// signature's `c~`, with `mu` computed from the `tr` stored in the prepared key.
pub fn finalize_mldsa44_proof(
    prepared_public_key: &[u8],
    signature: &[u8],
    message: &[u8],
    w1: &[u8],
) -> (ok: bool)
    ensures
        ok == (prepared_public_key@.len() == MLDSA44_PREPARED_PUBLIC_KEY_LEN
            && signature@.len() == MLDSA44_SIGNATURE_LEN && w1@.len() == MLDSA44_W1_LEN
            && commitment_matches(prepared_public_key@.subrange(1312, 1376), message@, w1@, sig_ctilde(signature@))),
{
    if prepared_public_key.len() != MLDSA44_PREPARED_PUBLIC_KEY_LEN || signature.len() != MLDSA44_SIGNATURE_LEN || w1.len() != MLDSA44_W1_LEN {
        return false;
    }
    let tr = &prepared_public_key[1312..1376];
    let mut mu_input: Vec<u8> = Vec::new();
    append_bytes(&mut mu_input, tr);
    mu_input.push(0);
    mu_input.push(0);
    append_bytes(&mut mu_input, message);
    proof {
        assert(mu_input@ =~= tr@ + seq![0u8, 0u8] + message@);
    }
    let mu = shake256(mu_input.as_slice(), 64);
    let mut commit_input: Vec<u8> = Vec::new();
    append_bytes(&mut commit_input, mu.as_slice());
    append_bytes(&mut commit_input, w1);
    let expected = shake256(commit_input.as_slice(), 32);
    let c_tilde = &signature[0..32];
    proof {
        assert(commit_input@ == spec_mu(prepared_public_key@.subrange(1312, 1376), message@) + w1@);
    }
    let mut k: usize = 0;
    while k < 32
        invariant
            expected@ == spec_shake256(spec_mu(prepared_public_key@.subrange(1312, 1376), message@) + w1@, 32),
            c_tilde@ == sig_ctilde(signature@),
            expected@.len() == 32,
            c_tilde@.len() == 32,
            k <= 32,
            forall|i: int| 0 <= i < k ==> #[trigger] expected@[i] == c_tilde@[i],
        decreases 32 - k,
    {
        if expected[k] != c_tilde[k] {
            return false;
        }
        k += 1;
    }
    proof {
        assert(expected@ =~= c_tilde@);
    }
    true
}

/// Appends the bytes of `src` to `dst`.
pub fn append_bytes(dst: &mut Vec<u8>, src: &[u8])
    ensures
        final(dst)@ == old(dst)@ + src@,
{
    let mut k: usize = 0;
    while k < src.len()
        invariant
            k <= src@.len(),
            dst@ == old(dst)@ + src@.take(k as int),
        decreases src@.len() - k,
    {
        dst.push(src[k]);
        k += 1;
        assert(dst@ =~= old(dst)@ + src@.take(k as int));
    }
    assert(src@.take(src@.len() as int) =~= src@);
}

/// A buffer of `n` zero bytes.
fn zero_bytes(n: usize) -> (v: Vec<u8>)
    ensures
        v@.len() == n,
        forall|k: int| 0 <= k < n ==> #[trigger] v@[k] == 0,
{
    let mut v: Vec<u8> = Vec::new();
    while v.len() < n
        invariant
            v@.len() <= n,
            forall|k: int| 0 <= k < v@.len() ==> #[trigger] v@[k] == 0,
        decreases n - v@.len(),
    {
        v.push(0);
    }
    v
}

/// A bound on a stored polynomial survives writes that miss its bytes.
proof fn lemma_within_preserved(a: Seq<u8>, b: Seq<u8>, lo: int, hi: int, offset: int, l: int, h: int)
    requires
        same_outside(a, b, lo, hi),
        offset + 1024 <= lo || hi <= offset,
        0 <= offset,
        offset + 1024 <= b.len(),
        prepared_poly_within(b, offset, l, h),
    ensures
        prepared_poly_within(a, offset, l, h),
{
    assert forall|n: int| 0 <= n < 256 implies l <= #[trigger] prepared_coeff(a, offset, n) <= h by {
        let k = offset + 4 * n;
        assert(a[k] == b[k]);
        assert(a[k + 1] == b[k + 1]);
        assert(a[k + 2] == b[k + 2]);
        assert(a[k + 3] == b[k + 3]);
        assert(prepared_coeff(b, offset, n) == prepared_coeff(a, offset, n));
    }
}

/// A stored polynomial survives writes that miss its bytes.
proof fn lemma_coeffs_kept(a: Seq<u8>, b: Seq<u8>, lo: int, hi: int, offset: int)
    requires
        same_outside(a, b, lo, hi),
        offset + 1024 <= lo || hi <= offset,
        0 <= offset,
        offset + 1024 <= b.len(),
    ensures
        forall|n: int| 0 <= n < 256 ==> #[trigger] prepared_coeff(a, offset, n) == prepared_coeff(b, offset, n),
{
    assert forall|n: int| 0 <= n < 256 implies #[trigger] prepared_coeff(a, offset, n) == prepared_coeff(b, offset, n) by {
        let k = offset + 4 * n;
        assert(a[k] == b[k] && a[k + 1] == b[k + 1] && a[k + 2] == b[k + 2] && a[k + 3] == b[k + 3]);
    }
}

/// Entry `(row, col)` of `A` times `NTT(z[col])`, at coefficient `n`.
pub open spec fn az_term(pk: Seq<u8>, sig: Seq<u8>, row: int, col: int, n: int) -> int {
    matrix_entry(pk.subrange(0, 32), row, col)->0[n] * spec_ntt(z_poly(sig, col))[n]
}

/// The sum of the first `cols` terms of row `row` of `A NTT(z)`, at coefficient `n`.
pub open spec fn az_partial(pk: Seq<u8>, sig: Seq<u8>, row: int, cols: nat, n: int) -> int
    decreases cols,
{
    if cols == 0 { 0 } else { az_partial(pk, sig, row, (cols - 1) as nat, n) + az_term(pk, sig, row, cols - 1, n) }
}

/// Row `row` of `A NTT(z) - NTT(c) NTT(t1 2^13)`: FIPS 204 `ML-DSA.Verify` (Algorithm 8)
/// before its inverse transform.
pub open spec fn w_approx_ntt(pk: Seq<u8>, sig: Seq<u8>, row: int) -> Seq<int> {
    Seq::new(256, |n: int| az_partial(pk, sig, row, 4, n)
        - spec_ntt(challenge_poly(sig))[n] * spec_ntt(t1_scaled(pk, row))[n])
}

/// Row `row` of `w'_approx = NTT^-1(A NTT(z) - NTT(c) NTT(t1 2^13))`, reduced into `[0, Q)`.
pub open spec fn w_approx(pk: Seq<u8>, sig: Seq<u8>, row: int) -> Seq<int> {
    Seq::new(256, |n: int| spec_intt(w_approx_ntt(pk, sig, row))[n] % q())
}

/// `w1` is `w1Encode(UseHint(h, w'_approx))`, row by row.
pub open spec fn w1_of(w1: Seq<u8>, pk: Seq<u8>, sig: Seq<u8>) -> bool {
    &&& w1.len() == 768
    &&& forall|row: int| 0 <= row < 4 ==> #[trigger] w1_row_from(w1.subrange(192 * row, 192 * row + 192), sig_hints(sig), row, w_approx(pk, sig, row))
}

/// FIPS 204 `ML-DSA.Verify` for ML-DSA-44 with an empty context: the encodings are
/// well formed, `z` is short, the challenge and every matrix entry can be sampled from their
/// streams, and `SHAKE256(mu || w1)` is `c~` for the `w1` recomputed from the signature.
/// Sampling reads at most `BALL_STREAM_LEN` and `REJ_STREAM_LEN` stream bytes; a stream that
/// needs more (which the standard would keep reading) counts as rejected.
pub open spec fn mldsa44_accepts(pk: Seq<u8>, sig: Seq<u8>, message: Seq<u8>) -> bool {
    &&& pk.len() == 1312
    &&& sig.len() == 2420
    &&& spec_hints_valid(sig_hints(sig))
    &&& challenge_of(sig) is Some
    &&& forall|col: int| 0 <= col < 4 ==> #[trigger] z_column_valid(sig, col)
    &&& forall|row: int, col: int| 0 <= row < 4 && 0 <= col < 4 ==> #[trigger] matrix_entry(pk.subrange(0, 32), row, col) is Some
    &&& exists|w1: Seq<u8>| #[trigger] w1_of(w1, pk, sig) && commitment_matches(spec_shake256(pk, 64), message, w1, sig_ctilde(sig))
}

/// Packing is injective: two byte strings that pack the same values are equal.
proof fn lemma_w1_packed_unique(x: Seq<u8>, y: Seq<u8>, v: Seq<int>)
    requires
        w1_packed(x, v),
        w1_packed(y, v),
    ensures
        x == y,
{
    assert forall|k: int| 0 <= k < 192 implies x[k] == y[k] by {
        let g = k / 3;
        assert(le24(x, 3 * g) == le24(y, 3 * g));
        let (x0, x1, x2) = (x[3 * g], x[3 * g + 1], x[3 * g + 2]);
        let (y0, y1, y2) = (y[3 * g], y[3 * g + 1], y[3 * g + 2]);
        assert(x0 + 256 * x1 + 65536 * x2 == y0 + 256 * y1 + 65536 * y2 ==> x0 == y0 && x1 == y1 && x2 == y2) by (bit_vector);
    }
    assert(x =~= y);
}

/// Only one byte string is the `w1` of a key and signature.
proof fn lemma_w1_of_unique(a: Seq<u8>, b: Seq<u8>, pk: Seq<u8>, sig: Seq<u8>)
    requires
        w1_of(a, pk, sig),
        w1_of(b, pk, sig),
    ensures
        a == b,
{
    assert forall|k: int| 0 <= k < 768 implies a[k] == b[k] by {
        let row = k / 192;
        let h = sig_hints(sig);
        let w = w_approx(pk, sig, row);
        assert(w1_row_from(a.subrange(192 * row, 192 * row + 192), h, row, w));
        assert(w1_row_from(b.subrange(192 * row, 192 * row + 192), h, row, w));
        lemma_w1_packed_unique(a.subrange(192 * row, 192 * row + 192), b.subrange(192 * row, 192 * row + 192),
            Seq::new(256, |n: int| spec_use_hint(hint_bit(h, row, n), w[n])));
        assert(a.subrange(192 * row, 192 * row + 192)[k - 192 * row] == b.subrange(192 * row, 192 * row + 192)[k - 192 * row]);
    }
    assert(a =~= b);
}

/// A Montgomery product with a stored `x * 2^32` contributes `a * x` modulo Q.
pub proof fn lemma_mont_product(d: int, a: int, stored: int, x: int)
    requires
        cong(d * r32(), a * stored),
        cong(stored, x * r32()),
    ensures
        cong(d, a * x),
{
    lemma_cong_mul(stored, x * r32(), a);
    assert(a * (x * r32()) == (a * x) * r32()) by (nonlinear_arith);
    lemma_cong_trans(d * r32(), a * stored, (a * x) * r32());
    lemma_cancel_r32(d, a * x);
}

/// `c * t / 2^32` for a stored `c = ch` and a stored `t = th * 2^32` is `ch * th` modulo Q.
proof fn lemma_unmont_product(c: int, ch: int, t: int, th: int)
    requires
        cong(c, ch),
        cong(t, th * r32()),
    ensures
        cong(c * t * r32_inv(), ch * th),
{
    lemma_cong_mul(c, ch, t);
    lemma_cong_mul(t, th * r32(), ch);
    lemma_cong_trans(c * t, ch * t, ch * (th * r32()));
    assert(ch * (th * r32()) == (ch * th) * r32()) by (nonlinear_arith);
    lemma_cong_sym(c * t, (ch * th) * r32());
    lemma_unmont(ch * th, c * t);
    lemma_cong_sym(ch * th, c * t * r32_inv());
}

/// Finishing a row from a stored key row, challenge and accumulator that agree modulo Q with
/// `NTT(t1 2^13) 2^32`, `NTT(c)` and `A NTT(z)` yields that row of `w'_approx`.
pub proof fn lemma_finalized_row_matches(ppk: Seq<u8>, psig: Seq<u8>, az: Seq<u8>, pk: Seq<u8>, sig: Seq<u8>, row: int)
    requires
        0 <= row < 4,
        prepared_ntt_mont(ppk, 1376 + 1024 * row, t1_scaled(pk, row)),
        prepared_ntt(psig, 0, challenge_poly(sig)),
        forall|n: int| 0 <= n < 256 ==> #[trigger] cong(prepared_coeff(az, 0, n), az_partial(pk, sig, row, 4, n)),
    ensures
        finalized_row(ppk, psig, az, row) == w_approx(pk, sig, row),
{
    let rd = row_difference(ppk, psig, az, row);
    let wn = w_approx_ntt(pk, sig, row);
    assert forall|n: int| 0 <= n < 256 implies #[trigger] cong(rd[n], wn[n]) by {
        let c = prepared_coeff(psig, 0, n);
        let t = prepared_coeff(ppk, 1376 + 1024 * row, n);
        let ch = spec_ntt(challenge_poly(sig))[n];
        let th = spec_ntt(t1_scaled(pk, row))[n];
        assert(cong(c, ch));
        assert(cong(t, th * r32()));
        lemma_unmont_product(c, ch, t, th);
        assert(cong(prepared_coeff(az, 0, n), az_partial(pk, sig, row, 4, n)));
        lemma_cong_add(prepared_coeff(az, 0, n), az_partial(pk, sig, row, 4, n), c * t * r32_inv(), ch * th);
    }
    lemma_intt_cong(rd, wn);
    assert forall|n: int| 0 <= n < 256 implies #[trigger] finalized_row(ppk, psig, az, row)[n] == w_approx(pk, sig, row)[n] by {
        lemma_cong_same_mod(spec_intt(rd)[n], spec_intt(wn)[n]);
    }
    assert(finalized_row(ppk, psig, az, row) =~= w_approx(pk, sig, row));
}

/// The prepared signature after the challenge step and the first `k - 1` column steps holds
/// `NTT(c)` and the `NTT(z) 2^32` of those columns.
proof fn lemma_signature_steps(sig: Seq<u8>, s: Seq<Seq<u8>>, ok_z: Seq<bool>, k: int)
    requires
        1 <= k <= 5,
        s.len() == 6,
        ok_z.len() == 4,
        forall|i: int| 0 <= i < 6 ==> #[trigger] s[i].len() == 5120,
        prepared_ntt(s[1], 0, challenge_poly(sig)),
        forall|c: int| 0 <= c < k - 1 ==> #[trigger] ok_z[c],
        forall|c: int| 0 <= c < 4 && #[trigger] ok_z[c] ==> same_outside(s[c + 2], s[c + 1], 1024 + 1024 * c, 2048 + 1024 * c)
            && prepared_ntt_mont(s[c + 2], 1024 + 1024 * c, z_poly(sig, c)),
    ensures
        prepared_ntt(s[k], 0, challenge_poly(sig)),
        forall|c: int| 0 <= c < k - 1 ==> #[trigger] prepared_ntt_mont(s[k], 1024 + 1024 * c, z_poly(sig, c)),
    decreases k,
{
    if k > 1 {
        lemma_signature_steps(sig, s, ok_z, k - 1);
        let c0 = k - 2;
        assert(ok_z[c0]);
        lemma_coeffs_kept(s[k], s[k - 1], 1024 + 1024 * c0, 2048 + 1024 * c0, 0);
        assert forall|n: int| 0 <= n < 256 implies #[trigger] cong(prepared_coeff(s[k], 0, n), spec_ntt(challenge_poly(sig))[n]) by {
            assert(prepared_coeff(s[k], 0, n) == prepared_coeff(s[k - 1], 0, n));
        }
        assert forall|c: int| 0 <= c < k - 1 implies #[trigger] prepared_ntt_mont(s[k], 1024 + 1024 * c, z_poly(sig, c)) by {
            if c < c0 {
                lemma_coeffs_kept(s[k], s[k - 1], 1024 + 1024 * c0, 2048 + 1024 * c0, 1024 + 1024 * c);
                assert(prepared_ntt_mont(s[k - 1], 1024 + 1024 * c, z_poly(sig, c)));
                assert forall|n: int| 0 <= n < 256 implies #[trigger] cong(prepared_coeff(s[k], 1024 + 1024 * c, n), spec_ntt(z_poly(sig, c))[n] * r32()) by {
                    assert(prepared_coeff(s[k], 1024 + 1024 * c, n) == prepared_coeff(s[k - 1], 1024 + 1024 * c, n));
                }
            }
        }
    }
}

/// Row `row`'s accumulator after `k` column steps holds the first `k` terms of `A NTT(z)`.
proof fn lemma_accumulator_steps(pk: Seq<u8>, sig: Seq<u8>, p: Seq<u8>, s5: Seq<u8>, az: Seq<Seq<u8>>, ok: Seq<bool>, row: int, k: int)
    requires
        0 <= k <= 4,
        0 <= row < 4,
        az.len() == 5,
        ok.len() == 4,
        p.subrange(0, 32) == pk.subrange(0, 32),
        forall|n: int| 0 <= n < 256 ==> #[trigger] prepared_coeff(az[0], 0, n) == 0,
        forall|c: int| 0 <= c < k ==> #[trigger] ok[c],
        forall|c: int| 0 <= c < 4 ==> #[trigger] prepared_ntt_mont(s5, 1024 + 1024 * c, z_poly(sig, c)),
        forall|c: int, n: int| 0 <= c < 4 && 0 <= n < 256 && ok[c] ==> #[trigger] mont_step(prepared_coeff(az[c], 0, n), prepared_coeff(az[c + 1], 0, n),
            matrix_entry(p.subrange(0, 32), row, c)->0[n] * prepared_coeff(s5, 1024 + 1024 * c, n)),
    ensures
        forall|n: int| 0 <= n < 256 ==> #[trigger] cong(prepared_coeff(az[k], 0, n), az_partial(pk, sig, row, k as nat, n)),
    decreases k,
{
    if k > 0 {
        lemma_accumulator_steps(pk, sig, p, s5, az, ok, row, k - 1);
        let c = k - 1;
        assert forall|n: int| 0 <= n < 256 implies #[trigger] cong(prepared_coeff(az[k], 0, n), az_partial(pk, sig, row, k as nat, n)) by {
            let before = prepared_coeff(az[c], 0, n);
            let after = prepared_coeff(az[k], 0, n);
            let zs = prepared_coeff(s5, 1024 + 1024 * c, n);
            let entry = matrix_entry(pk.subrange(0, 32), row, c)->0;
            assert(ok[c]);
            assert(az[c + 1] == az[k]);
            assert(mont_step(prepared_coeff(az[c], 0, n), prepared_coeff(az[c + 1], 0, n),
                matrix_entry(p.subrange(0, 32), row, c)->0[n] * prepared_coeff(s5, 1024 + 1024 * c, n)));
            assert(prepared_ntt_mont(s5, 1024 + 1024 * c, z_poly(sig, c)));
            lemma_mont_product(after - before, entry[n], zs, spec_ntt(z_poly(sig, c))[n]);
            assert(cong(before, az_partial(pk, sig, row, c as nat, n)));
            lemma_cong_add(before, az_partial(pk, sig, row, c as nat, n), after - before, az_term(pk, sig, row, c, n));
        }
    } else {
        assert forall|n: int| 0 <= n < 256 implies #[trigger] cong(prepared_coeff(az[0], 0, n), az_partial(pk, sig, row, 0, n)) by {}
    }
}

/// The split steps, run one after another on fresh buffers, accept exactly when
/// `mldsa44_accepts` holds (FIPS 204 verify with bounded sampling streams): the key step on 5472 bytes gives `p`; the challenge step turns the
/// 5120-byte `s[0]` into `s[1]`; column step `c` turns `s[c + 1]` into `s[c + 2]`;
/// accumulating column `c` into row `r` turns `az[r][c]` (zeroes for `c = 0`) into
/// `az[r][c + 1]`; finishing row `r` from `az[r][4]` writes `w[r]`; the final check runs on
/// the four rows joined. Each `ok_*` is what that step returned, and the requirements are the
/// steps' own guarantees.
pub proof fn law_split_steps_match_verify(pk: Seq<u8>, sig: Seq<u8>, message: Seq<u8>, p: Seq<u8>, ok_key: bool, s: Seq<Seq<u8>>,
    ok_challenge: bool, ok_z: Seq<bool>, az: Seq<Seq<Seq<u8>>>, ok_acc: Seq<Seq<bool>>, w: Seq<Seq<u8>>, ok_row: Seq<bool>, ok_final: bool)
    requires
        p.len() == 5472,
        s.len() == 6,
        ok_z.len() == 4,
        az.len() == 4,
        ok_acc.len() == 4,
        w.len() == 4,
        ok_row.len() == 4,
        forall|i: int| 0 <= i < 6 ==> #[trigger] s[i].len() == 5120,
        forall|r: int| 0 <= r < 4 ==> #[trigger] az[r].len() == 5,
        forall|r: int| 0 <= r < 4 ==> #[trigger] ok_acc[r].len() == 4,
        forall|r: int, c: int| 0 <= r < 4 && 0 <= c < 5 ==> #[trigger] az[r][c].len() == 1024,
        forall|r: int, n: int| 0 <= r < 4 && 0 <= n < 256 ==> #[trigger] prepared_coeff(az[r][0], 0, n) == 0,
        ok_key == (pk.len() == 1312),
        ok_key ==> prepared_key_layout(p, pk),
        ok_challenge == (sig.len() == 2420 && spec_hints_valid(sig_hints(sig)) && challenge_of(sig) is Some),
        ok_challenge ==> prepared_ntt(s[1], 0, challenge_poly(sig)),
        forall|c: int| 0 <= c < 4 ==> #[trigger] ok_z[c] == (sig.len() == 2420 && z_column_valid(sig, c)),
        forall|c: int| 0 <= c < 4 && #[trigger] ok_z[c] ==> same_outside(s[c + 2], s[c + 1], 1024 + 1024 * c, 2048 + 1024 * c)
            && prepared_ntt_mont(s[c + 2], 1024 + 1024 * c, z_poly(sig, c)),
        forall|r: int, c: int| 0 <= r < 4 && 0 <= c < 4 ==> #[trigger] ok_acc[r][c] == (matrix_entry(p.subrange(0, 32), r, c) is Some),
        forall|r: int, c: int, n: int| 0 <= r < 4 && 0 <= c < 4 && 0 <= n < 256 && ok_acc[r][c] ==> #[trigger] mont_step(
            prepared_coeff(az[r][c], 0, n), prepared_coeff(az[r][c + 1], 0, n),
            matrix_entry(p.subrange(0, 32), r, c)->0[n] * prepared_coeff(s[5], 1024 + 1024 * c, n)),
        forall|r: int| 0 <= r < 4 ==> #[trigger] ok_row[r] == (sig.len() == 2420 && spec_hints_valid(sig_hints(sig))),
        forall|r: int| 0 <= r < 4 && #[trigger] ok_row[r] ==> w1_row_from(w[r], sig_hints(sig), r, finalized_row(p, s[5], az[r][4], r)),
        ok_final == (sig.len() == 2420 && (w[0] + w[1] + w[2] + w[3]).len() == 768
            && commitment_matches(p.subrange(1312, 1376), message, w[0] + w[1] + w[2] + w[3], sig_ctilde(sig))),
    ensures
        (ok_key && ok_challenge && (forall|c: int| 0 <= c < 4 ==> #[trigger] ok_z[c])
            && (forall|r: int, c: int| 0 <= r < 4 && 0 <= c < 4 ==> #[trigger] ok_acc[r][c])
            && (forall|r: int| 0 <= r < 4 ==> #[trigger] ok_row[r]) && ok_final)
        == mldsa44_accepts(pk, sig, message),
{
    let all_ok = ok_key && ok_challenge && (forall|c: int| 0 <= c < 4 ==> #[trigger] ok_z[c])
        && (forall|r: int, c: int| 0 <= r < 4 && 0 <= c < 4 ==> #[trigger] ok_acc[r][c])
        && (forall|r: int| 0 <= r < 4 ==> #[trigger] ok_row[r]);
    let big_w = w[0] + w[1] + w[2] + w[3];
    if all_ok {
        assert(p.subrange(0, 32) =~= pk.subrange(0, 32)) by {
            assert forall|k: int| 0 <= k < 32 implies p.subrange(0, 32)[k] == pk.subrange(0, 32)[k] by {
                assert(p.subrange(0, 1312)[k] == pk[k]);
            }
        }
        lemma_signature_steps(sig, s, ok_z, 5);
        assert forall|r: int| 0 <= r < 4 implies #[trigger] w1_row_from(w[r], sig_hints(sig), r, w_approx(pk, sig, r)) by {
            assert(ok_row[r]);
            assert forall|c: int| 0 <= c < 4 implies #[trigger] ok_acc[r][c] by {}
            lemma_accumulator_steps(pk, sig, p, s[5], az[r], ok_acc[r], r, 4);
            assert forall|n: int| 0 <= n < 256 implies #[trigger] cong(prepared_coeff(az[r][4], 0, n), az_partial(pk, sig, r, 4, n)) by {
                assert(cong(prepared_coeff(az[r][4], 0, n), az_partial(pk, sig, r, 4int as nat, n)));
            }
            assert(prepared_ntt_mont(p, 1376 + 1024 * r, t1_scaled(pk, r)));
            lemma_finalized_row_matches(p, s[5], az[r][4], pk, sig, r);
        }
        assert forall|r: int| 0 <= r < 4 implies #[trigger] w[r].len() == 192 by {
            assert(w1_row_from(w[r], sig_hints(sig), r, w_approx(pk, sig, r)));
        }
        assert(big_w.len() == 768);
        assert forall|r: int| 0 <= r < 4 implies #[trigger] w1_row_from(big_w.subrange(192 * r, 192 * r + 192), sig_hints(sig), r, w_approx(pk, sig, r)) by {
            assert(big_w.subrange(192 * r, 192 * r + 192) =~= w[r]);
        }
        assert(w1_of(big_w, pk, sig));
        assert(p.subrange(1312, 1376) == spec_shake256(pk, 64));
        assert forall|r: int, c: int| 0 <= r < 4 && 0 <= c < 4 implies #[trigger] matrix_entry(pk.subrange(0, 32), r, c) is Some by {
            assert(ok_acc[r][c]);
        }
        assert forall|c: int| 0 <= c < 4 implies #[trigger] z_column_valid(sig, c) by {
            assert(ok_z[c]);
        }
        if mldsa44_accepts(pk, sig, message) {
            let w1 = choose|w1: Seq<u8>| #[trigger] w1_of(w1, pk, sig) && commitment_matches(spec_shake256(pk, 64), message, w1, sig_ctilde(sig));
            lemma_w1_of_unique(w1, big_w, pk, sig);
        }
    }
    if mldsa44_accepts(pk, sig, message) {
        assert(p.subrange(0, 32) =~= pk.subrange(0, 32)) by {
            assert forall|k: int| 0 <= k < 32 implies p.subrange(0, 32)[k] == pk.subrange(0, 32)[k] by {
                assert(p.subrange(0, 1312)[k] == pk[k]);
            }
        }
        assert forall|c: int| 0 <= c < 4 implies #[trigger] ok_z[c] by {
            assert(z_column_valid(sig, c));
        }
        assert forall|r: int, c: int| 0 <= r < 4 && 0 <= c < 4 implies #[trigger] ok_acc[r][c] by {
            assert(matrix_entry(pk.subrange(0, 32), r, c) is Some);
        }
        assert forall|r: int| 0 <= r < 4 implies #[trigger] ok_row[r] by {}
        assert(all_ok);
    }
}

/// One-shot ML-DSA-44 verification with an empty context, run through the split steps:
/// `true` exactly when `mldsa44_accepts` holds (FIPS 204 verify with bounded sampling streams).
pub fn verify_mldsa44(public_key: &[u8], signature: &[u8], message: &[u8]) -> (ok: bool)
    ensures
        ok == mldsa44_accepts(public_key@, signature@, message@),
{
    if public_key.len() != MLDSA44_PUBLIC_KEY_LEN || signature.len() != MLDSA44_SIGNATURE_LEN {
        return false;
    }
    let ghost pk = public_key@;
    let ghost sig = signature@;
    let mut prepared_key = zero_bytes(MLDSA44_PREPARED_PUBLIC_KEY_LEN);
    let _ = prepare_mldsa44_public_key(public_key, prepared_key.as_mut_slice());
    proof {
        assert(prepared_key@.subrange(0, 32) =~= pk.subrange(0, 32)) by {
            assert forall|k: int| 0 <= k < 32 implies prepared_key@.subrange(0, 32)[k] == pk.subrange(0, 32)[k] by {
                assert(prepared_key@.subrange(0, 1312)[k] == pk[k]);
            }
        }
    }
    let mut prepared_sig = zero_bytes(MLDSA44_PREPARED_SIGNATURE_LEN);
    if !prepare_mldsa44_challenge(signature, prepared_sig.as_mut_slice()) {
        return false;
    }
    let mut col: usize = 0;
    while col < 4
        invariant
            sig == signature@,
            sig.len() == 2420,
            prepared_sig@.len() == 5120,
            col <= 4,
            prepared_poly_within(prepared_sig@, 0, -ntt_out_bound(), ntt_out_bound()),
            prepared_ntt(prepared_sig@, 0, challenge_poly(sig)),
            forall|c: int| 0 <= c < col ==> #[trigger] z_column_valid(sig, c),
            forall|c: int| 0 <= c < col ==> #[trigger] prepared_ntt_mont(prepared_sig@, 1024 + 1024 * c, z_poly(sig, c)),
        decreases 4 - col,
    {
        let ghost before = prepared_sig@;
        if !prepare_mldsa44_z_column(signature, col, prepared_sig.as_mut_slice()) {
            return false;
        }
        proof {
            lemma_within_preserved(prepared_sig@, before, 1024 + 1024 * col, 2048 + 1024 * col, 0, -ntt_out_bound(), ntt_out_bound());
            assert forall|n: int| 0 <= n < 256 implies #[trigger] prepared_coeff(prepared_sig@, 0, n) == prepared_coeff(before, 0, n) by {
                assert(prepared_sig@[4 * n] == before[4 * n]);
                assert(prepared_sig@[4 * n + 1] == before[4 * n + 1]);
                assert(prepared_sig@[4 * n + 2] == before[4 * n + 2]);
                assert(prepared_sig@[4 * n + 3] == before[4 * n + 3]);
            }
            assert forall|n: int| 0 <= n < 256 implies #[trigger] cong(prepared_coeff(prepared_sig@, 0, n), spec_ntt(challenge_poly(sig))[n]) by {
                assert(cong(prepared_coeff(before, 0, n), spec_ntt(challenge_poly(sig))[n]));
            }
            assert forall|c: int| 0 <= c < col + 1 implies #[trigger] prepared_ntt_mont(prepared_sig@, 1024 + 1024 * c, z_poly(sig, c)) by {
                if c < col {
                    assert forall|n: int| 0 <= n < 256 implies #[trigger] prepared_coeff(prepared_sig@, 1024 + 1024 * c, n) == prepared_coeff(before, 1024 + 1024 * c, n) by {
                        let b = 1024 + 1024 * c + 4 * n;
                        assert(prepared_sig@[b] == before[b]);
                        assert(prepared_sig@[b + 1] == before[b + 1]);
                        assert(prepared_sig@[b + 2] == before[b + 2]);
                        assert(prepared_sig@[b + 3] == before[b + 3]);
                    }
                    assert(prepared_ntt_mont(before, 1024 + 1024 * c, z_poly(sig, c)));
                }
            }
        }
        col += 1;
    }
    let mut w1 = zero_bytes(MLDSA44_W1_LEN);
    let ghost h = sig_hints(sig);
    let mut row: usize = 0;
    while row < 4
        invariant
            sig == signature@,
            pk == public_key@,
            sig.len() == 2420,
            prepared_sig@.len() == 5120,
            prepared_key_layout(prepared_key@, pk),
            prepared_key@.subrange(0, 32) == pk.subrange(0, 32),
            prepared_poly_within(prepared_sig@, 0, -ntt_out_bound(), ntt_out_bound()),
            prepared_ntt(prepared_sig@, 0, challenge_poly(sig)),
            forall|c: int| 0 <= c < 4 ==> #[trigger] prepared_ntt_mont(prepared_sig@, 1024 + 1024 * c, z_poly(sig, c)),
            spec_hints_valid(h),
            h == sig_hints(sig),
            w1@.len() == 768,
            row <= 4,
            forall|r: int, c: int| 0 <= r < row && 0 <= c < 4 ==> #[trigger] matrix_entry(pk.subrange(0, 32), r, c) is Some,
            forall|r: int| 0 <= r < row ==> #[trigger] w1_row_from(w1@.subrange(192 * r, 192 * r + 192), h, r, w_approx(pk, sig, r)),
        decreases 4 - row,
    {
        let mut az = zero_bytes(MLDSA44_AZ_ROW_LEN);
        proof {
            assert forall|n: int| 0 <= n < 256 implies #[trigger] prepared_coeff(az@, 0, n) == 0 by {
                assert(az@[4 * n] == 0 && az@[4 * n + 1] == 0 && az@[4 * n + 2] == 0 && az@[4 * n + 3] == 0);
            }
        }
        let mut col: usize = 0;
        while col < 4
            invariant
                pk == public_key@,
                sig == signature@,
                prepared_key@.len() == 5472,
                prepared_sig@.len() == 5120,
                prepared_key@.subrange(0, 32) == pk.subrange(0, 32),
                forall|c: int| 0 <= c < 4 ==> #[trigger] prepared_ntt_mont(prepared_sig@, 1024 + 1024 * c, z_poly(sig, c)),
                row < 4,
                az@.len() == 1024,
                col <= 4,
                prepared_poly_within(az@, 0, -(col as int) * q(), (col as int) * q()),
                forall|c: int| 0 <= c < col ==> #[trigger] matrix_entry(pk.subrange(0, 32), row as int, c) is Some,
                forall|n: int| 0 <= n < 256 ==> #[trigger] cong(prepared_coeff(az@, 0, n), az_partial(pk, sig, row as int, col as nat, n)),
            decreases 4 - col,
        {
            let ghost before = az@;
            if !accumulate_mldsa44_column(prepared_key.as_slice(), prepared_sig.as_slice(), row, col, az.as_mut_slice()) {
                return false;
            }
            proof {
                let entry = matrix_entry(pk.subrange(0, 32), row as int, col as int)->0;
                assert forall|n: int| 0 <= n < 256 implies -((col + 1) as int) * q() <= #[trigger] prepared_coeff(az@, 0, n) <= ((col + 1) as int) * q()
                    && cong(prepared_coeff(az@, 0, n), az_partial(pk, sig, row as int, (col + 1) as nat, n)) by {
                    assert(-(col as int) * q() <= prepared_coeff(before, 0, n) <= (col as int) * q());
                    let zs = prepared_coeff(prepared_sig@, 1024 + 1024 * col, n);
                    assert(mont_step(prepared_coeff(before, 0, n), prepared_coeff(az@, 0, n), entry[n] * zs));
                    let d = prepared_coeff(az@, 0, n) - prepared_coeff(before, 0, n);
                    assert(prepared_ntt_mont(prepared_sig@, 1024 + 1024 * col, z_poly(sig, col as int)));
                    assert(cong(zs, spec_ntt(z_poly(sig, col as int))[n] * r32()));
                    lemma_mont_product(d, entry[n], zs, spec_ntt(z_poly(sig, col as int))[n]);
                    assert(cong(prepared_coeff(before, 0, n), az_partial(pk, sig, row as int, col as nat, n)));
                    lemma_cong_add(prepared_coeff(before, 0, n), az_partial(pk, sig, row as int, col as nat, n), d, az_term(pk, sig, row as int, col as int, n));
                }
            }
            col += 1;
        }
        let mut out = zero_bytes(MLDSA44_W1_ROW_LEN);
        proof {
            assert(prepared_poly_within(prepared_key@, 1376 + 1024 * row, -q(), 2 * q() - 1));
        }
        let _ = finalize_mldsa44_row(prepared_key.as_slice(), signature, prepared_sig.as_slice(), row, az.as_slice(), out.as_mut_slice());
        proof {
            assert(prepared_ntt_mont(prepared_key@, 1376 + 1024 * row, t1_scaled(pk, row as int)));
            lemma_finalized_row_matches(prepared_key@, prepared_sig@, az@, pk, sig, row as int);
        }
        let ghost before = w1@;
        copy_into(w1.as_mut_slice(), row * 192, out.as_slice());
        proof {
            assert forall|r: int| 0 <= r <= row implies #[trigger] w1_row_from(w1@.subrange(192 * r, 192 * r + 192), h, r, w_approx(pk, sig, r)) by {
                if r < row {
                    assert(w1@.subrange(192 * r, 192 * r + 192) =~= before.subrange(192 * r, 192 * r + 192));
                } else {
                    assert(w1@.subrange(192 * r, 192 * r + 192) =~= out@);
                }
            }
        }
        row += 1;
    }
    proof {
        assert(w1_of(w1@, pk, sig));
        assert(prepared_key@.subrange(1312, 1376) == spec_shake256(pk, 64));
        assert forall|w: Seq<u8>| #[trigger] w1_of(w, pk, sig) implies w == w1@ by {
            lemma_w1_of_unique(w, w1@, pk, sig);
        }
    }
    finalize_mldsa44_proof(prepared_key.as_slice(), signature, message, w1.as_slice())
}

/// In a well-formed hint block, row `r` ends no earlier than it starts and within 80.
proof fn lemma_hint_end_step(h: Seq<u8>, r: int)
    requires
        spec_hints_valid(h),
        0 <= r < 4,
    ensures
        hint_end(h, r) <= hint_end(h, r + 1) <= 80,
{
}

/// An accepted signature's hint block is canonical, as FIPS 204 `HintBitUnpack` demands: the
/// four cumulative row ends (signature bytes 2416..2420) never decrease and stay within 80,
/// the indices strictly increase within each row, and every index byte past the last row end
/// is zero. A signature that breaks any of these is rejected by `verify_mldsa44`.
pub proof fn law_accepted_hints_canonical(pk: Seq<u8>, sig: Seq<u8>, message: Seq<u8>)
    requires
        mldsa44_accepts(pk, sig, message),
    ensures
        sig.len() == 2420,
        sig[2416] <= sig[2417] <= sig[2418] <= sig[2419] <= 80,
        forall|i: int| sig[2419] <= i < 80 ==> #[trigger] sig[2336 + i] == 0,
        forall|i: int| 0 < i < sig[2419] && i != sig[2416] && i != sig[2417] && i != sig[2418]
            ==> sig[2336 + i - 1] < #[trigger] sig[2336 + i],
{
    let h = sig_hints(sig);
    assert(spec_hints_valid(h));
    assert(h[80] == sig[2416] && h[81] == sig[2417] && h[82] == sig[2418] && h[83] == sig[2419]);
    lemma_hint_end_step(h, 0);
    lemma_hint_end_step(h, 1);
    lemma_hint_end_step(h, 2);
    lemma_hint_end_step(h, 3);
    assert forall|i: int| sig[2419] <= i < 80 implies #[trigger] sig[2336 + i] == 0 by {
        assert(h[i] == 0);
    }
    assert forall|i: int| 0 < i < sig[2419] && i != sig[2416] && i != sig[2417] && i != sig[2418]
        implies sig[2336 + i - 1] < #[trigger] sig[2336 + i] by {
        let r = if i < sig[2416] { 0int } else if i < sig[2417] { 1int } else if i < sig[2418] { 2int } else { 3int };
        assert(hint_row_sorted(h, r));
        assert(hint_end(h, r) < i < hint_end(h, r + 1));
        assert(h[i - 1] < h[i]);
    }
}

/// An accepted signature's response `z` is short, as FIPS 204 verification demands: every
/// 18-bit field `v` of each of its four columns (coefficient `2^17 - v`) satisfies
/// `|2^17 - v| < 2^17 - 78`, that is `78 < v < 262066`. A signature with any coefficient on or
/// past the bound is rejected by `verify_mldsa44`.
pub proof fn law_accepted_z_short(pk: Seq<u8>, sig: Seq<u8>, message: Seq<u8>)
    requires
        mldsa44_accepts(pk, sig, message),
    ensures
        forall|col: int, i: int| 0 <= col < 4 && 0 <= i < 256
            ==> 78 < #[trigger] bits_val(sig_z_bytes(sig, col), 18 * i, 18) < 262066,
{
    assert forall|col: int, i: int| 0 <= col < 4 && 0 <= i < 256
        implies 78 < #[trigger] bits_val(sig_z_bytes(sig, col), 18 * i, 18) < 262066 by {
        assert(z_column_valid(sig, col));
        let s = sig_z_bytes(sig, col);
        let m = unpack_coeff(s, i, 18, 131_071, 131_072);
        assert(i * 18 == 18 * i);
        assert(m == 131_072 - bits_val(s, 18 * i, 18));
        assert(crate::mldsa44::encode::unpack_low(18, 131_072) == 131_071) by {
            vstd::arithmetic::power2::lemma2_to64();
        }
        assert(-131_071 <= m <= 131_072);
        assert(abs_int(spec_center_mod(m)) < Z_NORM_BOUND);
        if m >= 0 {
            assert(m % 8380417 == m) by { vstd::arithmetic::div_mod::lemma_small_mod(m as nat, 8380417nat); }
        } else {
            assert(m % 8380417 == m + 8380417) by {
                vstd::arithmetic::div_mod::lemma_small_mod((m + 8380417) as nat, 8380417nat);
                vstd::arithmetic::div_mod::lemma_mod_add_multiples_vanish(m, 8380417);
            }
        }
        assert(spec_center_mod(m) == m);
    }
}

} // verus!

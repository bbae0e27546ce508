//! Modular arithmetic over Z_q for ML-DSA-44.
use vstd::prelude::*;
use vstd::arithmetic::div_mod::*;

verus! {

pub const Q: i32 = 8_380_417;

pub open spec fn q() -> int {
    8_380_417
}

pub open spec fn r32() -> int {
    0x1_0000_0000
}

/// `x` and `y` are congruent modulo Q.
pub open spec fn cong(x: int, y: int) -> bool {
    (x - y) % q() == 0
}

/// The inverse of `2^32` modulo Q.
pub open spec fn r32_inv() -> int {
    8_265_825
}

/// Congruent values differ by a multiple of Q.
pub proof fn lemma_cong_multiple(x: int, y: int)
    requires
        cong(x, y),
    ensures
        x - y == ((x - y) / q()) * q(),
{
    lemma_fundamental_div_mod(x - y, q());
}

/// Values that differ by a multiple of Q are congruent.
pub proof fn lemma_multiple_cong(x: int, y: int, k: int)
    requires
        x - y == k * q(),
    ensures
        cong(x, y),
{
    lemma_mod_multiples_basic(k, q());
}

pub proof fn lemma_cong_sym(x: int, y: int)
    requires
        cong(x, y),
    ensures
        cong(y, x),
{
    lemma_cong_multiple(x, y);
    lemma_multiple_cong(y, x, -((x - y) / q()));
}

pub proof fn lemma_cong_trans(x: int, y: int, z: int)
    requires
        cong(x, y),
        cong(y, z),
    ensures
        cong(x, z),
{
    lemma_cong_multiple(x, y);
    lemma_cong_multiple(y, z);
    lemma_multiple_cong(x, z, (x - y) / q() + (y - z) / q());
}

pub proof fn lemma_cong_add(a: int, b: int, c: int, d: int)
    requires
        cong(a, b),
        cong(c, d),
    ensures
        cong(a + c, b + d),
        cong(a - c, b - d),
{
    lemma_cong_multiple(a, b);
    lemma_cong_multiple(c, d);
    lemma_multiple_cong(a + c, b + d, (a - b) / q() + (c - d) / q());
    lemma_multiple_cong(a - c, b - d, (a - b) / q() - (c - d) / q());
}

pub proof fn lemma_cong_mul(a: int, b: int, c: int)
    requires
        cong(a, b),
    ensures
        cong(a * c, b * c),
        cong(c * a, c * b),
{
    lemma_cong_multiple(a, b);
    let k = (a - b) / q();
    assert(a * c - b * c == (k * c) * q() && c * a - c * b == (k * c) * q()) by (nonlinear_arith)
        requires
            a - b == k * q(),
    ;
    lemma_multiple_cong(a * c, b * c, k * c);
    lemma_multiple_cong(c * a, c * b, k * c);
}

/// A value is congruent to its remainder modulo Q.
pub proof fn lemma_cong_mod(x: int)
    ensures
        cong(x % q(), x),
{
    lemma_fundamental_div_mod(x, q());
    lemma_multiple_cong(x % q(), x, -(x / q()));
}

/// Cancelling the Montgomery factor: `r * 2^32 = x * 2^32 (mod Q)` gives `r = x (mod Q)`.
pub proof fn lemma_cancel_r32(r: int, x: int)
    requires
        cong(r * r32(), x * r32()),
    ensures
        cong(r, x),
{
    assert(cong(r32() * r32_inv(), 1)) by {
        lemma_multiple_cong(r32() * r32_inv(), 1, 4_236_238_847);
    }
    lemma_cong_mul(r * r32(), x * r32(), r32_inv());
    lemma_cong_mul(r32() * r32_inv(), 1, r);
    lemma_cong_mul(r32() * r32_inv(), 1, x);
    assert(r * r32() * r32_inv() == r * (r32() * r32_inv())) by (nonlinear_arith);
    assert(x * r32() * r32_inv() == x * (r32() * r32_inv())) by (nonlinear_arith);
    lemma_cong_sym(r * (r32() * r32_inv()), r * 1);
    lemma_cong_trans(r, r * r32() * r32_inv(), x * r32() * r32_inv());
    lemma_cong_trans(r, x * r32() * r32_inv(), x);
}

/// Undoing the Montgomery factor: `r * 2^32 = x (mod Q)` gives `r = x / 2^32 (mod Q)`.
pub proof fn lemma_unmont(r: int, x: int)
    requires
        cong(r * r32(), x),
    ensures
        cong(r, x * r32_inv()),
{
    lemma_multiple_cong(r32_inv() * r32(), 1, 4_236_238_847);
    lemma_cong_mul(r32_inv() * r32(), 1, x);
    assert(x * r32_inv() * r32() == x * (r32_inv() * r32())) by (nonlinear_arith);
    lemma_cong_trans(r * r32(), x, x * r32_inv() * r32());
    lemma_cancel_r32(r, x * r32_inv());
}

/// Congruent values have the same remainder modulo Q.
pub proof fn lemma_cong_same_mod(x: int, y: int)
    requires
        cong(x, y),
    ensures
        x % q() == y % q(),
{
    lemma_cong_mod(x);
    lemma_cong_trans(x % q(), x, y);
    lemma_mod_bound(x, q());
    lemma_cong_canonical(y, x % q());
}

proof fn lemma_qinv(x: u32)
    ensures
        ((((x as u64) * 58_728_449u64) as u32) as u64 * 8_380_417u64) as u32 == x,
{
    assert(((((x as u64) * 58_728_449u64) as u32) as u64 * 8_380_417u64) as u32 == x) by (bit_vector);
}

proof fn lemma_low_bits(a: i64, t: i32)
    requires
        (((t as u32) as u64 * 8_380_417u64) as u32) == a as u32,
    ensures
        (((a - (t as i64) * 8_380_417i64) as i64) & 0xffff_ffffi64) == 0,
{
    assert((((a - (t as i64) * 8_380_417i64) as i64) & 0xffff_ffffi64) == 0) by (bit_vector)
        requires
            (((t as u32) as u64 * 8_380_417u64) as u32) == a as u32;
}

} // verus!

verus! {

proof fn lemma_shift_exact(diff: i64)
    requires
        diff & 0xffff_ffffi64 == 0,
    ensures
        (diff >> 32u64) * 0x1_0000_0000 == diff,
{
    assert((diff >> 32u64) * 0x1_0000_0000i64 == diff) by (bit_vector)
        requires
            diff & 0xffff_ffffi64 == 0;
}

/// The multiple of Q that Montgomery reduction subtracts from `a`: `a * Q^-1` modulo `2^32`,
/// read as a signed 32-bit value.
pub open spec fn mont_t(a: int) -> int {
    ((((a as u32) as u64) * 58_728_449u64) as u32) as i32 as int
}

/// The Montgomery reduction of `a`: `(a - t Q) / 2^32` for `t = mont_t(a)`.
pub open spec fn spec_mont_reduce(a: int) -> int {
    (a - mont_t(a) * q()) / r32()
}

/// Montgomery reduction: returns `r` with `r * 2^32 = a (mod Q)` and `|r| < Q`.
pub fn mont_reduce(a: i64) -> (r: i32)
    requires
        -0x8000_0000 * q() <= a < 0x8000_0000 * q(),
    ensures
        r == spec_mont_reduce(a as int),
        -q() < r < q(),
        a - 0x8000_0000 * q() < r * r32() <= a + 0x8000_0000 * q(),
        cong(r * r32(), a as int),
{
    let tu: u32 = (((a as u32) as u64) * 58_728_449u64) as u32;
    let t: i32 = tu as i32;
    proof {
        lemma_qinv(a as u32);
        assert((tu as i32) as u32 == tu) by (bit_vector);
        lemma_low_bits(a, t);
    }
    let diff: i64 = a - (t as i64) * 8_380_417i64;
    proof {
        lemma_shift_exact(diff);
    }
    let r: i64 = diff >> 32u64;
    proof {
        assert(r * r32() - a == -(t as int) * q());
        lemma_mod_multiples_basic(-(t as int), q());
        assert(t as int == mont_t(a as int));
        lemma_fundamental_div_mod_converse(r * r32(), r32(), r as int, 0);
    }
    r as i32
}

} // verus!

verus! {

proof fn lemma_shr23_i32(v: i32)
    ensures
        (v >> 23u32) * 0x80_0000 <= v < (v >> 23u32) * 0x80_0000 + 0x80_0000,
{
    assert((v >> 23u32) as i64 * 0x80_0000i64 <= v as i64 && (v as i64) < (v >> 23u32) as i64
        * 0x80_0000i64 + 0x80_0000i64) by (bit_vector);
}

proof fn lemma_shr23_i64(v: i64)
    ensures
        (v >> 23u64) * 0x80_0000 <= v < (v >> 23u64) * 0x80_0000 + 0x80_0000,
{
    assert((v >> 23u64) as i128 * 0x80_0000i128 <= v as i128 && (v as i128) < (v >> 23u64) as i128
        * 0x80_0000i128 + 0x80_0000i128) by (bit_vector);
}

proof fn lemma_shr48_i64(v: i64)
    ensures
        (v >> 48u64) * 0x1_0000_0000_0000 <= v < (v >> 48u64) * 0x1_0000_0000_0000
            + 0x1_0000_0000_0000,
{
    assert((v >> 48u64) as i128 * 0x1_0000_0000_0000i128 <= v as i128 && (v as i128) < (v
        >> 48u64) as i128 * 0x1_0000_0000_0000i128 + 0x1_0000_0000_0000i128) by (bit_vector);
}

/// `(v >> 31) & Q` is `Q` for a negative `v` and `0` otherwise.
proof fn lemma_sign_mask(v: i32)
    ensures
        (v >> 31u32) & 8_380_417i32 == (if v < 0 { 8_380_417i32 } else { 0i32 }),
{
    assert((v >> 31u32) & 8_380_417i32 == (if v < 0 { 8_380_417i32 } else { 0i32 }))
        by (bit_vector);
}

/// Partial reduction of a 32-bit value: congruent output of magnitude below 2^23.
pub fn partial_reduce32(a: i32) -> (r: i32)
    requires
        a <= i32::MAX - 0x40_0000,
    ensures
        r == a - ((a + 0x40_0000) / 0x80_0000) * q(),
        cong(r as int, a as int),
        -6_291_200 <= r <= 6_283_008,
{
    let v: i32 = a + 0x40_0000;
    proof {
        lemma_shr23_i32(v);
    }
    let x: i32 = v >> 23u32;
    let r: i32 = a - x * 8_380_417;
    proof {
        lemma_fundamental_div_mod_converse(v as int, 0x80_0000, x as int, v - x * 0x80_0000);
        assert(r - a == -(x as int) * q());
        lemma_mod_multiples_basic(-(x as int), q());
    }
    r
}

/// The canonical representative of `a` in `[0, Q)`.
pub fn full_reduce32(a: i32) -> (r: i32)
    requires
        a <= i32::MAX - 0x40_0000,
    ensures
        r == (a as int) % q(),
{
    let x = partial_reduce32(a);
    proof {
        lemma_sign_mask(x);
    }
    let r = x + ((x >> 31u32) & 8_380_417);
    proof {
        lemma_mod_add_multiples_vanish((a as int) - (x as int) + 0, q());
        assert(cong(r as int, a as int));
        lemma_cong_canonical(a as int, r as int);
    }
    r
}

/// A value `r` in `[0, Q)` congruent to `a` is `a mod Q`.
pub proof fn lemma_cong_canonical(a: int, r: int)
    requires
        0 <= r < q(),
        cong(r, a),
    ensures
        r == a % q(),
{
    lemma_fundamental_div_mod(a, q());
    lemma_fundamental_div_mod(r - a, q());
    let k = (r - a) / q();
    assert(r == a + k * q());
    lemma_mod_multiples_vanish(k, a, q());
    lemma_small_mod(r as nat, q() as nat);
    assert(a % q() == (k * q() + a) % q());
}

/// The centered representative of `m` modulo Q, in `(-(Q-1)/2, (Q-1)/2]`.
pub open spec fn spec_center_mod(m: int) -> int {
    let t = m % q();
    if t <= (q() - 1) / 2 { t } else { t - q() }
}

pub fn center_mod(m: i32) -> (r: i32)
    requires
        m <= i32::MAX - 0x40_0000,
    ensures
        r == spec_center_mod(m as int),
{
    let t = full_reduce32(m);
    let d: i32 = 4_190_208 - t;
    proof {
        lemma_sign_mask(d);
    }
    t - ((d >> 31u32) & 8_380_417)
}

} // verus!

verus! {

/// Largest coefficient magnitude that `to_mont` accepts (the 64-bit Barrett step stays in range).
pub open spec fn to_mont_bound() -> int {
    67_000_000
}

/// The value `partial_reduce64` computes: two subtractions of `Q * floor(x / 2^23)` and a
/// Barrett step with the multiplier `floor(2^48 / Q)`.
pub open spec fn spec_partial_reduce64(a: int) -> int {
    let a1 = a - (a / 0x80_0000) * q();
    let a2 = a1 - (a1 / 0x80_0000) * q();
    a2 - ((a2 * 33_587_228) / 0x1_0000_0000_0000) * q()
}

/// Reduction of a 64-bit value to a congruent value in `[-Q, 2Q)`.
pub fn partial_reduce64(a: i64) -> (r: i32)
    requires
        -to_mont_bound() * r32() <= a <= to_mont_bound() * r32(),
    ensures
        r == spec_partial_reduce64(a as int),
        cong(r as int, a as int),
        -q() <= r < 2 * q(),
{
    proof {
        lemma_shr23_i64(a);
    }
    let x1: i64 = a >> 23u64;
    let a1: i64 = a - x1 * 8_380_417i64;
    proof {
        lemma_shr23_i64(a1);
    }
    let x2: i64 = a1 >> 23u64;
    let a2: i64 = a1 - x2 * 8_380_417i64;
    let prod: i64 = a2 * 33_587_228i64;
    proof {
        lemma_shr48_i64(prod);
    }
    let q3: i64 = prod >> 48u64;
    let r: i64 = a2 - q3 * 8_380_417i64;
    proof {
        lemma_fundamental_div_mod_converse(a as int, 0x80_0000, x1 as int, a - x1 * 0x80_0000);
        lemma_fundamental_div_mod_converse(a1 as int, 0x80_0000, x2 as int, a1 - x2 * 0x80_0000);
        lemma_fundamental_div_mod_converse(prod as int, 0x1_0000_0000_0000, q3 as int, prod - q3 * 0x1_0000_0000_0000);
        assert(r - a == -((x1 + x2 + q3) as int) * q());
        lemma_mod_multiples_basic(-((x1 + x2 + q3) as int), q());
    }
    r as i32
}

/// Conversion to the Montgomery domain: multiplies by 2^32 modulo Q.
pub fn to_mont(poly: &mut [i32])
    requires
        forall|i: int| 0 <= i < old(poly)@.len() ==> -to_mont_bound() <= #[trigger] old(poly)@[i]
            <= to_mont_bound(),
    ensures
        final(poly)@.len() == old(poly)@.len(),
        forall|i: int|
            0 <= i < final(poly)@.len() ==> cong(#[trigger] final(poly)@[i] as int, old(poly)@[i]
                * r32()) && -q() <= final(poly)@[i] < 2 * q(),
        forall|i: int| 0 <= i < final(poly)@.len() ==> #[trigger] final(poly)@[i] == spec_partial_reduce64(old(poly)@[i] * r32()),
{
    let n = poly.len();
    let mut i: usize = 0;
    while i < n
        invariant
            n == poly@.len(),
            n == old(poly)@.len(),
            i <= n,
            forall|k: int| i <= k < n ==> #[trigger] poly@[k] == old(poly)@[k],
            forall|k: int| 0 <= k < old(poly)@.len() ==> -to_mont_bound() <= #[trigger] old(
                poly,
            )@[k] <= to_mont_bound(),
            forall|k: int|
                0 <= k < i ==> cong(#[trigger] poly@[k] as int, old(poly)@[k] * r32()) && -q()
                    <= poly@[k] < 2 * q(),
            forall|k: int| 0 <= k < i ==> #[trigger] poly@[k] == spec_partial_reduce64(old(poly)@[k] * r32()),
        decreases n - i,
    {
        let c: i64 = poly[i] as i64;
        poly[i] = partial_reduce64(c * 0x1_0000_0000i64);
        i += 1;
    }
}

/// FIPS 204 `Decompose` for gamma2 = (Q-1)/88: `r = r1 * 2*gamma2 + r0 (mod Q)`.
pub open spec fn spec_decompose(r: int) -> (int, int) {
    let rp = r % q();
    let m = rp % 190_464;
    let r0 = if m <= 95_232 { m } else { m - 190_464 };
    if rp - r0 == q() - 1 {
        (0, r0 - 1)
    } else {
        ((rp - r0) / 190_464, r0)
    }
}

proof fn lemma_decompose_core(rp: i32)
    requires
        0 <= rp < 8_380_417,
    ensures
        ({
            let r1 = ((((((rp + 127i32) as i32) >> 7u32) * 11275i32) as i32 + 0x80_0000i32) as i32) >> 24u32;
            &&& 0 <= r1 <= 44
            &&& -95_232 < rp - r1 * 190_464 <= 95_232
        }),
{
    assert({
        let r1 = ((((((rp + 127i32) as i32) >> 7u32) * 11275i32) as i32 + 0x80_0000i32) as i32) >> 24u32;
        &&& 0 <= r1 <= 44
        &&& (rp as i64) - (r1 as i64) * 190_464i64 > -95_232i64
        &&& (rp as i64) - (r1 as i64) * 190_464i64 <= 95_232i64
    }) by (bit_vector)
        requires
            0 <= rp < 8_380_417i32,
    ;
}

} // verus!

verus! {

proof fn lemma_centered_mod(rp: int, r1: int, d: int)
    requires
        0 <= rp,
        rp == r1 * 190_464 + d,
        -95_232 < d <= 95_232,
    ensures
        ({
            let m = rp % 190_464;
            d == (if m <= 95_232 { m } else { m - 190_464 })
        }),
{
    if d >= 0 {
        lemma_fundamental_div_mod_converse(rp, 190_464, r1, d);
    } else {
        lemma_fundamental_div_mod_converse(rp, 190_464, r1 - 1, d + 190_464);
    }
}

/// Splits `r` into high bits `r1` in `[0, 43]` and low bits `r0` (FIPS 204 `Decompose`).
pub fn decompose(r: i32) -> (res: (i32, i32))
    requires
        r <= i32::MAX - 0x40_0000,
    ensures
        res.0 as int == spec_decompose(r as int).0,
        res.1 as int == spec_decompose(r as int).1,
        0 <= res.0 <= 43,
{
    let rp = full_reduce32(r);
    proof {
        lemma_decompose_core(rp);
    }
    let v: i32 = rp + 127;
    assert(0 <= v < 0x100_0000 ==> 0 <= (v >> 7u32) < 0x2_0000) by (bit_vector);
    let mut r1: i32 = v >> 7u32;
    r1 = (r1 * 11275 + 0x80_0000) >> 24u32;
    let ghost r1c = r1;
    proof {
        assert(0 <= r1 <= 44 ==> r1 ^ (((43i32 - r1) as i32 >> 31u32) & r1) == (if r1 > 43 { 0i32 } else { r1 })) by (bit_vector);
        lemma_centered_mod(rp as int, r1 as int, rp - r1 * 190_464);
    }
    r1 = r1 ^ (((43 - r1) >> 31u32) & r1);
    let r0: i32 = rp - r1 * 2 * 95_232;
    let d: i32 = 4_190_208 - r0;
    proof {
        lemma_sign_mask(d);
    }
    let r0 = r0 - ((d >> 31u32) & 8_380_417);
    proof {
        if r1c <= 43 {
            lemma_fundamental_div_mod_converse(rp - (rp - r1c * 190_464), 190_464, r1c as int, 0);
        }
    }
    (r1, r0)
}

/// FIPS 204 `UseHint` for gamma2 = (Q-1)/88.
pub open spec fn spec_use_hint(hint: int, r: int) -> int {
    let (r1, r0) = spec_decompose(r);
    if hint == 0 {
        r1
    } else if r0 > 0 {
        if r1 == 43 { 0 } else { r1 + 1 }
    } else {
        if r1 == 0 { 43 } else { r1 - 1 }
    }
}

pub fn use_hint(hint: i32, r: i32) -> (out: i32)
    requires
        r <= i32::MAX - 0x40_0000,
    ensures
        out == spec_use_hint(hint as int, r as int),
        0 <= out <= 43,
{
    let (r1, r0) = decompose(r);
    if hint == 0 {
        return r1;
    }
    if r0 > 0 {
        if r1 == 43 { 0 } else { r1 + 1 }
    } else if r1 == 0 {
        43
    } else {
        r1 - 1
    }
}

} // verus!

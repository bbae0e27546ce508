//! Number-theoretic transform over Z_q[X]/(X^256 + 1) for ML-DSA-44.
use vstd::prelude::*;
use vstd::arithmetic::power::pow;
use crate::mldsa44::arith::{
    q, r32, cong, mont_reduce, full_reduce32, spec_mont_reduce, lemma_cong_mul, lemma_cong_add, lemma_cong_mod,
    lemma_cong_trans, lemma_cancel_r32, lemma_multiple_cong, lemma_cong_canonical,
};

verus! {

/// Primitive 512-th root of unity modulo Q.
pub const ZETA: i32 = 1753;

/// Bit reversal of an 8-bit index.
#[verifier::opaque]
pub open spec fn spec_brv8(x: u8) -> u8 {
    ((x & 1) << 7u8) | ((x & 2) << 5u8) | ((x & 4) << 3u8) | ((x & 8) << 1u8) | ((x & 16) >> 1u8)
        | ((x & 32) >> 3u8) | ((x & 64) >> 5u8) | ((x & 128) >> 7u8)
}

pub fn bit_reverse8(x: u8) -> (r: u8)
    ensures
        r == spec_brv8(x),
{
    reveal(spec_brv8);
    ((x & 1) << 7u8) | ((x & 2) << 5u8) | ((x & 4) << 3u8) | ((x & 8) << 1u8) | ((x & 16) >> 1u8)
        | ((x & 32) >> 3u8) | ((x & 64) >> 5u8) | ((x & 128) >> 7u8)
}

/// Bit reversal is an involution on 8-bit indices.
pub proof fn lemma_brv8_involution(x: u8)
    ensures
        spec_brv8(spec_brv8(x)) == x,
{
    reveal(spec_brv8);
    let y = spec_brv8(x);
    assert(y == ((x & 1) << 7u8) | ((x & 2) << 5u8) | ((x & 4) << 3u8) | ((x & 8) << 1u8) | ((x & 16) >> 1u8)
        | ((x & 32) >> 3u8) | ((x & 64) >> 5u8) | ((x & 128) >> 7u8));
    assert(spec_brv8(y) == ((y & 1) << 7u8) | ((y & 2) << 5u8) | ((y & 4) << 3u8) | ((y & 8) << 1u8) | ((y & 16) >> 1u8)
        | ((y & 32) >> 3u8) | ((y & 64) >> 5u8) | ((y & 128) >> 7u8));
    assert(y == ((x & 1) << 7u8) | ((x & 2) << 5u8) | ((x & 4) << 3u8) | ((x & 8) << 1u8) | ((x & 16) >> 1u8)
        | ((x & 32) >> 3u8) | ((x & 64) >> 5u8) | ((x & 128) >> 7u8) ==>
        ((y & 1) << 7u8) | ((y & 2) << 5u8) | ((y & 4) << 3u8) | ((y & 8) << 1u8) | ((y & 16) >> 1u8)
        | ((y & 32) >> 3u8) | ((y & 64) >> 5u8) | ((y & 128) >> 7u8) == x) by (bit_vector);
}

/// `zeta^i * 2^32 mod Q`, the Montgomery form of the i-th power of the root of unity.
pub open spec fn spec_zeta_mont(i: nat) -> int {
    ((pow(ZETA as int, i) % q()) * r32()) % q()
}

/// Twiddle table: entry `k` holds the Montgomery form of `zeta^brv(k)`.
pub fn gen_zeta_table_mont() -> (table: [i32; 256])
    ensures
        forall|k: int| 0 <= k < 256 ==> #[trigger] table@[k] == spec_zeta_mont(spec_brv8(k as u8) as nat),
        forall|k: int| 0 <= k < 256 ==> 0 <= #[trigger] table@[k] < q(),
{
    let mut result = [0i32; 256];
    let mut x: i64 = 1;
    let mut i: u32 = 0;
    assert(pow(ZETA as int, 0) == 1) by {
        reveal_with_fuel(pow, 1);
    }
    while i < 256
        invariant
            i <= 256,
            x == pow(ZETA as int, i as nat) % q(),
            forall|j: u8| j < i ==> result@[spec_brv8(j) as int] == spec_zeta_mont(j as nat),
            forall|k: int| 0 <= k < 256 ==> 0 <= #[trigger] result@[k] < q(),
        decreases 256 - i,
    {
        let idx = bit_reverse8(i as u8);
        let v: i64 = (x * 0x1_0000_0000i64) % 8_380_417i64;
        proof {
            assert forall|j: u8| j < i implies spec_brv8(j) != idx by {
                lemma_brv8_involution(j);
                lemma_brv8_involution(i as u8);
            }
        }
        result[idx as usize] = v as i32;
        proof {
            vstd::arithmetic::div_mod::lemma_mul_mod_noop_left(pow(ZETA as int, i as nat), ZETA as int, q());
            reveal(pow);
            assert(pow(ZETA as int, (i + 1) as nat) == ZETA * pow(ZETA as int, i as nat));
            vstd::arithmetic::mul::lemma_mul_is_commutative(ZETA as int, pow(ZETA as int, i as nat));
        }
        x = (x * 1753i64) % 8_380_417i64;
        i += 1;
    }
    assert forall|k: int| 0 <= k < 256 implies #[trigger] result@[k] == spec_zeta_mont(spec_brv8(k as u8) as nat) by {
        lemma_brv8_involution(k as u8);
        assert(spec_brv8(k as u8) < 256);
    }
    result
}

} // verus!

verus! {

/// Butterfly distance used in the layer with the given index (`128 >> layer`).
pub open spec fn layer_len(layer: int) -> int {
    if layer == 0 {
        128
    } else if layer == 1 {
        64
    } else if layer == 2 {
        32
    } else if layer == 3 {
        16
    } else if layer == 4 {
        8
    } else if layer == 5 {
        4
    } else if layer == 6 {
        2
    } else if layer == 7 {
        1
    } else {
        0
    }
}

/// `zeta^brv(m) mod Q`: the twiddle factor of step `m` of FIPS 204 Algorithms 41 and 42.
pub open spec fn twiddle(m: int) -> int {
    pow(ZETA as int, spec_brv8(m as u8) as nat) % q()
}

/// One layer of FIPS 204 Algorithm 41 (NTT): butterflies at distance `layer_len(layer)`,
/// block `b` using the twiddle of step `128 / len + b`.
#[verifier::opaque]
pub open spec fn ntt_layer(w: Seq<int>, layer: int) -> Seq<int> {
    let len = layer_len(layer);
    Seq::new(256, |k: int| {
        let z = twiddle(128int / len + k / (2 * len));
        if k % (2 * len) < len { w[k] + z * w[k + len] } else { w[k - len] - z * w[k] }
    })
}

/// One layer of the forward transform as computed here: the twiddle product of each
/// butterfly is the Montgomery reduction of the table twiddle times the partner coefficient.
#[verifier::opaque]
pub open spec fn ntt_layer_exact(w: Seq<int>, layer: int) -> Seq<int> {
    let len = layer_len(layer);
    Seq::new(256, |k: int| {
        let z = spec_zeta_mont(spec_brv8((128int / len + k / (2 * len)) as u8) as nat);
        if k % (2 * len) < len { w[k] + spec_mont_reduce(z * w[k + len]) } else { w[k - len] - spec_mont_reduce(z * w[k]) }
    })
}

/// The first `layers` layers of the forward transform as computed here.
pub open spec fn ntt_exact_upto(a: Seq<int>, layers: nat) -> Seq<int>
    decreases layers,
{
    if layers == 0 { a } else { ntt_layer_exact(ntt_exact_upto(a, (layers - 1) as nat), layers - 1) }
}

/// The coefficients the forward transform computes for `a` (each congruent to `spec_ntt`).
pub open spec fn spec_ntt_exact(a: Seq<int>) -> Seq<int> {
    ntt_exact_upto(a, 8)
}

/// The two outputs of the computed butterfly at offset `i` of block `block` in a layer.
proof fn lemma_ntt_layer_exact_at(w: Seq<int>, layer: int, block: int, i: int)
    requires
        0 <= layer < 8,
        0 <= block,
        0 <= i < layer_len(layer),
        2 * block * layer_len(layer) + 2 * layer_len(layer) <= 256,
    ensures
        ({
            let l = layer_len(layer);
            let k = 2 * block * l + i;
            let z = spec_zeta_mont(spec_brv8((128int / l + block) as u8) as nat);
            &&& ntt_layer_exact(w, layer)[k] == w[k] + spec_mont_reduce(z * w[k + l])
            &&& ntt_layer_exact(w, layer)[k + l] == w[k] - spec_mont_reduce(z * w[k + l])
        }),
{
    let l = layer_len(layer);
    assert(l >= 1) by {
        if layer == 0 {} else if layer == 1 {} else if layer == 2 {} else if layer == 3 {}
        else if layer == 4 {} else if layer == 5 {} else if layer == 6 {} else {}
    }
    let k = 2 * block * l + i;
    assert(k == block * (2 * l) + i) by (nonlinear_arith)
        requires
            k == 2 * block * l + i,
    ;
    vstd::arithmetic::div_mod::lemma_fundamental_div_mod_converse(k, 2 * l, block, i);
    vstd::arithmetic::div_mod::lemma_fundamental_div_mod_converse(k + l, 2 * l, block, i + l);
    assert(0 <= k && k + l < 256) by (nonlinear_arith)
        requires
            k == 2 * block * l + i,
            0 <= block,
            0 <= i < l,
            2 * block * l + 2 * l <= 256,
    ;
    reveal(ntt_layer_exact);
    assert(ntt_layer_exact(w, layer)[k + l] == w[k + l - l] - spec_mont_reduce(spec_zeta_mont(spec_brv8((128int / l + block) as u8) as nat) * w[k + l]));
}

/// The first `layers` layers of Algorithm 41 applied to `a`.
pub open spec fn ntt_upto(a: Seq<int>, layers: nat) -> Seq<int>
    decreases layers,
{
    if layers == 0 { a } else { ntt_layer(ntt_upto(a, (layers - 1) as nat), layers - 1) }
}

/// FIPS 204 `NTT` (Algorithm 41) of a polynomial, over the integers; equal modulo Q to the
/// standard's output.
pub open spec fn spec_ntt(a: Seq<int>) -> Seq<int> {
    ntt_upto(a, 8)
}

/// Two polynomials whose coefficients agree modulo Q.
pub open spec fn poly_cong(x: Seq<int>, y: Seq<int>) -> bool {
    forall|k: int| 0 <= k < 256 ==> #[trigger] cong(x[k], y[k])
}

/// The coefficients of a machine polynomial as integers.
pub open spec fn poly_ints(p: Seq<i32>) -> Seq<int> {
    Seq::new(256, |k: int| p[k] as int)
}

/// Where a butterfly of a layer reads its partner: `k + len` in the lower half of a block,
/// `k - len` in the upper half; both stay inside `[0, 256)`.
proof fn lemma_layer_index(layer: int, k: int)
    requires
        0 <= layer < 8,
        0 <= k < 256,
    ensures
        layer_len(layer) >= 1,
        k % (2 * layer_len(layer)) < layer_len(layer) ==> k + layer_len(layer) < 256,
        k % (2 * layer_len(layer)) >= layer_len(layer) ==> k - layer_len(layer) >= 0,
{
    let d = 2 * layer_len(layer);
    assert(d > 0) by {
        if layer == 0 {} else if layer == 1 {} else if layer == 2 {} else if layer == 3 {}
        else if layer == 4 {} else if layer == 5 {} else if layer == 6 {} else {}
    }
    vstd::arithmetic::div_mod::lemma_fundamental_div_mod(k, d);
    vstd::arithmetic::div_mod::lemma_mod_bound(k, d);
    let e = 128int / layer_len(layer);
    assert(256 == d * e) by {
        if layer == 0 {
            assert(d == 256 && e == 1);
        } else if layer == 1 {
            assert(d == 128 && e == 2);
        } else if layer == 2 {
            assert(d == 64 && e == 4);
        } else if layer == 3 {
            assert(d == 32 && e == 8);
        } else if layer == 4 {
            assert(d == 16 && e == 16);
        } else if layer == 5 {
            assert(d == 8 && e == 32);
        } else if layer == 6 {
            assert(d == 4 && e == 64);
        } else {
            assert(d == 2 && e == 128);
        }
    }
    let qq = k / d;
    let r = k % d;
    let len = layer_len(layer);
    assert(r < len ==> k + len < 256) by (nonlinear_arith)
        requires
            0 <= k < 256,
            d > 0,
            d == 2 * len,
            256 == d * e,
            k == d * qq + r,
            0 <= r,
    {
        if r < len {
            assert(d * qq < d * e);
            assert(qq < e);
            assert(qq <= e - 1);
            assert(d * qq <= d * (e - 1));
        }
    }
    if layer == 0 {} else if layer == 1 {} else if layer == 2 {} else if layer == 3 {}
    else if layer == 4 {} else if layer == 5 {} else if layer == 6 {} else {}
}

/// A layer maps congruent inputs to congruent outputs.
proof fn lemma_ntt_layer_cong(x: Seq<int>, y: Seq<int>, layer: int)
    requires
        0 <= layer < 8,
        poly_cong(x, y),
    ensures
        poly_cong(ntt_layer(x, layer), ntt_layer(y, layer)),
{
    let len = layer_len(layer);
    reveal(ntt_layer);
    assert forall|k: int| 0 <= k < 256 implies #[trigger] cong(ntt_layer(x, layer)[k], ntt_layer(y, layer)[k]) by {
        lemma_layer_index(layer, k);
        let z = twiddle(128int / len + k / (2 * len));
        if k % (2 * len) < len {
            assert(cong(x[k + len], y[k + len]));
            lemma_cong_mul(x[k + len], y[k + len], z);
            lemma_cong_add(x[k], y[k], z * x[k + len], z * y[k + len]);
        } else {
            assert(cong(x[k - len], y[k - len]));
            lemma_cong_mul(x[k], y[k], z);
            lemma_cong_add(x[k - len], y[k - len], z * x[k], z * y[k]);
        }
    }
}

/// Every stage of the transform maps congruent inputs to congruent outputs.
pub proof fn lemma_ntt_upto_cong(x: Seq<int>, y: Seq<int>, layers: nat)
    requires
        layers <= 8,
        poly_cong(x, y),
    ensures
        poly_cong(ntt_upto(x, layers), ntt_upto(y, layers)),
    decreases layers,
{
    if layers > 0 {
        lemma_ntt_upto_cong(x, y, (layers - 1) as nat);
        lemma_ntt_layer_cong(ntt_upto(x, (layers - 1) as nat), ntt_upto(y, (layers - 1) as nat), layers - 1);
    }
}

/// The two outputs of the butterfly at offset `i` of block `block` in a layer.
proof fn lemma_ntt_layer_at(w: Seq<int>, layer: int, block: int, i: int)
    requires
        0 <= layer < 8,
        0 <= block,
        0 <= i < layer_len(layer),
        2 * block * layer_len(layer) + 2 * layer_len(layer) <= 256,
    ensures
        ntt_layer(w, layer)[2 * block * layer_len(layer) + i]
            == w[2 * block * layer_len(layer) + i] + twiddle(128int / layer_len(layer) + block) * w[2 * block * layer_len(layer) + i + layer_len(layer)],
        ntt_layer(w, layer)[2 * block * layer_len(layer) + i + layer_len(layer)]
            == w[2 * block * layer_len(layer) + i] - twiddle(128int / layer_len(layer) + block) * w[2 * block * layer_len(layer) + i + layer_len(layer)],
{
    let l = layer_len(layer);
    assert(l >= 1) by {
        if layer == 0 {} else if layer == 1 {} else if layer == 2 {} else if layer == 3 {}
        else if layer == 4 {} else if layer == 5 {} else if layer == 6 {} else {}
    }
    let k = 2 * block * l + i;
    assert(k == block * (2 * l) + i) by (nonlinear_arith)
        requires
            k == 2 * block * l + i,
    ;
    vstd::arithmetic::div_mod::lemma_fundamental_div_mod_converse(k, 2 * l, block, i);
    vstd::arithmetic::div_mod::lemma_fundamental_div_mod_converse(k + l, 2 * l, block, i + l);
    assert(0 <= k && k + l < 256) by (nonlinear_arith)
        requires
            k == 2 * block * l + i,
            0 <= block,
            0 <= i < l,
            2 * block * l + 2 * l <= 256,
    ;
    reveal(ntt_layer);
    assert(ntt_layer(w, layer)[k] == w[k] + twiddle(128int / l + block) * w[k + l]);
    assert(ntt_layer(w, layer)[k + l] == w[k + l - l] - twiddle(128int / l + block) * w[k + l]);
}

/// The Montgomery product of a table twiddle and `b` is the twiddle times `b`, modulo Q.
proof fn lemma_twiddle_mont(t: int, m: int, b: int)
    requires
        0 <= m < 256,
        cong(t * r32(), spec_zeta_mont(spec_brv8(m as u8) as nat) * b),
    ensures
        cong(t, twiddle(m) * b),
{
    let tw = twiddle(m);
    let zm = spec_zeta_mont(spec_brv8(m as u8) as nat);
    assert(zm == (tw * r32()) % q());
    lemma_cong_mod(tw * r32());
    lemma_cong_mul(zm, tw * r32(), b);
    assert(tw * r32() * b == (tw * b) * r32()) by (nonlinear_arith);
    lemma_cong_trans(t * r32(), zm * b, (tw * b) * r32());
    lemma_cancel_r32(t, tw * b);
}

/// Largest coefficient magnitude accepted by the forward transform.
pub open spec fn ntt_in_bound() -> int {
    q()
}

/// Coefficient bound after the given number of forward layers.
pub open spec fn ntt_layer_bound(layer: int) -> int {
    ntt_in_bound() + layer * 4_400_000
}

/// Coefficient bound of the forward transform's output.
pub open spec fn ntt_out_bound() -> int {
    ntt_layer_bound(8)
}

proof fn lemma_twiddle_product(zeta: int, b: int, bound: int)
    requires
        0 <= zeta < q(),
        -bound <= b <= bound,
        0 <= bound,
    ensures
        -q() * bound <= zeta * b <= q() * bound,
{
    assert(-q() * bound <= zeta * b <= q() * bound) by (nonlinear_arith)
        requires
            0 <= zeta < q(),
            -bound <= b <= bound,
            0 <= bound,
    ;
}

/// Forward NTT (Cooley-Tukey butterflies, twiddles in Montgomery form): the result agrees
/// modulo Q with FIPS 204 `NTT` (Algorithm 41) of the input.
pub fn ntt(poly: &mut [i32])
    requires
        old(poly)@.len() == 256,
        forall|k: int| 0 <= k < 256 ==> -ntt_in_bound() <= #[trigger] old(poly)@[k] <= ntt_in_bound(),
    ensures
        final(poly)@.len() == 256,
        forall|k: int| 0 <= k < 256 ==> -ntt_out_bound() <= #[trigger] final(poly)@[k] <= ntt_out_bound(),
        poly_cong(poly_ints(final(poly)@), spec_ntt(poly_ints(old(poly)@))),
        poly_ints(final(poly)@) == spec_ntt_exact(poly_ints(old(poly)@)),
{
    let ghost a0 = poly_ints(poly@);
    let zetas = gen_zeta_table_mont();
    let mut m: usize = 0;
    let mut len: usize = 128;
    let ghost mut layer: int = 0;
    proof {
        assert forall|k: int| 0 <= k < 256 implies #[trigger] cong(poly_ints(poly@)[k], ntt_upto(a0, 0)[k]) by {}
    }
    while len >= 1
        invariant
            0 <= layer <= 8,
            len == layer_len(layer),
            len >= 1 ==> m + 1 == 128int / (len as int),
            poly@.len() == 256,
            forall|k: int| 0 <= k < 256 ==> 0 <= #[trigger] zetas@[k] < q(),
            forall|k: int| 0 <= k < 256 ==> #[trigger] zetas@[k] == spec_zeta_mont(spec_brv8(k as u8) as nat),
            forall|k: int| 0 <= k < 256 ==> -ntt_layer_bound(layer) <= #[trigger] poly@[k] <= ntt_layer_bound(layer),
            poly_cong(poly_ints(poly@), ntt_upto(a0, layer as nat)),
            poly_ints(poly@) == ntt_exact_upto(a0, layer as nat),
        decreases len,
    {
        let ghost prev = poly_ints(poly@);
        let mut start: usize = 0;
        let ghost mut block: int = 0;
        while start < 256
            invariant
                0 <= layer < 8,
                len == layer_len(layer),
                start == 2 * block * len,
                0 <= block <= 128int / (len as int),
                m + 1 == 128int / (len as int) + block,
                poly@.len() == 256,
                forall|k: int| 0 <= k < 256 ==> 0 <= #[trigger] zetas@[k] < q(),
                forall|k: int| 0 <= k < 256 ==> #[trigger] zetas@[k] == spec_zeta_mont(spec_brv8(k as u8) as nat),
                forall|k: int| 0 <= k < 256 ==> -(if k < start { ntt_layer_bound(layer + 1) } else { ntt_layer_bound(layer) }) <= #[trigger] poly@[k] <= (if k < start { ntt_layer_bound(layer + 1) } else { ntt_layer_bound(layer) }),
                forall|k: int| 0 <= k < 256 ==> (if k < start { cong(#[trigger] poly@[k] as int, ntt_layer(prev, layer)[k]) } else { poly@[k] as int == prev[k] }),
                forall|k: int| 0 <= k < start ==> #[trigger] poly@[k] as int == ntt_layer_exact(prev, layer)[k],
            decreases 256 - start,
        {
            m += 1;
            let zeta: i64 = zetas[m] as i64;
            let mut j: usize = start;
            while j < start + len
                invariant
                    0 <= layer < 8,
                    len == layer_len(layer),
                    start == 2 * block * len,
                    0 <= block < 128int / (len as int),
                    m == 128int / (len as int) + block,
                    0 <= m < 256,
                    start <= j <= start + len,
                    start + 2 * len <= 256,
                    0 <= zeta < q(),
                    zeta == spec_zeta_mont(spec_brv8(m as u8) as nat),
                    poly@.len() == 256,
                    forall|k: int| 0 <= k < 256 ==> -(if k < j || (start + len <= k < j + len) { ntt_layer_bound(layer + 1) } else { ntt_layer_bound(layer) }) <= #[trigger] poly@[k] <= (if k < j || (start + len <= k < j + len) { ntt_layer_bound(layer + 1) } else { ntt_layer_bound(layer) }),
                    forall|k: int| 0 <= k < 256 ==> (if k < j || (start + len <= k < j + len) { cong(#[trigger] poly@[k] as int, ntt_layer(prev, layer)[k]) } else { poly@[k] as int == prev[k] }),
                    forall|k: int| 0 <= k < 256 && (k < j || (start + len <= k < j + len)) ==> #[trigger] poly@[k] as int == ntt_layer_exact(prev, layer)[k],
                decreases start + len - j,
            {
                let b: i32 = poly[j + len];
                let a: i32 = poly[j];
                proof {
                    lemma_twiddle_product(zeta as int, b as int, ntt_layer_bound(layer));
                }
                let t = mont_reduce(zeta * (b as i64));
                proof {
                    let l = len as int;
                    lemma_twiddle_mont(t as int, m as int, b as int);
                    lemma_ntt_layer_at(prev, layer, block, j - start);
                    lemma_ntt_layer_exact_at(prev, layer, block, j - start);
                    assert(ntt_layer(prev, layer)[j as int] == prev[j as int] + twiddle(m as int) * prev[j + l]);
                    assert(ntt_layer(prev, layer)[j + l] == prev[j as int] - twiddle(m as int) * prev[j + l]);
                    lemma_cong_add(a as int, a as int, t as int, twiddle(m as int) * (b as int));
                }
                poly[j + len] = a - t;
                poly[j] = a + t;
                j += 1;
            }
            start += 2 * len;
            proof {
                block = block + 1;
            }
        }
        proof {
            assert(block == 128int / (len as int)) by {
                if layer == 0 {} else if layer == 1 {} else if layer == 2 {} else if layer == 3 {}
                else if layer == 4 {} else if layer == 5 {} else if layer == 6 {} else {}
            }
        }
        proof {
            assert(layer_len(layer + 1) >= 1 ==> m + 1 == 128int / layer_len(layer + 1)) by {
                if layer == 0 {} else if layer == 1 {} else if layer == 2 {} else if layer == 3 {}
                else if layer == 4 {} else if layer == 5 {} else if layer == 6 {} else {}
            }
            assert(len / 2 == layer_len(layer + 1)) by {
                if layer == 0 {} else if layer == 1 {} else if layer == 2 {} else if layer == 3 {}
                else if layer == 4 {} else if layer == 5 {} else if layer == 6 {} else {}
            }
            lemma_ntt_layer_cong(prev, ntt_upto(a0, layer as nat), layer);
            assert(ntt_upto(a0, (layer + 1) as nat) == ntt_layer(ntt_upto(a0, layer as nat), layer));
            assert forall|k: int| 0 <= k < 256 implies #[trigger] cong(poly_ints(poly@)[k], ntt_upto(a0, (layer + 1) as nat)[k]) by {
                assert(cong(poly@[k] as int, ntt_layer(prev, layer)[k]));
                assert(cong(ntt_layer(prev, layer)[k], ntt_layer(ntt_upto(a0, layer as nat), layer)[k]));
                lemma_cong_trans(poly@[k] as int, ntt_layer(prev, layer)[k], ntt_upto(a0, (layer + 1) as nat)[k]);
            }
            assert(ntt_exact_upto(a0, (layer + 1) as nat) == ntt_layer_exact(prev, layer));
            assert(poly_ints(poly@) =~= ntt_layer_exact(prev, layer)) by {
                reveal(ntt_layer_exact);
            }
        }
        len = len / 2;
        proof {
            layer = layer + 1;
        }
    }
}

} // verus!

verus! {

/// Butterfly distance of the inverse transform's layer with the given index (`1 << layer`).
pub open spec fn inv_layer_len(layer: int) -> int {
    if layer == 0 {
        1
    } else if layer == 1 {
        2
    } else if layer == 2 {
        4
    } else if layer == 3 {
        8
    } else if layer == 4 {
        16
    } else if layer == 5 {
        32
    } else if layer == 6 {
        64
    } else if layer == 7 {
        128
    } else {
        256
    }
}

/// Number of twiddles the inverse transform has left before the layer with the given index.
pub open spec fn inv_layer_blocks(layer: int) -> int {
    256int / inv_layer_len(layer)
}

/// One layer of FIPS 204 Algorithm 42 (inverse NTT): butterflies at distance
/// `inv_layer_len(layer)`, block `b` using the negated twiddle of step `256 / len - 1 - b`.
#[verifier::opaque]
pub open spec fn intt_layer(w: Seq<int>, layer: int) -> Seq<int> {
    let len = inv_layer_len(layer);
    Seq::new(256, |k: int| {
        let z = -twiddle(256int / len - 1 - k / (2 * len));
        if k % (2 * len) < len { w[k] + w[k + len] } else { z * (w[k - len] - w[k]) }
    })
}

/// The first `layers` layers of Algorithm 42 applied to `a`.
pub open spec fn intt_upto(a: Seq<int>, layers: nat) -> Seq<int>
    decreases layers,
{
    if layers == 0 { a } else { intt_layer(intt_upto(a, (layers - 1) as nat), layers - 1) }
}

/// `256^-1 mod Q`, the final scaling of Algorithm 42.
pub open spec fn inv_256() -> int {
    8_347_681
}

/// FIPS 204 `NTT^-1` (Algorithm 42) of a polynomial, over the integers; equal modulo Q to
/// the standard's output.
pub open spec fn spec_intt(a: Seq<int>) -> Seq<int> {
    Seq::new(256, |k: int| inv_256() * intt_upto(a, 8)[k])
}

proof fn lemma_inv_layer_index(layer: int, k: int)
    requires
        0 <= layer < 8,
        0 <= k < 256,
    ensures
        inv_layer_len(layer) >= 1,
        k % (2 * inv_layer_len(layer)) < inv_layer_len(layer) ==> k + inv_layer_len(layer) < 256,
        k % (2 * inv_layer_len(layer)) >= inv_layer_len(layer) ==> k - inv_layer_len(layer) >= 0,
{
    let len = inv_layer_len(layer);
    let d = 2 * len;
    let e = 128int / len;
    assert(len >= 1 && 256 == d * e) by {
        if layer == 0 {
            assert(d == 2 && e == 128);
        } else if layer == 1 {
            assert(d == 4 && e == 64);
        } else if layer == 2 {
            assert(d == 8 && e == 32);
        } else if layer == 3 {
            assert(d == 16 && e == 16);
        } else if layer == 4 {
            assert(d == 32 && e == 8);
        } else if layer == 5 {
            assert(d == 64 && e == 4);
        } else if layer == 6 {
            assert(d == 128 && e == 2);
        } else {
            assert(d == 256 && e == 1);
        }
    }
    vstd::arithmetic::div_mod::lemma_fundamental_div_mod(k, d);
    vstd::arithmetic::div_mod::lemma_mod_bound(k, d);
    let qq = k / d;
    let r = k % d;
    assert(r < len ==> k + len < 256) by (nonlinear_arith)
        requires
            0 <= k < 256,
            d > 0,
            d == 2 * len,
            256 == d * e,
            k == d * qq + r,
            0 <= r,
    {
        if r < len {
            assert(d * qq < d * e);
            assert(qq < e);
            assert(qq <= e - 1);
            assert(d * qq <= d * (e - 1));
        }
    }
    assert(r >= len ==> k - len >= 0) by (nonlinear_arith)
        requires
            0 <= k < 256,
            d > 0,
            k == d * qq + r,
            0 <= r,
            r < d,
    {
        if r >= len {
            assert(qq >= 0) by {
                if qq < 0 {
                    assert(d * qq <= -d);
                }
            }
            assert(d * qq >= 0);
        }
    }
}

/// An inverse layer maps congruent inputs to congruent outputs.
proof fn lemma_intt_layer_cong(x: Seq<int>, y: Seq<int>, layer: int)
    requires
        0 <= layer < 8,
        poly_cong(x, y),
    ensures
        poly_cong(intt_layer(x, layer), intt_layer(y, layer)),
{
    let len = inv_layer_len(layer);
    reveal(intt_layer);
    assert forall|k: int| 0 <= k < 256 implies #[trigger] cong(intt_layer(x, layer)[k], intt_layer(y, layer)[k]) by {
        lemma_inv_layer_index(layer, k);
        let z = -twiddle(256int / len - 1 - k / (2 * len));
        if k % (2 * len) < len {
            assert(cong(x[k + len], y[k + len]));
            lemma_cong_add(x[k], y[k], x[k + len], y[k + len]);
        } else {
            assert(cong(x[k - len], y[k - len]));
            lemma_cong_add(x[k - len], y[k - len], x[k], y[k]);
            lemma_cong_mul(x[k - len] - x[k], y[k - len] - y[k], z);
        }
    }
}

/// Every stage of the inverse transform maps congruent inputs to congruent outputs.
pub proof fn lemma_intt_upto_cong(x: Seq<int>, y: Seq<int>, layers: nat)
    requires
        layers <= 8,
        poly_cong(x, y),
    ensures
        poly_cong(intt_upto(x, layers), intt_upto(y, layers)),
    decreases layers,
{
    if layers > 0 {
        lemma_intt_upto_cong(x, y, (layers - 1) as nat);
        lemma_intt_layer_cong(intt_upto(x, (layers - 1) as nat), intt_upto(y, (layers - 1) as nat), layers - 1);
    }
}

/// The inverse transform maps congruent inputs to congruent outputs.
pub proof fn lemma_intt_cong(x: Seq<int>, y: Seq<int>)
    requires
        poly_cong(x, y),
    ensures
        poly_cong(spec_intt(x), spec_intt(y)),
{
    lemma_intt_upto_cong(x, y, 8);
    assert forall|k: int| 0 <= k < 256 implies #[trigger] cong(spec_intt(x)[k], spec_intt(y)[k]) by {
        lemma_cong_mul(intt_upto(x, 8)[k], intt_upto(y, 8)[k], inv_256());
    }
}

/// The two outputs of the inverse butterfly at offset `i` of block `block` in a layer.
proof fn lemma_intt_layer_at(w: Seq<int>, layer: int, block: int, i: int)
    requires
        0 <= layer < 8,
        0 <= block,
        0 <= i < inv_layer_len(layer),
        2 * block * inv_layer_len(layer) + 2 * inv_layer_len(layer) <= 256,
    ensures
        intt_layer(w, layer)[2 * block * inv_layer_len(layer) + i]
            == w[2 * block * inv_layer_len(layer) + i] + w[2 * block * inv_layer_len(layer) + i + inv_layer_len(layer)],
        intt_layer(w, layer)[2 * block * inv_layer_len(layer) + i + inv_layer_len(layer)]
            == -twiddle(256int / inv_layer_len(layer) - 1 - block) * (w[2 * block * inv_layer_len(layer) + i] - w[2 * block * inv_layer_len(layer) + i + inv_layer_len(layer)]),
{
    let l = inv_layer_len(layer);
    assert(l >= 1) by {
        if layer == 0 {} else if layer == 1 {} else if layer == 2 {} else if layer == 3 {}
        else if layer == 4 {} else if layer == 5 {} else if layer == 6 {} else {}
    }
    let k = 2 * block * l + i;
    assert(k == block * (2 * l) + i) by (nonlinear_arith)
        requires
            k == 2 * block * l + i,
    ;
    vstd::arithmetic::div_mod::lemma_fundamental_div_mod_converse(k, 2 * l, block, i);
    vstd::arithmetic::div_mod::lemma_fundamental_div_mod_converse(k + l, 2 * l, block, i + l);
    assert(0 <= k && k + l < 256) by (nonlinear_arith)
        requires
            k == 2 * block * l + i,
            0 <= block,
            0 <= i < l,
            2 * block * l + 2 * l <= 256,
    ;
    reveal(intt_layer);
    assert(intt_layer(w, layer)[k] == w[k] + w[k + l]);
    assert(intt_layer(w, layer)[k + l] == -twiddle(256int / l - 1 - block) * (w[k + l - l] - w[k + l]));
}

proof fn lemma_inv_twiddle_product(zeta: int, b: int)
    requires
        -q() < zeta <= 0,
        -256 * q() <= b <= 256 * q(),
    ensures
        -0x8000_0000 * q() <= zeta * b < 0x8000_0000 * q(),
{
    assert(-0x8000_0000 * q() <= zeta * b < 0x8000_0000 * q()) by (nonlinear_arith)
        requires
            -q() < zeta <= 0,
            -256 * q() <= b <= 256 * q(),
    ;
}

/// The final scaling step: a Montgomery product with `16382` multiplies by `256^-1`.
proof fn lemma_scale_inv_256(r: int, c: int, u: int)
    requires
        cong(r * r32(), 16_382 * c),
        cong(c, u),
    ensures
        cong(r, inv_256() * u),
{
    lemma_multiple_cong(16_382, inv_256() * r32(), -4_278_190_082);
    lemma_cong_mul(16_382, inv_256() * r32(), c);
    assert(inv_256() * r32() * c == (inv_256() * c) * r32()) by (nonlinear_arith);
    lemma_cong_trans(r * r32(), 16_382 * c, (inv_256() * c) * r32());
    lemma_cancel_r32(r, inv_256() * c);
    lemma_cong_mul(c, u, inv_256());
    lemma_cong_trans(r, c * inv_256(), u * inv_256());
}

/// Inverse NTT (Gentleman-Sande butterflies) followed by the scaling `2^32 / 256`: the result
/// is FIPS 204 `NTT^-1` (Algorithm 42) of the input, fully reduced into `[0, Q)`.
pub fn inv_ntt(poly: &mut [i32])
    requires
        old(poly)@.len() == 256,
        forall|k: int| 0 <= k < 256 ==> -q() <= #[trigger] old(poly)@[k] <= q(),
    ensures
        final(poly)@.len() == 256,
        forall|k: int| 0 <= k < 256 ==> 0 <= #[trigger] final(poly)@[k] < q(),
        forall|k: int| 0 <= k < 256 ==> #[trigger] final(poly)@[k] == spec_intt(poly_ints(old(poly)@))[k] % q(),
{
    let ghost a0 = poly_ints(poly@);
    let zetas = gen_zeta_table_mont();
    let mut m: usize = 256;
    let mut len: usize = 1;
    let ghost mut layer: int = 0;
    proof {
        assert forall|k: int| 0 <= k < 256 implies #[trigger] cong(poly_ints(poly@)[k], intt_upto(a0, 0)[k]) by {}
    }
    while len < 256
        invariant
            0 <= layer <= 8,
            len == inv_layer_len(layer),
            m == inv_layer_blocks(layer),
            poly@.len() == 256,
            forall|k: int| 0 <= k < 256 ==> 0 <= #[trigger] zetas@[k] < q(),
            forall|k: int| 0 <= k < 256 ==> #[trigger] zetas@[k] == spec_zeta_mont(spec_brv8(k as u8) as nat),
            forall|k: int| 0 <= k < 256 ==> -(len * q()) <= #[trigger] poly@[k] <= len * q(),
            poly_cong(poly_ints(poly@), intt_upto(a0, layer as nat)),
        decreases 256 - len,
    {
        let ghost prev = poly_ints(poly@);
        let mut start: usize = 0;
        let ghost mut block: int = 0;
        while start < 256
            invariant
                0 <= layer < 8,
                len == inv_layer_len(layer),
                start == 2 * block * len,
                start <= 256,
                0 <= block <= 128int / (len as int),
                m + block == inv_layer_blocks(layer),
                poly@.len() == 256,
                forall|k: int| 0 <= k < 256 ==> 0 <= #[trigger] zetas@[k] < q(),
                forall|k: int| 0 <= k < 256 ==> #[trigger] zetas@[k] == spec_zeta_mont(spec_brv8(k as u8) as nat),
                forall|k: int| 0 <= k < 256 ==> -(if k < start { 2 * len * q() } else { len * q() }) <= #[trigger] poly@[k] <= (if k < start { 2 * len * q() } else { len * q() }),
                forall|k: int| 0 <= k < 256 ==> (if k < start { cong(#[trigger] poly@[k] as int, intt_layer(prev, layer)[k]) } else { poly@[k] as int == prev[k] }),
            decreases 256 - start,
        {
            proof {
                assert(block < 128int / (len as int)) by {
                    if layer == 0 {} else if layer == 1 {} else if layer == 2 {} else if layer == 3 {}
                    else if layer == 4 {} else if layer == 5 {} else if layer == 6 {} else {}
                }
                assert(start + 2 * len <= 256) by {
                    if layer == 0 {} else if layer == 1 {} else if layer == 2 {} else if layer == 3 {}
                    else if layer == 4 {} else if layer == 5 {} else if layer == 6 {} else {}
                }
            }
            m -= 1;
            let zeta: i64 = -(zetas[m] as i64);
            let mut j: usize = start;
            while j < start + len
                invariant
                    0 <= layer < 8,
                    len == inv_layer_len(layer),
                    start == 2 * block * len,
                    0 <= block,
                    m == 256int / (len as int) - 1 - block,
                    0 <= m < 256,
                    start <= j <= start + len,
                    start + 2 * len <= 256,
                    -q() < zeta <= 0,
                    zeta == -spec_zeta_mont(spec_brv8(m as u8) as nat),
                    poly@.len() == 256,
                    forall|k: int| 0 <= k < 256 ==> -(if k < j || (start + len <= k < j + len) { 2 * len * q() } else { len * q() }) <= #[trigger] poly@[k] <= (if k < j || (start + len <= k < j + len) { 2 * len * q() } else { len * q() }),
                    forall|k: int| 0 <= k < 256 ==> (if k < j || (start + len <= k < j + len) { cong(#[trigger] poly@[k] as int, intt_layer(prev, layer)[k]) } else { poly@[k] as int == prev[k] }),
                decreases start + len - j,
            {
                let t: i32 = poly[j];
                let u: i32 = poly[j + len];
                let d: i32 = t - u;
                proof {
                    lemma_inv_twiddle_product(zeta as int, d as int);
                }
                let r = mont_reduce(zeta * (d as i64));
                proof {
                    let l = len as int;
                    let zm = spec_zeta_mont(spec_brv8(m as u8) as nat);
                    assert(zeta * (d as int) == zm * (-(d as int))) by (nonlinear_arith)
                        requires
                            zeta == -zm,
                    ;
                    lemma_twiddle_mont(r as int, m as int, -(d as int));
                    assert(twiddle(m as int) * (-(d as int)) == -twiddle(m as int) * (d as int)) by (nonlinear_arith);
                    lemma_intt_layer_at(prev, layer, block, j - start);
                    assert(intt_layer(prev, layer)[j as int] == prev[j as int] + prev[j + l]);
                    assert(intt_layer(prev, layer)[j + l] == -twiddle(m as int) * (prev[j as int] - prev[j + l]));
                }
                poly[j] = t + u;
                poly[j + len] = r;
                j += 1;
            }
            start += 2 * len;
            proof {
                block = block + 1;
            }
        }
        proof {
            assert(start == 256);
            assert(block == 128int / (len as int)) by {
                if layer == 0 {} else if layer == 1 {} else if layer == 2 {} else if layer == 3 {}
                else if layer == 4 {} else if layer == 5 {} else if layer == 6 {} else {}
            }
            assert(m == inv_layer_blocks(layer + 1)) by {
                if layer == 0 {} else if layer == 1 {} else if layer == 2 {} else if layer == 3 {}
                else if layer == 4 {} else if layer == 5 {} else if layer == 6 {} else {}
            }
            assert(2 * len == inv_layer_len(layer + 1)) by {
                if layer == 0 {} else if layer == 1 {} else if layer == 2 {} else if layer == 3 {}
                else if layer == 4 {} else if layer == 5 {} else if layer == 6 {} else {}
            }
            lemma_intt_layer_cong(prev, intt_upto(a0, layer as nat), layer);
            assert(intt_upto(a0, (layer + 1) as nat) == intt_layer(intt_upto(a0, layer as nat), layer));
            assert forall|k: int| 0 <= k < 256 implies #[trigger] cong(poly_ints(poly@)[k], intt_upto(a0, (layer + 1) as nat)[k]) by {
                assert(cong(poly@[k] as int, intt_layer(prev, layer)[k]));
                assert(cong(intt_layer(prev, layer)[k], intt_layer(intt_upto(a0, layer as nat), layer)[k]));
                lemma_cong_trans(poly@[k] as int, intt_layer(prev, layer)[k], intt_upto(a0, (layer + 1) as nat)[k]);
            }
        }
        len = 2 * len;
        proof {
            layer = layer + 1;
        }
    }
    let ghost transformed = intt_upto(a0, 8);
    proof {
        assert(layer == 8);
        assert forall|k: int| 0 <= k < 256 implies #[trigger] cong(poly@[k] as int, transformed[k]) by {
            assert(cong(poly_ints(poly@)[k], intt_upto(a0, 8)[k]));
        }
    }
    let mut i: usize = 0;
    while i < 256
        invariant
            i <= 256,
            poly@.len() == 256,
            transformed == intt_upto(a0, 8),
            forall|k: int| i <= k < 256 ==> -(256 * q()) <= #[trigger] poly@[k] <= 256 * q(),
            forall|k: int| i <= k < 256 ==> #[trigger] cong(poly@[k] as int, transformed[k]),
            forall|k: int| 0 <= k < i ==> 0 <= #[trigger] poly@[k] < q(),
            forall|k: int| 0 <= k < i ==> #[trigger] poly@[k] == spec_intt(a0)[k] % q(),
        decreases 256 - i,
    {
        let c: i64 = poly[i] as i64;
        let r = mont_reduce(16_382i64 * c);
        proof {
            lemma_scale_inv_256(r as int, c as int, transformed[i as int]);
            vstd::arithmetic::div_mod::lemma_mod_bound(r as int, q());
            lemma_cong_mod(r as int);
            lemma_cong_trans((r as int) % q(), r as int, spec_intt(a0)[i as int]);
            lemma_cong_canonical(spec_intt(a0)[i as int], (r as int) % q());
        }
        poly[i] = full_reduce32(r);
        i += 1;
    }
}

} // verus!

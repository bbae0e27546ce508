//! Bit-level encodings used by ML-DSA-44 public keys and signatures.
use vstd::prelude::*;
use vstd::arithmetic::power2::{pow2, lemma_pow2_pos, lemma_pow2_unfold, lemma_pow2_adds};
use vstd::arithmetic::div_mod::{lemma_fundamental_div_mod_converse, lemma_small_mod};
use vstd::bits::{lemma_u32_shl_is_mul, lemma_u32_shr_is_div, lemma_u32_low_bits_mask_is_mod, lemma_u32_pow2_no_overflow, low_bits_mask};

verus! {

/// Bit `p` of a byte string, least significant bit of each byte first.
pub open spec fn bit_at(s: Seq<u8>, p: int) -> int {
    ((s[p / 8] as int) / (pow2((p % 8) as nat) as int)) % 2
}

/// The `len`-bit little-endian value that starts at bit `start` of `s`.
pub open spec fn bits_val(s: Seq<u8>, start: int, len: nat) -> int
    decreases len,
{
    if len == 0 {
        0
    } else {
        bit_at(s, start) + 2 * bits_val(s, start + 1, (len - 1) as nat)
    }
}

pub proof fn lemma_bits_val_bound(s: Seq<u8>, start: int, len: nat)
    ensures
        0 <= bits_val(s, start, len) < pow2(len),
    decreases len,
{
    if len > 0 {
        lemma_bits_val_bound(s, start + 1, (len - 1) as nat);
        lemma_pow2_unfold(len);
    } else {
        vstd::arithmetic::power2::lemma2_to64();
    }
}

/// A run of `a + b` bits is the run of `a` bits plus `2^a` times the following run of `b` bits.
pub proof fn lemma_bits_val_split(s: Seq<u8>, start: int, a: nat, b: nat)
    ensures
        bits_val(s, start, a + b) == bits_val(s, start, a) + pow2(a) * bits_val(s, start + a, b),
    decreases a,
{
    if a == 0 {
        vstd::arithmetic::power2::lemma2_to64();
        assert(bits_val(s, start, 0) == 0);
        assert(a + b == b);
    } else {
        lemma_bits_val_split(s, start + 1, (a - 1) as nat, b);
        lemma_pow2_unfold(a);
        assert((a - 1) as nat + b == (a + b - 1) as nat);
        assert(start + 1 + (a - 1) as nat == start + a);
        vstd::arithmetic::mul::lemma_mul_is_associative(2, pow2((a - 1) as nat) as int, bits_val(s, start + a, b));
        vstd::arithmetic::mul::lemma_mul_is_distributive_add(2, bits_val(s, start + 1, (a - 1) as nat), pow2((a - 1) as nat) * bits_val(s, start + a, b));
    }
}

/// Byte `k` of `s` is the 8-bit run that starts at bit `8k`.
pub proof fn lemma_byte_bits(s: Seq<u8>, k: int)
    requires
        0 <= k < s.len(),
    ensures
        bits_val(s, 8 * k, 8) == s[k] as int,
{
    vstd::arithmetic::power2::lemma2_to64();
    reveal_with_fuel(bits_val, 9);
    let x = s[k] as int;
    lemma_fundamental_div_mod_converse(8 * k, 8, k, 0);
    lemma_fundamental_div_mod_converse(8 * k + 1, 8, k, 1);
    lemma_fundamental_div_mod_converse(8 * k + 2, 8, k, 2);
    lemma_fundamental_div_mod_converse(8 * k + 3, 8, k, 3);
    lemma_fundamental_div_mod_converse(8 * k + 4, 8, k, 4);
    lemma_fundamental_div_mod_converse(8 * k + 5, 8, k, 5);
    lemma_fundamental_div_mod_converse(8 * k + 6, 8, k, 6);
    lemma_fundamental_div_mod_converse(8 * k + 7, 8, k, 7);
    assert(pow2(0) == 1);
    assert(x / 1 == x);
    assert(bit_at(s, 8 * k) == x % 2);
    assert(bit_at(s, 8 * k + 1) == (x / 2) % 2);
    assert(bit_at(s, 8 * k + 2) == (x / 4) % 2);
    assert(bit_at(s, 8 * k + 3) == (x / 8) % 2);
    assert(bit_at(s, 8 * k + 4) == (x / 16) % 2);
    assert(bit_at(s, 8 * k + 5) == (x / 32) % 2);
    assert(bit_at(s, 8 * k + 6) == (x / 64) % 2);
    assert(bit_at(s, 8 * k + 7) == (x / 128) % 2);
    assert(x % 2 + 2 * ((x / 2) % 2 + 2 * ((x / 4) % 2 + 2 * ((x / 8) % 2 + 2 * ((x / 16) % 2 + 2 * ((x / 32) % 2 + 2 * ((x / 64) % 2 + 2 * ((x / 128) % 2))))))) == x) by (nonlinear_arith)
        requires 0 <= x < 256;
}

} // verus!

verus! {

/// Number of significant bits of a non-negative integer.
pub open spec fn spec_bit_length(x: nat) -> nat
    decreases x,
{
    if x == 0 {
        0
    } else {
        1 + spec_bit_length(x / 2)
    }
}

/// Number of significant bits of a non-negative `x` (`32 - leading_zeros`).
pub fn bit_length(x: i32) -> (n: usize)
    requires
        x >= 0,
    ensures
        n == spec_bit_length(x as nat),
        n <= 31,
        x < pow2(n as nat),
        x > 0 ==> pow2((n - 1) as nat) <= x,
{
    let mut n: usize = 0;
    let mut v: u32 = x as u32;
    proof {
        vstd::arithmetic::power2::lemma2_to64();
    }
    while v != 0
        invariant
            x >= 0,
            n <= 31,
            v as int == (x as int) / (pow2(n as nat) as int),
            spec_bit_length(x as nat) == n + spec_bit_length(v as nat),
            n > 0 ==> (x as int) / (pow2((n - 1) as nat) as int) >= 1,
        decreases v,
    {
        proof {
            lemma_pow2_pos(n as nat);
            lemma_pow2_unfold((n + 1) as nat);
            vstd::arithmetic::div_mod::lemma_div_denominator(x as int, pow2(n as nat) as int, 2);
            vstd::arithmetic::mul::lemma_mul_is_commutative(pow2(n as nat) as int, 2);
            if n == 31 {
                vstd::arithmetic::power2::lemma2_to64();
                assert(pow2(31) == 0x8000_0000);
                vstd::arithmetic::div_mod::lemma_div_pos_is_pos(x as int, pow2(31) as int);
                assert((x as int) / 0x8000_0000 == 0) by {
                    vstd::arithmetic::div_mod::lemma_basic_div(x as int, 0x8000_0000);
                }
            }
        }
        v = v / 2;
        n = n + 1;
    }
    proof {
        lemma_pow2_pos(n as nat);
        if (x as int) >= pow2(n as nat) {
            vstd::arithmetic::div_mod::lemma_div_is_ordered(pow2(n as nat) as int, x as int, pow2(n as nat) as int);
            vstd::arithmetic::div_mod::lemma_div_by_self(pow2(n as nat) as int);
        }
        if n > 0 {
            lemma_pow2_pos((n - 1) as nat);
            if (x as int) < pow2((n - 1) as nat) {
                vstd::arithmetic::div_mod::lemma_basic_div(x as int, pow2((n - 1) as nat) as int);
            }
        }
    }
    n
}

/// Every coefficient lies in `[-low, high]`.
pub open spec fn spec_in_range(poly: Seq<i32>, low: int, high: int) -> bool {
    forall|i: int| 0 <= i < poly.len() ==> -low <= #[trigger] poly[i] <= high
}

pub fn is_in_range(poly: &[i32], low: i32, high: i32) -> (b: bool)
    requires
        low > i32::MIN,
    ensures
        b == spec_in_range(poly@, low as int, high as int),
{
    let mut i: usize = 0;
    while i < poly.len()
        invariant
            i <= poly@.len(),
            low > i32::MIN,
            forall|k: int| 0 <= k < i ==> -low <= #[trigger] poly@[k] <= high,
        decreases poly@.len() - i,
    {
        let x = poly[i];
        if !(x >= -low && x <= high) {
            return false;
        }
        i += 1;
    }
    true
}

} // verus!

verus! {

/// Coefficient `i` of a packed polynomial: the `bitlen`-bit field `v` at bit `i * bitlen`,
/// read as `v` when `a == 0` and as `b - v` otherwise.
pub open spec fn unpack_coeff(s: Seq<u8>, i: int, bitlen: nat, a: int, b: int) -> int {
    let v = bits_val(s, i * bitlen, bitlen);
    if a == 0 { v } else { b - v }
}

/// Lower magnitude bound accepted for unpacked coefficients.
pub open spec fn unpack_low(bitlen: nat, b: int) -> int {
    let t = b - pow2(bitlen) + 1;
    if t < 0 { -t } else { t }
}

/// `s` holds exactly 256 fields of `bitlen` bits, each decoding into `[-low, b]`.
pub open spec fn spec_unpack_ok(s: Seq<u8>, bitlen: nat, a: int, b: int) -> bool {
    &&& bitlen > 0
    &&& (8 * (s.len() as int)) / (bitlen as int) == 256
    &&& forall|i: int| 0 <= i < 256 ==> -unpack_low(bitlen, b) <= #[trigger] unpack_coeff(s, i, bitlen, a, b) <= b
}

proof fn lemma_or_is_add(x: u32, y: u32, n: u32)
    requires
        n < 24,
        y < 256,
        x < (1u32 << n),
    ensures
        x | (y << n) == x + (y << n),
{
    assert(n < 24 && y < 256 && x < (1u32 << n) ==> x | (y << n) == x + (y << n)) by (bit_vector);
}

proof fn lemma_extract(temp: u32, bitlen: u32, v: int, w: int)
    requires
        1 <= bitlen < 24,
        temp as int == v + pow2(bitlen as nat) * w,
        0 <= v < pow2(bitlen as nat),
        0 <= w,
    ensures
        (temp & (((1u32 << bitlen) - 1) as u32)) as int == v,
        (temp >> bitlen) as int == w,
{
    lemma_u32_pow2_no_overflow(bitlen as nat);
    lemma_u32_shl_is_mul(1, bitlen);
    assert(((1u32 << bitlen) - 1) as u32 == low_bits_mask(bitlen as nat) as u32);
    lemma_u32_low_bits_mask_is_mod(temp, bitlen as nat);
    lemma_u32_shr_is_div(temp, bitlen);
    vstd::arithmetic::mul::lemma_mul_is_commutative(pow2(bitlen as nat) as int, w);
    lemma_fundamental_div_mod_converse(temp as int, pow2(bitlen as nat) as int, w, v);
}

/// Unpacks 256 coefficients of `bit_length(a + b)` bits each (FIPS 204 `BitUnpack`).
pub fn bit_unpack_into(out: &mut [i32], input: &[u8], a: i32, b: i32) -> (res: Result<(), ()>)
    requires
        old(out)@.len() == 256,
        0 <= a,
        1 <= b,
        a + b < 0x80_0000,
    ensures
        final(out)@.len() == 256,
        res is Ok <==> spec_unpack_ok(input@, spec_bit_length((a + b) as nat), a as int, b as int),
        res is Ok ==> forall|i: int| 0 <= i < 256 ==> #[trigger] final(out)@[i] == unpack_coeff(input@, i, spec_bit_length((a + b) as nat), a as int, b as int),
{
    let bitlen = bit_length(a + b);
    let ghost bl = bitlen as nat;
    proof {
        assert(bitlen >= 1);
        vstd::arithmetic::power2::lemma2_to64();
        if bitlen > 23 {
            vstd::arithmetic::power2::lemma_pow2_strictly_increases(23, (bitlen - 1) as nat);
        }
    }
    let mut z: usize = 0;
    while z < 256
        invariant
            z <= 256,
            out@.len() == 256,
        decreases 256 - z,
    {
        out[z] = 0;
        z += 1;
    }
    let mut temp: u32 = 0;
    let mut r_index: usize = 0;
    let mut bit_index: usize = 0;
    let mut k: usize = 0;
    while k < input.len()
        invariant
            1 <= bitlen <= 23,
            bl == bitlen as nat,
            bl == spec_bit_length((a + b) as nat),
            0 <= a,
            1 <= b,
            a + b < 0x80_0000,
            out@.len() == 256,
            k <= input@.len(),
            r_index <= 256,
            bit_index < bitlen,
            r_index * bitlen + bit_index == 8 * k,
            temp as int == bits_val(input@, r_index * bitlen, bit_index as nat),
            forall|i: int| 0 <= i < r_index ==> #[trigger] out@[i] == unpack_coeff(input@, i, bl, a as int, b as int),
        decreases input@.len() - k,
    {
        let byte: u8 = input[k];
        proof {
            lemma_bits_val_bound(input@, r_index * bitlen, bit_index as nat);
            lemma_u32_pow2_no_overflow(bit_index as nat);
            lemma_u32_shl_is_mul(1, bit_index as u32);
            lemma_or_is_add(temp, byte as u32, bit_index as u32);
            vstd::arithmetic::power2::lemma_pow2_strictly_increases(bit_index as nat, 23);
            vstd::arithmetic::power2::lemma2_to64();
            vstd::arithmetic::mul::lemma_mul_inequality(byte as int, 255, pow2(bit_index as nat) as int);
            lemma_u32_shl_is_mul(byte as u32, bit_index as u32);
            lemma_bits_val_split(input@, r_index * bitlen, bit_index as nat, 8);
            lemma_byte_bits(input@, k as int);
            assert(r_index * bitlen + bit_index == 8 * k);
            assert(bits_val(input@, r_index * bitlen, (bit_index + 8) as nat) == temp + pow2(bit_index as nat) * byte);
        }
        let ghost old_temp = temp;
        temp = temp | ((byte as u32) << (bit_index as u32));
        assert(temp == old_temp + pow2(bit_index as nat) * byte);
        bit_index += 8;
        k += 1;
        while bit_index >= bitlen
            invariant
                1 <= bitlen <= 23,
                bl == bitlen as nat,
                bl == spec_bit_length((a + b) as nat),
                0 <= a,
                1 <= b,
                a + b < 0x80_0000,
                out@.len() == 256,
                1 <= k <= input@.len(),
                r_index <= 256,
                bit_index < bitlen + 8,
                r_index * bitlen + bit_index == 8 * k,
                temp as int == bits_val(input@, r_index * bitlen, bit_index as nat),
                forall|i: int| 0 <= i < r_index ==> #[trigger] out@[i] == unpack_coeff(input@, i, bl, a as int, b as int),
            decreases bit_index,
        {
            if r_index >= 256 {
                proof {
                    lemma_unpack_too_long(input@.len() as int, k as int, bitlen as int);
                }
                return Err(());
            }
            proof {
                let rest = (bit_index - bitlen) as nat;
                lemma_bits_val_split(input@, r_index * bitlen, bl, rest);
                lemma_bits_val_bound(input@, r_index * bitlen, bl);
                lemma_bits_val_bound(input@, r_index * bitlen + bitlen, rest);
                lemma_extract(temp, bitlen as u32, bits_val(input@, r_index * bitlen, bl), bits_val(input@, r_index * bitlen + bitlen, rest));
                assert((r_index + 1) * bitlen == r_index * bitlen + bitlen) by (nonlinear_arith);
                lemma_u32_pow2_no_overflow(bl);
                lemma_u32_shl_is_mul(1, bitlen as u32);
                lemma_pow2_pos(bl);
                vstd::arithmetic::power2::lemma_pow2_strictly_increases(bl, 24);
                vstd::arithmetic::power2::lemma2_to64();
            }
            let mask: u32 = temp & ((1u32 << (bitlen as u32)) - 1);
            out[r_index] = if a == 0 { mask as i32 } else { b - mask as i32 };
            bit_index -= bitlen;
            temp = temp >> (bitlen as u32);
            r_index += 1;
        }
    }
    proof {
        lemma_fundamental_div_mod_converse(8 * input@.len() as int, bitlen as int, r_index as int, bit_index as int);
    }
    proof {
        lemma_u32_pow2_no_overflow(bl);
        lemma_u32_shl_is_mul(1, bitlen as u32);
        vstd::arithmetic::power2::lemma_pow2_strictly_increases(bl, 24);
        vstd::arithmetic::power2::lemma2_to64();
        let bu = bitlen as u32;
        assert(bu <= 23 ==> (1i32 << bu) as int == (1u32 << bu) as int) by (bit_vector);
    }
    let t: i32 = b - (1i32 << (bitlen as u32)) + 1;
    let low: i32 = if t < 0 { -t } else { t };
    let in_range = is_in_range(out, low, b);
    if r_index != 256 || !in_range {
        proof {
            if r_index == 256 {
                let i = choose|i: int| 0 <= i < out@.len() && !(-low <= #[trigger] out@[i] <= b);
                assert(out@[i] == unpack_coeff(input@, i, bl, a as int, b as int));
            }
        }
        return Err(());
    }
    proof {
        assert forall|i: int| 0 <= i < 256 implies -unpack_low(bl, b as int) <= #[trigger] unpack_coeff(input@, i, bl, a as int, b as int) <= b by {
            assert(out@[i] == unpack_coeff(input@, i, bl, a as int, b as int));
        }
    }
    Ok(())
}

proof fn lemma_unpack_too_long(n: int, k: int, bitlen: int)
    requires
        1 <= bitlen,
        k <= n,
        256 * bitlen + bitlen <= 8 * k,
    ensures
        (8 * n) / bitlen != 256,
{
    vstd::arithmetic::div_mod::lemma_div_is_ordered(257 * bitlen, 8 * n, bitlen);
    vstd::arithmetic::div_mod::lemma_div_by_multiple(257, bitlen);
}

} // verus!

verus! {

/// Hint polynomial encoding: 80 index bytes followed by 4 cumulative row ends.
pub open spec fn hint_end(h: Seq<u8>, row: int) -> int {
    if row == 0 { 0 } else { h[80 + row - 1] as int }
}

/// The indices of hint row `row` strictly increase.
pub open spec fn hint_row_sorted(h: Seq<u8>, row: int) -> bool {
    forall|i: int| hint_end(h, row) < i < hint_end(h, row + 1) ==> #[trigger] h[i - 1] < h[i]
}

/// FIPS 204 `HintBitUnpack` well-formedness: row ends are non-decreasing and at most 80,
/// indices strictly increase within each row, and unused index bytes are zero.
pub open spec fn spec_hints_valid(h: Seq<u8>) -> bool {
    &&& h.len() == 84
    &&& forall|r: int| 0 <= r < 4 ==> hint_end(h, r) <= #[trigger] hint_end(h, r + 1) <= 80
    &&& forall|r: int| 0 <= r < 4 ==> #[trigger] hint_row_sorted(h, r)
    &&& forall|i: int| hint_end(h, 4) <= i < 80 ==> #[trigger] h[i] == 0
}

/// Parses the row boundaries of a hint encoding.
pub fn parse_hint_offsets(hints: &[u8]) -> (res: Result<[usize; 5], ()>)
    ensures
        res is Ok <==> spec_hints_valid(hints@),
        res matches Ok(offsets) ==> forall|r: int| 0 <= r <= 4 ==> #[trigger] offsets@[r] == hint_end(hints@, r),
{
    if hints.len() != 84 {
        return Err(());
    }
    let mut offsets = [0usize; 5];
    let mut row: usize = 0;
    while row < 4
        invariant
            hints@.len() == 84,
            row <= 4,
            forall|r: int| 0 <= r <= row ==> #[trigger] offsets@[r] == hint_end(hints@, r),
            forall|r: int| 0 <= r < row ==> hint_end(hints@, r) <= #[trigger] hint_end(hints@, r + 1) <= 80,
            forall|r: int| 0 <= r < row ==> #[trigger] hint_row_sorted(hints@, r),
        decreases 4 - row,
    {
        let next = hints[80 + row] as usize;
        assert(hint_end(hints@, row + 1) == next);
        if next < offsets[row] || next > 80 {
            return Err(());
        }
        let first = offsets[row];
        let mut index = first;
        while index < next
            invariant
                hints@.len() == 84,
                row < 4,
                first == hint_end(hints@, row as int),
                next == hint_end(hints@, row + 1),
                first <= index <= next <= 80,
                forall|i: int| first < i < index ==> #[trigger] hints@[i - 1] < hints@[i],
            decreases next - index,
        {
            if index > first && hints[index - 1] >= hints[index] {
                assert(!hint_row_sorted(hints@, row as int));
                return Err(());
            }
            index += 1;
        }
        offsets[row + 1] = next;
        row += 1;
    }
    assert(hint_end(hints@, 3int) <= hint_end(hints@, 3int + 1) <= 80);
    let mut i = offsets[4];
    while i < 80
        invariant
            hints@.len() == 84,
            offsets@[4] == hint_end(hints@, 4),
            offsets@[4] <= i <= 80,
            forall|k: int| hint_end(hints@, 4) <= k < i ==> #[trigger] hints@[k] == 0,
        decreases 80 - i,
    {
        if hints[i] != 0 {
            return Err(());
        }
        i += 1;
    }
    Ok(offsets)
}

/// A candidate coefficient: the low 23 bits of three little-endian bytes.
pub open spec fn three_byte_value(b0: u8, b1: u8, b2: u8) -> int {
    (b2 as int % 128) * 65536 + (b1 as int) * 256 + b0 as int
}

/// FIPS 204 `CoeffFromThreeBytes`: the 23-bit value if it is below Q.
pub fn coeff_from_three_bytes(bytes: [u8; 3]) -> (res: Option<i32>)
    ensures
        ({
            let v = three_byte_value(bytes[0], bytes[1], bytes[2]);
            &&& (res is Some <==> v < 8_380_417)
            &&& (res matches Some(z) ==> z as int == v)
        }),
{
    let b0 = bytes[0];
    let b1 = bytes[1];
    let b2 = bytes[2];
    let z: i32 = (((b2 & 0x7f) as i32) << 16u32) | ((b1 as i32) << 8u32) | (b0 as i32);
    assert(z == ((b2 & 0x7f) as i32) * 65536 + (b1 as i32) * 256 + (b0 as i32)) by (bit_vector)
        requires z == (((b2 & 0x7f) as i32) << 16u32) | ((b1 as i32) << 8u32) | (b0 as i32);
    assert((b2 & 0x7f) == b2 % 128) by (bit_vector);
    if z < 8_380_417 { Some(z) } else { None }
}

} // verus!

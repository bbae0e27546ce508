//! Pseudorandom sampling of the matrix entries and of the challenge polynomial.
use vstd::prelude::*;
use crate::digest::{shake128, shake256, spec_shake128, spec_shake256};
use crate::mldsa44::encode::{three_byte_value, coeff_from_three_bytes, bit_at};

verus! {

/// Bytes of the SHAKE128 stream that matrix sampling may consume (eight rate blocks). FIPS 204
/// reads the stream for as long as it takes; this sampler stops here so that it always ends,
/// and reports failure if 448 byte triples hold fewer than 256 coefficients below Q (each is
/// rejected with probability below 2^-10, so in practice this never happens).
pub const REJ_STREAM_LEN: usize = 1344;

/// Bytes of the SHAKE256 stream that challenge sampling may consume (four rate blocks). FIPS 204
/// reads the stream for as long as it takes; this sampler stops here so that it always ends,
/// and reports failure if 536 bytes after the sign bits do not finish the 39 draws (each
/// byte is accepted with probability above 0.84, so in practice this never happens).
pub const BALL_STREAM_LEN: usize = 544;

/// Weight of the challenge polynomial.
pub const TAU: usize = 39;

/// The coefficients accepted by rejection sampling among the first `ntriples` byte triples.
pub open spec fn accepted_coeffs(stream: Seq<u8>, ntriples: nat) -> Seq<int>
    decreases ntriples,
{
    if ntriples == 0 {
        seq![]
    } else {
        let prev = accepted_coeffs(stream, (ntriples - 1) as nat);
        let t = 3 * (ntriples - 1);
        let v = three_byte_value(stream[t], stream[t + 1], stream[t + 2]);
        if v < 8_380_417 { prev.push(v) } else { prev }
    }
}

proof fn lemma_accepted_prefix(stream: Seq<u8>, t: nat, u: nat)
    requires
        t <= u,
    ensures
        accepted_coeffs(stream, t).len() <= accepted_coeffs(stream, u).len(),
        accepted_coeffs(stream, t) == accepted_coeffs(stream, u).take(accepted_coeffs(stream, t).len() as int),
    decreases u - t,
{
    if t < u {
        lemma_accepted_prefix(stream, t, (u - 1) as nat);
        assert(accepted_coeffs(stream, (u - 1) as nat) =~= accepted_coeffs(stream, u).take(accepted_coeffs(stream, (u - 1) as nat).len() as int));
    } else {
        assert(accepted_coeffs(stream, t) =~= accepted_coeffs(stream, u).take(accepted_coeffs(stream, t).len() as int));
    }
}

/// FIPS 204 `RejNTTPoly` over a finite stream: the first 256 accepted coefficients, if the
/// stream holds that many.
pub open spec fn spec_rej_ntt_poly(stream: Seq<u8>) -> Option<Seq<int>> {
    let all = accepted_coeffs(stream, stream.len() / 3);
    if all.len() >= 256 { Some(all.take(256)) } else { None }
}

/// The SHAKE128 input for matrix entry `(row, col)`: `rho || col || row`.
pub open spec fn matrix_seed(rho: Seq<u8>, col: u8, row: u8) -> Seq<u8> {
    rho + seq![col, row]
}

/// Samples matrix entry `A[row][col]` (in the NTT domain) into `out`; `false` when the first
/// `REJ_STREAM_LEN` stream bytes hold fewer than 256 accepted coefficients.
pub fn rej_ntt_poly_into(out: &mut [i32], rho: &[u8], col: u8, row: u8) -> (ok: bool)
    requires
        old(out)@.len() == 256,
    ensures
        final(out)@.len() == 256,
        ({
            let spec = spec_rej_ntt_poly(spec_shake128(matrix_seed(rho@, col, row), REJ_STREAM_LEN as nat));
            &&& ok == spec is Some
            &&& ok ==> forall|n: int| 0 <= n < 256 ==> #[trigger] final(out)@[n] as int == spec->0[n]
        }),
        ok ==> forall|n: int| 0 <= n < 256 ==> 0 <= #[trigger] final(out)@[n] < 8_380_417,
{
    let mut seed: Vec<u8> = Vec::new();
    let mut k: usize = 0;
    while k < rho.len()
        invariant
            k <= rho@.len(),
            seed@ == rho@.take(k as int),
        decreases rho@.len() - k,
    {
        seed.push(rho[k]);
        k += 1;
        assert(seed@ =~= rho@.take(k as int));
    }
    seed.push(col);
    seed.push(row);
    assert(seed@ =~= matrix_seed(rho@, col, row));
    let stream = shake128(&seed, REJ_STREAM_LEN);
    let ghost s = stream@;
    let mut j: usize = 0;
    let mut t: usize = 0;
    while j < 256 && t < REJ_STREAM_LEN / 3
        invariant
            s == stream@,
            s.len() == REJ_STREAM_LEN,
            out@.len() == 256,
            t <= REJ_STREAM_LEN / 3,
            j == accepted_coeffs(s, t as nat).len(),
            j <= 256,
            forall|n: int| 0 <= n < j ==> #[trigger] out@[n] as int == accepted_coeffs(s, t as nat)[n],
            forall|n: int| 0 <= n < j ==> 0 <= #[trigger] out@[n] < 8_380_417,
        decreases REJ_STREAM_LEN / 3 - t,
    {
        let bytes = [stream[3 * t], stream[3 * t + 1], stream[3 * t + 2]];
        let c = coeff_from_three_bytes(bytes);
        let ghost prev = accepted_coeffs(s, t as nat);
        if let Some(coeff) = c {
            out[j] = coeff;
            j += 1;
        }
        t += 1;
        assert(accepted_coeffs(s, t as nat) == (if three_byte_value(s[3 * (t - 1)], s[3 * (t - 1) + 1], s[3 * (t - 1) + 2]) < 8_380_417 { prev.push(three_byte_value(s[3 * (t - 1)], s[3 * (t - 1) + 1], s[3 * (t - 1) + 2])) } else { prev }));
    }
    proof {
        lemma_accepted_prefix(s, t as nat, s.len() / 3);
        if j < 256 {
            assert(t == s.len() / 3);
        }
    }
    j == 256
}

} // verus!

verus! {

/// Position of the first stream byte at or after `pos` that is at most `i`.
pub open spec fn ball_next(stream: Seq<u8>, pos: int, i: int) -> Option<int>
    decreases stream.len() - pos,
{
    if pos < 0 || pos >= stream.len() {
        None
    } else if stream[pos] <= i {
        Some(pos)
    } else {
        ball_next(stream, pos + 1, i)
    }
}

/// Steps `i..=255` of FIPS 204 `SampleInBall` on a finite stream whose first 8 bytes are the
/// sign bits; `None` when the stream runs out.
pub open spec fn ball_steps(stream: Seq<u8>, c: Seq<int>, i: int, pos: int) -> Option<Seq<int>>
    decreases 256 - i,
{
    if i > 255 || i < 0 {
        Some(c)
    } else {
        match ball_next(stream, pos, i) {
            None => None,
            Some(p) => {
                let j = stream[p] as int;
                let sign = bit_at(stream, i + 39 - 256);
                ball_steps(stream, c.update(i, c[j]).update(j, 1 - 2 * sign), i + 1, p + 1)
            },
        }
    }
}

/// FIPS 204 `SampleInBall` over a finite stream.
pub open spec fn spec_sample_in_ball(stream: Seq<u8>) -> Option<Seq<int>> {
    ball_steps(stream, Seq::new(256, |k: int| 0int), 217, 8)
}

proof fn lemma_sign_bit(x: u8, k: u8)
    requires
        k < 8,
    ensures
        ((x >> k) & 1) as int == (x as int / vstd::arithmetic::power2::pow2(k as nat) as int) % 2,
{
    vstd::bits::lemma_u8_shr_is_div(x, k);
    let y = x >> k;
    assert(y & 1 == y % 2) by (bit_vector);
}

/// Samples the challenge polynomial from `rho`; `None` when the first `BALL_STREAM_LEN`
/// bytes of the SHAKE256 stream do not suffice.
pub fn sample_in_ball(rho: &[u8]) -> (res: Option<Vec<i32>>)
    ensures
        ({
            let spec = spec_sample_in_ball(spec_shake256(rho@, BALL_STREAM_LEN as nat));
            &&& res is Some == spec is Some
            &&& res matches Some(c) ==> c@.len() == 256 && forall|n: int| 0 <= n < 256 ==> #[trigger] c@[n] as int == spec->0[n] && -1 <= c@[n] <= 1
        }),
{
    let stream = shake256(rho, BALL_STREAM_LEN);
    let ghost s = stream@;
    let mut c: Vec<i32> = Vec::new();
    while c.len() < 256
        invariant
            c@.len() <= 256,
            forall|n: int| 0 <= n < c@.len() ==> #[trigger] c@[n] == 0,
        decreases 256 - c@.len(),
    {
        c.push(0);
    }
    let ghost c0 = Seq::new(256, |k: int| 0int);
    assert(c@.map_values(|v: i32| v as int) =~= c0);
    let mut pos: usize = 8;
    let mut i: usize = 217;
    while i <= 255
        invariant
            s == stream@,
            s.len() == BALL_STREAM_LEN,
            217 <= i <= 256,
            8 <= pos <= s.len(),
            c@.len() == 256,
            forall|n: int| 0 <= n < 256 ==> -1 <= #[trigger] c@[n] <= 1,
            s == spec_shake256(rho@, BALL_STREAM_LEN as nat),
            spec_sample_in_ball(s) == ball_steps(s, c@.map_values(|v: i32| v as int), i as int, pos as int),
        decreases 256 - i,
    {
        let ghost cs = c@.map_values(|v: i32| v as int);
        let ghost start = pos;
        loop
            invariant
                s == stream@,
                s.len() == BALL_STREAM_LEN,
                start <= pos <= s.len(),
                217 <= i <= 255,
                ball_next(s, start as int, i as int) == ball_next(s, pos as int, i as int),
            ensures
                pos < s.len() ==> s[pos as int] <= i && ball_next(s, start as int, i as int) == Some(pos as int),
                pos >= s.len() ==> ball_next(s, start as int, i as int) is None,
            decreases s.len() - pos,
        {
            if pos >= stream.len() {
                break;
            }
            if (stream[pos] as usize) <= i {
                break;
            }
            pos += 1;
        }
        proof {
            assert(ball_steps(s, cs, i as int, start as int) == match ball_next(s, start as int, i as int) {
                None => None,
                Some(p) => ball_steps(s, cs.update(i as int, cs[s[p] as int]).update(s[p] as int, 1 - 2 * bit_at(s, i + 39 - 256)), i + 1, p + 1),
            });
        }
        if pos >= stream.len() {
            return None;
        }
        let j = stream[pos] as usize;
        let sign_index = i + 39 - 256;
        let sign_byte = stream[sign_index / 8];
        let sh: u8 = (sign_index % 8) as u8;
        let sign_bit = (sign_byte >> sh) & 1;
        proof {
            lemma_sign_bit(sign_byte, sh);
            assert(sign_bit as int == bit_at(s, sign_index as int));
        }
        let cj = c[j];
        c.set(i, cj);
        c.set(j, 1 - 2 * (sign_bit as i32));
        proof {
            assert(c@.map_values(|v: i32| v as int) =~= cs.update(i as int, cs[j as int]).update(j as int, 1 - 2 * bit_at(s, i + 39 - 256)));
        }
        pos += 1;
        i += 1;
    }
    Some(c)
}

} // verus!

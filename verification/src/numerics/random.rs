//! RNG based on the wyrand algorithm; see
//! <https://github.com/lemire/testingRNG/blob/bfd776ba13b837bc1680de08e5de389a7f44f10d/source/wyrand.h>.
use vstd::prelude::*;

verus! {

/// The increment added to the state at each step.
pub open spec fn wyrand_increment() -> u64 {
    0xa076_1d64_78bd_642fu64
}

/// The constant mixed into the state when producing an output.
pub open spec fn wyrand_mixer() -> u64 {
    0xe703_7ed1_a0b4_28dbu64
}

/// The state after one step: the previous state plus the increment, modulo `2^64`.
pub open spec fn wyrand_advance(state: u64) -> u64 {
    ((state as nat + wyrand_increment() as nat) % 0x1_0000_0000_0000_0000nat) as u64
}

/// The 128-bit product that an output is folded from.
pub open spec fn wyrand_product(state: u64) -> u128 {
    ((state as nat) * ((state ^ wyrand_mixer()) as nat)) as u128
}

/// The output produced from the (already advanced) state: the low 64 bits of the product
/// xor-ed with its high 64 bits.
pub open spec fn wyrand_output(state: u64) -> u64 {
    ((wyrand_product(state) >> 64u32) ^ wyrand_product(state)) as u64
}

/// The bits of the `f32` in `[1, 2)` whose 23-bit mantissa is taken from the top bits of `x`.
pub open spec fn unit_interval_f32_bits(x: u32) -> u32 {
    (x >> 9u32) | 0x3f80_0000u32
}

/// Every bit pattern made from a `u32` is that of a non-negative `f32` in `[1, 2)`: the sign bit
/// is clear, the biased exponent is 127 (that of `1.0`), and the mantissa is the top 23 bits of
/// the `u32`.
pub proof fn lemma_unit_interval_f32_bits(x: u32)
    ensures
        unit_interval_f32_bits(x) >> 31u32 == 0,
        (unit_interval_f32_bits(x) >> 23u32) & 0xffu32 == 0x7fu32,
        unit_interval_f32_bits(x) & 0x7f_ffffu32 == x >> 9u32,
{
    assert(((x >> 9u32) | 0x3f80_0000u32) >> 31u32 == 0) by (bit_vector);
    assert((((x >> 9u32) | 0x3f80_0000u32) >> 23u32) & 0xffu32 == 0x7fu32) by (bit_vector);
    assert(((x >> 9u32) | 0x3f80_0000u32) & 0x7f_ffffu32 == x >> 9u32) by (bit_vector);
}

/// RNG based on the wyrand algorithm.
pub struct WyRand(u64);

impl View for WyRand {
    type V = u64;

    closed spec fn view(&self) -> u64 {
        self.0
    }
}

impl WyRand {
    /// A generator whose state is `seed`.
    pub fn new_seed(seed: u64) -> (r: Self)
        ensures
            r@ == seed,
    {
        Self(seed)
    }

    /// Advance the state and return the next random `u64`.
    pub fn gen_u64(&mut self) -> (r: u64)
        ensures
            final(self)@ == wyrand_advance(old(self)@),
            r == wyrand_output(final(self)@),
    {
        self.0 = self.0.wrapping_add(0xa076_1d64_78bd_642f);
        let s = self.0;
        let x = s ^ 0xe703_7ed1_a0b4_28db;
        proof {
            assert((s as nat) * (x as nat) < 0x1_0000_0000_0000_0000_0000_0000_0000_0000nat)
                by (nonlinear_arith)
                requires
                    s < 0x1_0000_0000_0000_0000nat,
                    x < 0x1_0000_0000_0000_0000nat,
            ;
        }
        let t = (s as u128).wrapping_mul(x as u128);
        (t.wrapping_shr(64) ^ t) as u64
    }

    /// Convert the bits of `x`, a uniformly random `u32`, into those of a uniformly random
    /// `f32` in `[1, 2)`: the sign bit is cleared, the exponent is that of `1.0`, and the
    /// mantissa is the top 23 bits of `x`.
    /// See <http://www.math.sci.hiroshima-u.ac.jp/m-mat/MT/ARTICLES/dSFMT.pdf>.
    fn random_f32_bits_from_u32(x: &mut u32)
        ensures
            *final(x) == unit_interval_f32_bits(*old(x)),
            *final(x) >> 23u32 == 0x7fu32,
            *final(x) & 0x7f_ffffu32 == *old(x) >> 9u32,
    {
        let ghost x0 = *x;
        *x = *x >> 9;
        *x = *x | 0x3f80_0000;
        proof {
            let y = *x;
            assert(y == (x0 >> 9u32) | 0x3f80_0000u32);
            assert(((x0 >> 9u32) | 0x3f80_0000u32) >> 23u32 == 0x7fu32) by (bit_vector);
            assert(((x0 >> 9u32) | 0x3f80_0000u32) & 0x7f_ffffu32 == x0 >> 9u32)
                by (bit_vector);
        }
    }

    /// The bits of two random `f32`s in `[1, 2)`, made from the low and the high half of the
    /// next random `u64` respectively (the halves in memory order on little-endian targets).
    pub fn gen_f32x2_bits(&mut self) -> (r: [u32; 2])
        ensures
            final(self)@ == wyrand_advance(old(self)@),
            r[0] == unit_interval_f32_bits(wyrand_output(final(self)@) as u32),
            r[1] == unit_interval_f32_bits((wyrand_output(final(self)@) >> 32u64) as u32),
    {
        let v = self.gen_u64();
        let mut lo = v as u32;
        let mut hi = (v >> 32) as u32;
        Self::random_f32_bits_from_u32(&mut lo);
        Self::random_f32_bits_from_u32(&mut hi);
        [lo, hi]
    }

    /// The bits of a random `f32` in `[1, 2)`, made from the low half of the next random
    /// `u64`.
    pub fn gen_f32_bits(&mut self) -> (r: u32)
        ensures
            final(self)@ == wyrand_advance(old(self)@),
            r == unit_interval_f32_bits(wyrand_output(final(self)@) as u32),
    {
        let v = self.gen_u64();
        let mut lo = v as u32;
        Self::random_f32_bits_from_u32(&mut lo);
        lo
    }
}

} // verus!

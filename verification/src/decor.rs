//! The arena decor's integer streams: the linear congruential generator whose
//! draw order is part of the decor's format, the derivation of its seed from
//! the simulation seed, the stateless per-texel hash that dithers the water
//! bands, and the grid bookkeeping of the bake.
//!
//! Turning the draws into colours (`[0, 1)` samples, tones, blends) computes
//! with floating point and stays with the renderer.

use vstd::prelude::*;

verus! {

/// `a · b` modulo 2³².
pub open spec fn wrap_mul(a: u32, b: u32) -> u32 {
    ((a as int * b as int) % 0x1_0000_0000) as u32
}

/// `a + b` modulo 2³².
pub open spec fn wrap_add(a: u32, b: u32) -> u32 {
    ((a as int + b as int) % 0x1_0000_0000) as u32
}

/// One step of the Numerical Recipes generator: `s · 1664525 + 1013904223`
/// modulo 2³².
pub open spec fn lcg_step(s: u32) -> u32 {
    wrap_add(wrap_mul(s, 1664525), 1013904223)
}

/// The Numerical Recipes linear congruential generator, on 32 bits, so that
/// the integer stream is the same on every platform. A sample in `[0, 1)` is
/// the new state divided by 2³².
pub struct Lcg {
    state: u32,
}

impl Lcg {
    /// The generator's current state.
    pub closed spec fn spec_state(&self) -> u32 {
        self.state
    }

    /// A generator in state `seed`.
    pub fn new(seed: u32) -> (g: Lcg)
        ensures
            g.spec_state() == seed,
    {
        Lcg { state: seed }
    }

    /// The current state.
    pub fn state(&self) -> (s: u32)
        ensures
            s == self.spec_state(),
    {
        self.state
    }

    /// Advances one step and returns the new state (the numerator of the
    /// next sample).
    pub fn next_state(&mut self) -> (s: u32)
        ensures
            s == lcg_step(old(self).spec_state()),
            final(self).spec_state() == s,
    {
        self.state = self.state.wrapping_mul(1664525).wrapping_add(1013904223);
        self.state
    }
}

/// The decor's seed derived from the simulation seed: the seed's two 32-bit
/// halves and a fixed offset, xored, so the decor never aliases a simulation
/// stream.
pub open spec fn visual_seed_of(seed: u64) -> u32 {
    ((seed >> 32u64) as u32) ^ (seed as u32) ^ 0x8DA3_D251u32
}

/// The decor's seed derived from the simulation seed.
pub fn visual_seed(seed: u64) -> (s: u32)
    ensures
        s == visual_seed_of(seed),
{
    ((seed >> 32u64) as u32) ^ (seed as u32) ^ 0x8DA3_D251u32
}

/// The per-texel hash (before its mapping to `[0, 1)`): texel coordinates
/// mixed with multiplicative constants and the salt, then three rounds of
/// xor-shift and multiply.
pub open spec fn texel_hash_of(i: u32, j: u32, salt: u32) -> u32 {
    let h0 = wrap_add(wrap_mul(i, 0x9E37_79B9), wrap_mul(j, 0x85EB_CA6B)) ^ salt;
    let h1 = h0 ^ (h0 >> 16u32);
    let h2 = wrap_mul(h1, 0x7FEB_352D);
    let h3 = h2 ^ (h2 >> 15u32);
    let h4 = wrap_mul(h3, 0x846C_A68B);
    h4 ^ (h4 >> 16u32)
}

/// Deterministic per-texel noise bits: a stateless integer hash of the texel
/// and a salt (not a stream draw, so it disturbs no draw order).
pub fn texel_hash_bits(i: u32, j: u32, salt: u32) -> (h: u32)
    ensures
        h == texel_hash_of(i, j, salt),
{
    let mut h = i.wrapping_mul(0x9E37_79B9).wrapping_add(j.wrapping_mul(0x85EB_CA6B)) ^ salt;
    h = h ^ (h >> 16u32);
    h = h.wrapping_mul(0x7FEB_352D);
    h = h ^ (h >> 15u32);
    h = h.wrapping_mul(0x846C_A68B);
    h ^ (h >> 16u32)
}

/// How many light sparkles the water carries on an `n × n` texture: one per
/// 3000 texels, at least 8.
pub fn sparkle_count(n: usize) -> (c: usize)
    requires
        n * n <= usize::MAX,
    ensures
        c == (if n * n / 3000 > 8 {
            n * n / 3000
        } else {
            8
        }),
{
    let q = n * n / 3000;
    if q > 8 {
        q
    } else {
        8
    }
}

/// Whether texel `(x, y)` of an `n × n` grid lies outside the water: beyond
/// the grid, or on a dry texel (`wet` is row-major).
pub fn is_exterior(wet: &Vec<bool>, n: usize, x: i64, y: i64) -> (b: bool)
    requires
        wet@.len() == n * n,
        n <= i64::MAX,
    ensures
        b == (x < 0 || y < 0 || x >= n || y >= n || !wet@[y * n + x]),
{
    if x < 0 || y < 0 || x >= n as i64 || y >= n as i64 {
        return true;
    }
    let (xu, yu) = (x as usize, y as usize);
    let len = wet.len();
    proof {
        vstd::arithmetic::mul::lemma_mul_inequality(yu as int + 1, n as int, n as int);
        vstd::arithmetic::mul::lemma_mul_is_distributive_add_other_way(n as int, yu as int, 1);
        assert(yu * n + xu < len);
    }
    !wet[yu * n + xu]
}

} // verus!

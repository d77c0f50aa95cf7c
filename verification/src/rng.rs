//! A seeded linear-congruential generator for pseudo-random integers.
//!
//! The recurrence is `seed = (seed * 1103515245 + 12345) mod 2^31`; the
//! draw in a half-open range scales the fresh seed by the range width, so
//! every draw is pinned exactly by the seed that preceded it.

use vstd::prelude::*;

verus! {

/// The multiplier of the linear-congruential recurrence.
pub const LCG_MULTIPLIER: u64 = 1103515245;

/// The increment of the linear-congruential recurrence.
pub const LCG_INCREMENT: u64 = 12345;

/// The modulus of the linear-congruential recurrence: 2^31.
pub const LCG_MODULUS: u64 = 0x8000_0000;

/// The seed that follows `seed` in the linear-congruential recurrence.
pub open spec fn lcg_next(seed: int) -> int {
    (seed * 1103515245 + 12345) % 0x8000_0000
}

/// The value drawn from `[min, max)` when the generator's fresh seed is
/// `seed`: the range width scaled by `seed / 2^31`, rounded down, and
/// offset from `min`.
pub open spec fn range_draw(seed: int, min: int, max: int) -> int {
    min + (max - min) * seed / 0x8000_0000
}

/// Relies on `std::time::SystemTime::now` for a wall-clock reading, which
/// `Duration::as_millis` converts to whole milliseconds since the Unix
/// epoch; the low 32 bits are kept. Nothing can be promised of the value:
/// callers treat it as arbitrary. Aborts if the clock reads earlier than
/// the epoch, the fatal time-source failure of this design.
#[verifier::external_body]
fn wall_clock_millis() -> u32 {
    let millis = std::time::SystemTime::now()
        .duration_since(std::time::UNIX_EPOCH)
        .expect("Looks like time went backwards!")
        .as_millis();
    millis as u32
}

/// A pseudo-random generator: one 32-bit seed, stepped on every draw.
pub struct PseudoRNG {
    /// The current seed; after any draw it lies below 2^31.
    pub seed: u32,
}

impl PseudoRNG {
    /// A fresh generator, seeded from the wall clock.
    pub fn new() -> Self {
        let mut prng = Self { seed: 0 };
        prng.randomize();
        prng
    }

    /// Re-seeds the generator from the current time in milliseconds. The
    /// clock decides the value, so nothing is promised of the new seed.
    pub fn randomize(&mut self) {
        self.seed = wall_clock_millis();
    }

    /// Steps the seed once and returns it: a pseudo-random value in
    /// `[0, 2^31)`.
    pub fn random_u32(&mut self) -> (r: u32)
        ensures
            final(self).seed == lcg_next(old(self).seed as int),
            r == final(self).seed,
            r < 0x8000_0000,
    {
        let stepped: u64 = (self.seed as u64 * LCG_MULTIPLIER + LCG_INCREMENT) % LCG_MODULUS;
        self.seed = stepped as u32;
        self.seed
    }

    /// Steps the seed once and returns the value it draws from
    /// `[min, max)`: the range width scaled by the fresh seed over 2^31.
    pub fn random_i32(&mut self, min: i32, max: i32) -> (r: i32)
        requires
            min < max,
        ensures
            final(self).seed == lcg_next(old(self).seed as int),
            r == range_draw(final(self).seed as int, min as int, max as int),
            min <= r < max,
    {
        let drawn: u32 = self.random_u32();
        let range: u64 = (max as i64 - min as i64) as u64;
        proof {
            let r = range as int;
            let d = drawn as int;
            assert(r * d < r * 0x8000_0000) by (nonlinear_arith)
                requires 0 < r, 0 <= d < 0x8000_0000;
            assert(r * d <= 0xFFFF_FFFF * 0x7FFF_FFFF) by (nonlinear_arith)
                requires 0 < r <= 0xFFFF_FFFF, 0 <= d <= 0x7FFF_FFFF;
            assert(r * d / 0x8000_0000 < r) by (nonlinear_arith)
                requires 0 <= r * d, r * d < r * 0x8000_0000;
        }
        let offset: u64 = range * (drawn as u64) / LCG_MODULUS;
        let result: i64 = min as i64 + offset as i64;
        result as i32
    }
}

} // verus!

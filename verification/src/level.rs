use vstd::prelude::*;
use vstd::arithmetic::div_mod::{lemma_fundamental_div_mod, lemma_mod_bound};
use crate::error::WatermarkError;

verus! {

/// How many fixed-point units make one sample level: levels are held in millionths.
pub const UNITS_PER_LEVEL: i128 = 1_000_000;

/// The largest strength that can be held, in millionths.
pub const MAX_STRENGTH_MICROS: i64 = 4_294_967_295;

/// The strength used when none is configured: one hundredth.
pub const DEFAULT_STRENGTH_MICROS: i64 = 10_000;

/// The integer nearest to `n / d`, for `d > 0`; a tie goes away from zero.
pub open spec fn round_half_away(n: int, d: int) -> int {
    if n >= 0 {
        (2 * n + d) / (2 * d)
    } else {
        -((2 * (-n) + d) / (2 * d))
    }
}

/// Rounding yields the nearest integer: it is within half a unit of the exact
/// quotient, and an exact half goes away from zero.
pub proof fn lemma_round_half_away_is_nearest(n: int, d: int)
    requires
        d > 0,
    ensures
        -d <= 2 * (n - round_half_away(n, d) * d) <= d,
        n >= 0 ==> round_half_away(n, d) >= 0 && 2 * (n - round_half_away(n, d) * d) < d,
        n < 0 ==> round_half_away(n, d) <= 0 && -d < 2 * (n - round_half_away(n, d) * d),
{
    let x = if n >= 0 { 2 * n + d } else { 2 * (-n) + d };
    let m = 2 * d;
    let q = x / m;
    lemma_fundamental_div_mod(x, m);
    lemma_mod_bound(x, m);
    assert(m * q == 2 * (q * d)) by (nonlinear_arith)
        requires
            m == 2 * d,
    ;
    assert(q >= 0) by (nonlinear_arith)
        requires
            x == m * q + (x % m),
            0 <= x % m < m,
            x >= 0,
            m > 0,
    ;
    assert((-q) * d == -(q * d)) by (nonlinear_arith);
}

/// `v` limited to what an 8-bit sample holds.
pub open spec fn clamp_to_sample(v: int) -> int {
    if v < 0 {
        0
    } else if v > 255 {
        255
    } else {
        v
    }
}

/// The 8-bit sample that stands for `n / d`: rounded to the nearest integer, then clamped.
pub open spec fn sample_of(n: int, d: int) -> int {
    clamp_to_sample(round_half_away(n, d))
}

/// The 8-bit sample that stands for a level given in fixed-point units.
pub open spec fn sample_of_level(level: int) -> int {
    sample_of(level, UNITS_PER_LEVEL as int)
}

/// The fixed-point level of an 8-bit sample.
pub fn level_of_sample(sample: u8) -> (level: i128)
    ensures
        level == sample * UNITS_PER_LEVEL,
{
    (sample as i128) * UNITS_PER_LEVEL
}

/// Rounds a fixed-point level to the nearest whole level and clamps it to `0..=255`.
pub fn round_to_sample(level: i128) -> (sample: u8)
    ensures
        sample == sample_of_level(level as int),
{
    proof {
        lemma_round_half_away_is_nearest(level as int, UNITS_PER_LEVEL as int);
    }
    if level < 500_000 {
        0
    } else if level >= 254_500_000 {
        255
    } else {
        ((level + 500_000) / UNITS_PER_LEVEL) as u8
    }
}

/// Rounds a value given in thousandths of a level and clamps it to `0..=255`.
pub fn sample_of_thousandths(thousandths: i32) -> (sample: u8)
    ensures
        sample == sample_of(thousandths as int, 1000),
{
    proof {
        lemma_round_half_away_is_nearest(thousandths as int, 1000);
    }
    if thousandths < 500 {
        0
    } else if thousandths >= 254_500 {
        255
    } else {
        ((thousandths + 500) / 1000) as u8
    }
}

/// Rounding keeps within half a level of the exact value, and what leaves the
/// range of a sample lands on the nearer end of it: nothing wraps.
pub proof fn lemma_sample_of_level_clamps(level: int)
    ensures
        0 <= sample_of_level(level) <= 255,
        level <= 0 ==> sample_of_level(level) == 0,
        level >= 255 * UNITS_PER_LEVEL ==> sample_of_level(level) == 255,
        0 <= level <= 255 * UNITS_PER_LEVEL ==> {
            let nearest = sample_of_level(level) * UNITS_PER_LEVEL;
            -500_000 <= level - nearest <= 500_000
        },
{
    lemma_round_half_away_is_nearest(level, UNITS_PER_LEVEL as int);
}

/// A whole level survives the passage through fixed point.
pub proof fn lemma_sample_level_round_trip(sample: u8)
    ensures
        sample_of_level(sample * UNITS_PER_LEVEL) == sample,
{
    lemma_round_half_away_is_nearest(sample * UNITS_PER_LEVEL, UNITS_PER_LEVEL as int);
}

/// How strongly the payload perturbs the image: a positive factor, held in millionths.
#[derive(Debug, Clone, Copy, PartialEq, Eq, Structural)]
pub struct Strength {
    micros: u32,
}

impl Strength {
    /// The factor in millionths.
    pub closed spec fn spec_micros(self) -> int {
        self.micros as int
    }

    /// A strength is valid when it is positive.
    #[verifier::type_invariant]
    pub closed spec fn wf(self) -> bool {
        self.micros > 0
    }

    /// The strength of `micros` millionths. It is refused unless it is positive and
    /// at most [`MAX_STRENGTH_MICROS`].
    pub fn new(micros: i64) -> (result: Result<Strength, WatermarkError>)
        ensures
            match result {
                Ok(s) => 0 < micros <= MAX_STRENGTH_MICROS && s.wf() && s.spec_micros() == micros,
                Err(e) => !(0 < micros <= MAX_STRENGTH_MICROS)
                    && e == WatermarkError::InvalidStrengthConfiguration,
            },
    {
        if 0 < micros && micros <= MAX_STRENGTH_MICROS {
            Ok(Strength { micros: micros as u32 })
        } else {
            Err(WatermarkError::InvalidStrengthConfiguration)
        }
    }

    /// The factor in millionths.
    pub fn micros(&self) -> (micros: u32)
        ensures
            micros == self.spec_micros(),
            micros > 0,
    {
        proof {
            use_type_invariant(self);
        }
        self.micros
    }
}

impl Default for Strength {
    /// One hundredth.
    fn default() -> (s: Strength)
        ensures
            s.wf(),
            s.spec_micros() == DEFAULT_STRENGTH_MICROS,
    {
        Strength { micros: 10_000 }
    }
}

} // verus!

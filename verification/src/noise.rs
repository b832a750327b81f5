//! The noise-injection sensor model.
//!
//! A measurement is a true value plus a zero-mean pseudo-random deviate
//! scaled by a configured magnitude. The raw randomness is a handful of
//! machine words from the generator; everything that shapes those words
//! into a deviate — reducing each to a uniform fixed-point unit draw,
//! centring it, summing, and scaling — is verified, so the only trusted
//! step is the draw itself. The sum of twelve centred unit draws has mean
//! zero and unit standard deviation, which the scaling then stretches to
//! the configured magnitude.

use vstd::prelude::*;

verus! {

use crate::fx::{SCALE, fmul, fx_mul, in_i64, iabs, lemma_div_tz_abs, lemma_mul_bound};
use crate::filter::ConfigError;
use vstd::arithmetic::div_mod::{lemma_div_is_ordered, lemma_div_multiples_vanish};

/// Number of unit draws summed per deviate.
pub const NOISE_DRAWS: usize = 12;

/// Half of one, in fixed point: the mean of a unit draw.
pub const HALF: i64 = 500_000_000;

/// A word reduced to a uniform fixed-point draw in `[0, 1)`.
pub open spec fn unit_of(w: u64) -> int {
    (w as int) % (SCALE as int)
}

/// Sum of the first `k` unit draws, each centred to mean zero.
pub open spec fn centered_sum(ws: Seq<u64>, k: nat) -> int
    decreases k,
{
    if k == 0 {
        0
    } else {
        centered_sum(ws, (k - 1) as nat) + unit_of(ws[k - 1]) - HALF
    }
}

/// The whole six-sigma window around a value fits the storage type: the
/// condition under which sampling is owed to succeed, whatever is drawn.
pub open spec fn sample_window_fits(sigma: i64, true_value: i64) -> bool {
    &&& 6 * sigma <= i64::MAX as int
    &&& i64::MIN as int <= true_value - 6 * sigma
    &&& true_value + 6 * sigma <= i64::MAX as int
}

/// The zero-mean Gaussian-shaped sensor perturbation model.
pub struct NoiseModel {
    /// Standard deviation of the injected noise, in fixed point.
    pub sigma: i64,
}

/// Relies on `rand::random`: one word from the thread-local generator.
/// Nothing is assumed about the value.
#[verifier::external_body]
fn draw_word() -> u64 {
    rand::random::<u64>()
}

/// Shapes raw generator words into a centred, scaled deviate. `None`
/// exactly when the scaled deviate cannot be stored, which no draw can
/// cause while six sigma itself is storable; the deviate never exceeds
/// six sigma in magnitude.
pub fn deviate_from_words(words: &Vec<u64>, sigma: i64) -> (r: Option<i64>)
    requires
        sigma >= 0,
        words@.len() == NOISE_DRAWS,
    ensures
        r is Some <==> in_i64(fmul(centered_sum(words@, NOISE_DRAWS as nat), sigma as int)),
        r matches Some(v) ==> {
            &&& v as int == fmul(centered_sum(words@, NOISE_DRAWS as nat), sigma as int)
            &&& -6 * sigma <= v <= 6 * sigma
        },
        6 * sigma <= i64::MAX as int ==> r is Some,
{
    let mut acc: i64 = 0;
    let mut i: usize = 0;
    while i < NOISE_DRAWS
        invariant
            i <= NOISE_DRAWS,
            words@.len() == NOISE_DRAWS,
            acc as int == centered_sum(words@, i as nat),
            iabs(acc as int) <= (i as int) * (HALF as int),
        decreases NOISE_DRAWS - i,
    {
        let w = words[i];
        let u = (w % (SCALE as u64)) as i64;
        proof {
            assert(u as int == unit_of(words@[i as int]));
            assert(0 <= u as int && (u as int) < (SCALE as int));
            assert((i as int) * (HALF as int) + HALF as int == (i as int + 1) * (HALF as int))
                by (nonlinear_arith);
            assert((i as int) * (HALF as int) <= 12 * (HALF as int)) by (nonlinear_arith)
                requires 0 <= i as int <= 12;
        }
        acc = acc + (u - HALF);
        i += 1;
    }
    let r = fx_mul(acc, sigma);
    proof {
        // |acc * sigma| <= 6 * sigma scaled back down by one.
        lemma_mul_bound(acc as int, sigma as int, 6 * SCALE as int, sigma as int);
        lemma_div_tz_abs((acc as int) * (sigma as int), SCALE as int);
        lemma_div_is_ordered(
            iabs((acc as int) * (sigma as int)),
            (6 * SCALE as int) * (sigma as int),
            SCALE as int,
        );
        assert((6 * SCALE as int) * (sigma as int) == (SCALE as int) * (6 * sigma as int))
            by (nonlinear_arith);
        lemma_div_multiples_vanish(6 * sigma as int, SCALE as int);
        assert(iabs(fmul(acc as int, sigma as int)) <= 6 * sigma);
    }
    r
}

impl NoiseModel {
    /// The magnitude is non-negative.
    pub open spec fn wf(self) -> bool {
        self.sigma >= 0
    }

    /// Builds the model; a negative magnitude is refused.
    pub fn new(sigma: i64) -> (r: Result<NoiseModel, ConfigError>)
        ensures
            r is Ok <==> sigma >= 0,
            r matches Ok(nm) ==> nm.sigma == sigma,
            r is Err ==> r == Err::<NoiseModel, ConfigError>(ConfigError::NegativeNoise),
    {
        if sigma < 0 {
            Err(ConfigError::NegativeNoise)
        } else {
            Ok(NoiseModel { sigma })
        }
    }

    /// One noisy observation of a true value. Whatever the generator
    /// returned, the perturbation is bounded by six sigma; with a zero
    /// magnitude the value comes back exact. `None` only when the
    /// perturbed value cannot be stored — so whenever the whole
    /// six-sigma window around the value is storable, sampling succeeds.
    pub fn sample(&self, true_value: i64) -> (r: Option<i64>)
        requires
            self.wf(),
        ensures
            r matches Some(v) ==> -6 * self.sigma <= v - true_value <= 6 * self.sigma,
            self.sigma == 0 ==> r == Some(true_value),
            sample_window_fits(self.sigma, true_value) ==> r is Some,
    {
        let mut words: Vec<u64> = Vec::new();
        let mut i: usize = 0;
        while i < NOISE_DRAWS
            invariant
                i <= NOISE_DRAWS,
                words@.len() == i as int,
            decreases NOISE_DRAWS - i,
        {
            words.push(draw_word());
            i += 1;
        }
        match deviate_from_words(&words, self.sigma) {
            Some(d) => {
                proof {
                    if self.sigma == 0 {
                        assert(d == 0);
                    }
                }
                true_value.checked_add(d)
            },
            None => {
                proof {
                    if self.sigma == 0 {
                        let cs = centered_sum(words@, NOISE_DRAWS as nat);
                        lemma_div_tz_abs(cs * 0, SCALE as int);
                        assert(cs * 0 == 0) by (nonlinear_arith);
                        assert(in_i64(fmul(cs, 0)));
                    }
                }
                None
            },
        }
    }
}

} // verus!

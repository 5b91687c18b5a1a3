//! Coherence scoring: how much structural information (energy, mean scale,
//! local-ratio pattern) survives a dimensional compression.  Every score is
//! a fixed-point value in [0, SCALE].

use vstd::prelude::*;
use crate::phi::{SCALE, PHI_FP, tdiv};
use crate::stage::DIM_LIMIT;
use crate::compress::{
    CompressionEngine, CompressionError, VALUE_LIMIT, compression_of, to_int_seq, values_bounded,
};

verus! {

/// The coherence report of one compression: three sub-scores and their
/// weighted combination, each in [0, SCALE].
#[derive(Clone, Copy, Debug, PartialEq, Eq, Structural)]
pub struct CoherenceReport {
    /// min(1, energy of the compressed vector / energy of the original).
    pub energy_ratio: u64,
    /// min(1, |mean of the compressed vector / mean of the original|).
    pub spectral_ratio: u64,
    /// How close consecutive-entry ratios stay to phi, averaged over both
    /// vectors.
    pub ratio_pattern_score: u64,
    /// 0.3 * energy + 0.3 * spectral + 0.4 * pattern.
    pub combined_score: u64,
}

/// Sum of the squares of the first n entries.
pub open spec fn sum_squares(v: Seq<int>, n: int) -> int
    decreases n,
{
    if n <= 0 {
        0
    } else {
        sum_squares(v, n - 1) + v[n - 1] * v[n - 1]
    }
}

/// Sum of the first n entries.
pub open spec fn sum_values(v: Seq<int>, n: int) -> int
    decreases n,
{
    if n <= 0 {
        0
    } else {
        sum_values(v, n - 1) + v[n - 1]
    }
}

/// The energy ratio: min(1, energy(c) / energy(o)), and 1 when the original
/// energy is zero.
pub open spec fn energy_ratio_spec(o: Seq<int>, c: Seq<int>) -> int {
    let so = sum_squares(o, o.len() as int);
    let sc = sum_squares(c, c.len() as int);
    if so == 0 {
        SCALE as int
    } else if sc >= so {
        SCALE as int
    } else {
        sc * SCALE / so
    }
}

/// The truncated mean of a non-empty vector.
pub open spec fn mean_spec(v: Seq<int>) -> int {
    tdiv(sum_values(v, v.len() as int), v.len() as int)
}

/// The spectral ratio: min(1, |mean(c) / mean(o)|), and 0 when either mean
/// is zero.
pub open spec fn spectral_ratio_spec(o: Seq<int>, c: Seq<int>) -> int {
    let mo = mean_spec(o);
    let mc = mean_spec(c);
    if mo == 0 || mc == 0 {
        0
    } else {
        let q = (vstd::math::abs(mc) as int) * SCALE / (vstd::math::abs(mo) as int);
        if q >= SCALE {
            SCALE as int
        } else {
            q as int
        }
    }
}

/// Total absolute deviation from phi of the consecutive-entry ratios
/// v[i] / v[i - 1] over i in [1, n), skipping zero predecessors.
pub open spec fn deviation_sum(v: Seq<int>, n: int) -> int
    decreases n,
{
    if n <= 1 {
        0
    } else {
        deviation_sum(v, n - 1) + (
            if v[n - 2] != 0 {
                vstd::math::abs(tdiv(v[n - 1] * SCALE, v[n - 2]) - PHI_FP) as int
            } else {
                0
            }
        )
    }
}

/// How many consecutive-entry ratios are defined (non-zero predecessor).
pub open spec fn deviation_count(v: Seq<int>, n: int) -> int
    decreases n,
{
    if n <= 1 {
        0
    } else {
        deviation_count(v, n - 1) + (if v[n - 2] != 0 { 1int } else { 0int })
    }
}

/// The average deviation from phi of a vector's consecutive-entry ratios;
/// 0 when no ratio is defined.
pub open spec fn average_deviation_spec(v: Seq<int>) -> int {
    let n = v.len() as int;
    if deviation_count(v, n) == 0 {
        0
    } else {
        deviation_sum(v, n) / deviation_count(v, n)
    }
}

/// The ratio-pattern score: 1 minus the two average deviations' mean,
/// clamped to [0, 1].
pub open spec fn pattern_score_spec(o: Seq<int>, c: Seq<int>) -> int {
    let d = (average_deviation_spec(o) + average_deviation_spec(c)) / 2;
    if d >= SCALE {
        0
    } else {
        SCALE - d
    }
}

/// The combined score: 0.3 energy + 0.3 spectral + 0.4 pattern.
pub open spec fn combined_score_spec(o: Seq<int>, c: Seq<int>) -> int {
    (3 * energy_ratio_spec(o, c) + 3 * spectral_ratio_spec(o, c) + 4 * pattern_score_spec(o, c))
        / 10
}

/// Sums the squares of the entries.
fn sum_squares_exec(v: &Vec<i64>) -> (r: u128)
    requires
        v@.len() <= DIM_LIMIT,
        values_bounded(to_int_seq(v@), VALUE_LIMIT as int),
    ensures
        r == sum_squares(to_int_seq(v@), v@.len() as int),
        r <= v@.len() * 1_000_000_000_000_000_000_000_000,
{
    let mut acc: u128 = 0;
    let mut i: usize = 0;
    while i < v.len()
        invariant
            0 <= i <= v@.len() <= DIM_LIMIT,
            values_bounded(to_int_seq(v@), VALUE_LIMIT as int),
            acc == sum_squares(to_int_seq(v@), i as int),
            acc <= i * 1_000_000_000_000_000_000_000_000,
        decreases v@.len() - i,
    {
        let x = v[i];
        proof {
            assert(to_int_seq(v@)[i as int] == x as int);
            assert(-VALUE_LIMIT <= to_int_seq(v@)[i as int] <= VALUE_LIMIT);
        }
        let xa: u128 = if x >= 0 {
            x as u128
        } else {
            (-(x as i128)) as u128
        };
        proof {
            assert((xa as int) * (xa as int) == (x as int) * (x as int)
                && (xa as int) * (xa as int) <= 1_000_000_000_000_000_000_000_000) by (nonlinear_arith)
                requires
                    0 <= xa as int <= 1_000_000_000_000,
                    xa as int == x as int || xa as int == -(x as int),
            {}
        }
        acc = acc + xa * xa;
        i = i + 1;
    }
    acc
}

/// Sums the entries.
fn sum_values_exec(v: &Vec<i64>) -> (r: i128)
    requires
        v@.len() <= DIM_LIMIT,
        values_bounded(to_int_seq(v@), VALUE_LIMIT as int),
    ensures
        r == sum_values(to_int_seq(v@), v@.len() as int),
        -(v@.len() * (VALUE_LIMIT as int)) <= r <= v@.len() * (VALUE_LIMIT as int),
{
    let mut acc: i128 = 0;
    let mut i: usize = 0;
    while i < v.len()
        invariant
            0 <= i <= v@.len() <= DIM_LIMIT,
            values_bounded(to_int_seq(v@), VALUE_LIMIT as int),
            acc == sum_values(to_int_seq(v@), i as int),
            -(i * (VALUE_LIMIT as int)) <= acc <= i * (VALUE_LIMIT as int),
        decreases v@.len() - i,
    {
        proof {
            assert(to_int_seq(v@)[i as int] == v@[i as int] as int);
            assert(-VALUE_LIMIT <= to_int_seq(v@)[i as int] <= VALUE_LIMIT);
        }
        acc = acc + (v[i] as i128);
        i = i + 1;
    }
    acc
}

/// The truncated mean of a non-empty vector.
fn mean_exec(v: &Vec<i64>) -> (r: i128)
    requires
        1 <= v@.len() <= DIM_LIMIT,
        values_bounded(to_int_seq(v@), VALUE_LIMIT as int),
    ensures
        r == mean_spec(to_int_seq(v@)),
        -VALUE_LIMIT <= r <= VALUE_LIMIT,
{
    let s = sum_values_exec(v);
    let n = v.len();
    proof {
        vstd::arithmetic::mul::lemma_mul_is_commutative(VALUE_LIMIT as int, n as int);
        vstd::arithmetic::div_mod::lemma_multiply_divide_le(
            vstd::math::abs(s as int) as int, n as int, VALUE_LIMIT as int);
        vstd::arithmetic::div_mod::lemma_div_pos_is_pos(vstd::math::abs(s as int) as int, n as int);
    }
    if s >= 0 {
        ((s as u128) / (n as u128)) as i128
    } else {
        -((((-s) as u128) / (n as u128)) as i128)
    }
}

/// The average deviation from phi of the consecutive-entry ratios.
fn average_deviation_exec(v: &Vec<i64>) -> (r: u128)
    requires
        1 <= v@.len() <= DIM_LIMIT,
        values_bounded(to_int_seq(v@), VALUE_LIMIT as int),
    ensures
        r == average_deviation_spec(to_int_seq(v@)),
        r <= 250_000_000_000_000_000_000_000_000,
{
    let n = v.len();
    let mut acc: u128 = 0;
    let mut cnt: u64 = 0;
    let mut i: usize = 1;
    while i < n
        invariant
            1 <= i <= n == v@.len() <= DIM_LIMIT,
            values_bounded(to_int_seq(v@), VALUE_LIMIT as int),
            acc == deviation_sum(to_int_seq(v@), i as int),
            cnt == deviation_count(to_int_seq(v@), i as int),
            cnt <= i - 1,
            acc <= (i - 1) * 1_100_000_000_000_000_000_000,
        decreases n - i,
    {
        let prev = v[i - 1];
        proof {
            assert(to_int_seq(v@)[i - 1] == prev as int);
            assert(to_int_seq(v@)[i as int] == v@[i as int] as int);
            assert(-VALUE_LIMIT <= to_int_seq(v@)[i - 1] <= VALUE_LIMIT);
            assert(-VALUE_LIMIT <= to_int_seq(v@)[i as int] <= VALUE_LIMIT);
        }
        if prev != 0 {
            let num: i128 = (v[i] as i128) * (SCALE as i128);
            let na: u128 = if num >= 0 {
                num as u128
            } else {
                (-num) as u128
            };
            let da: u128 = if prev >= 0 {
                prev as u128
            } else {
                (-(prev as i128)) as u128
            };
            let q = na / da;
            proof {
                vstd::arithmetic::div_mod::lemma_div_nonincreasing(na as int, da as int);
                vstd::arithmetic::div_mod::lemma_div_pos_is_pos(na as int, da as int);
            }
            let ratio: i128 = if (num >= 0) == (prev >= 0) {
                q as i128
            } else {
                -(q as i128)
            };
            proof {
                assert(ratio == tdiv(to_int_seq(v@)[i as int] * SCALE, to_int_seq(v@)[i - 1]));
            }
            let dev: i128 = ratio - (PHI_FP as i128);
            let deva: u128 = if dev >= 0 {
                dev as u128
            } else {
                (-dev) as u128
            };
            acc = acc + deva;
            cnt = cnt + 1;
        }
        i = i + 1;
    }
    if cnt == 0 {
        0
    } else {
        proof {
            vstd::arithmetic::div_mod::lemma_div_nonincreasing(acc as int, cnt as int);
            vstd::arithmetic::div_mod::lemma_div_pos_is_pos(acc as int, cnt as int);
        }
        acc / (cnt as u128)
    }
}

impl CompressionEngine {
    /// Scores how much structure the compressed vector kept of the
    /// original.  Every field of the report lies in [0, SCALE], whatever
    /// the (bounded, non-empty) inputs — including all-zero vectors.
    pub fn coherence(&self, original: &Vec<i64>, compressed: &Vec<i64>) -> (r: CoherenceReport)
        requires
            1 <= original@.len() <= DIM_LIMIT,
            1 <= compressed@.len() <= DIM_LIMIT,
            values_bounded(to_int_seq(original@), VALUE_LIMIT as int),
            values_bounded(to_int_seq(compressed@), VALUE_LIMIT as int),
        ensures
            r.energy_ratio == energy_ratio_spec(to_int_seq(original@), to_int_seq(compressed@)),
            r.spectral_ratio == spectral_ratio_spec(to_int_seq(original@), to_int_seq(compressed@)),
            r.ratio_pattern_score
                == pattern_score_spec(to_int_seq(original@), to_int_seq(compressed@)),
            r.combined_score
                == combined_score_spec(to_int_seq(original@), to_int_seq(compressed@)),
            r.energy_ratio <= SCALE,
            r.spectral_ratio <= SCALE,
            r.ratio_pattern_score <= SCALE,
            r.combined_score <= SCALE,
    {
        let so = sum_squares_exec(original);
        let sc = sum_squares_exec(compressed);
        let energy: u64 = if so == 0 {
            SCALE
        } else if sc >= so {
            SCALE
        } else {
            proof {
                assert((sc as int) * (SCALE as int) < (so as int) * (SCALE as int))
                    by (nonlinear_arith)
                    requires (sc as int) < (so as int), (SCALE as int) >= 1,
                {}
                vstd::arithmetic::div_mod::lemma_multiply_divide_lt(
                    (sc as int) * (SCALE as int), so as int, SCALE as int);
                vstd::arithmetic::div_mod::lemma_div_pos_is_pos(
                    (sc as int) * (SCALE as int), so as int);
            }
            ((sc * (SCALE as u128)) / so) as u64
        };
        let mo = mean_exec(original);
        let mc = mean_exec(compressed);
        let spectral: u64 = if mo == 0 || mc == 0 {
            0
        } else {
            let moa: u128 = if mo >= 0 {
                mo as u128
            } else {
                (-mo) as u128
            };
            let mca: u128 = if mc >= 0 {
                mc as u128
            } else {
                (-mc) as u128
            };
            let q = (mca * (SCALE as u128)) / moa;
            if q >= SCALE as u128 {
                SCALE
            } else {
                q as u64
            }
        };
        let ao = average_deviation_exec(original);
        let ac = average_deviation_exec(compressed);
        let d = (ao + ac) / 2;
        let pattern: u64 = if d >= SCALE as u128 {
            0
        } else {
            SCALE - (d as u64)
        };
        let weighted = 3 * energy + 3 * spectral + 4 * pattern;
        let combined: u64 = weighted / 10;
        proof {
            vstd::arithmetic::div_mod::lemma_div_is_ordered(
                weighted as int, 10_000_000_000int, 10);
        }
        CoherenceReport {
            energy_ratio: energy,
            spectral_ratio: spectral,
            ratio_pattern_score: pattern,
            combined_score: combined,
        }
    }

    /// Compresses and scores in one call: the compressed vector together
    /// with the coherence report of original against compressed.
    pub fn compress_with_coherence(&self, vector: &Vec<i64>, from_dim: usize, to_dim: usize)
        -> (r: Result<(Vec<i64>, CoherenceReport), CompressionError>)
        requires
            self.wf(),
            values_bounded(to_int_seq(vector@), VALUE_LIMIT as int),
        ensures
            match r {
                Ok((c, rep)) => {
                    &&& vector@.len() == from_dim
                    &&& self.levels@.contains(from_dim)
                    &&& self.levels@.contains(to_dim)
                    &&& to_dim <= from_dim
                    &&& c@.len() == to_dim
                    &&& to_int_seq(c@)
                        == compression_of(self.levels@, to_int_seq(vector@), from_dim, to_dim)
                    &&& rep.energy_ratio
                        == energy_ratio_spec(to_int_seq(vector@), to_int_seq(c@))
                    &&& rep.spectral_ratio
                        == spectral_ratio_spec(to_int_seq(vector@), to_int_seq(c@))
                    &&& rep.ratio_pattern_score
                        == pattern_score_spec(to_int_seq(vector@), to_int_seq(c@))
                    &&& rep.combined_score
                        == combined_score_spec(to_int_seq(vector@), to_int_seq(c@))
                },
                Err(err) => {
                    &&& (err == CompressionError::DimensionMismatch
                        <==> vector@.len() != from_dim)
                    &&& (err == CompressionError::InvalidTargetDimension
                        <==> vector@.len() == from_dim
                            && !(self.levels@.contains(to_dim) && to_dim <= from_dim))
                    &&& (err == CompressionError::NoValidPath
                        <==> vector@.len() == from_dim
                            && self.levels@.contains(to_dim) && to_dim <= from_dim
                            && !self.levels@.contains(from_dim))
                },
            },
    {
        match self.compress(vector, from_dim, to_dim) {
            Ok(c) => {
                proof {
                    let i = choose|i: int|
                        0 <= i < self.levels@.len() && self.levels@[i] == from_dim;
                    assert(1 <= self.levels@[i] <= DIM_LIMIT);
                    let j = choose|j: int|
                        0 <= j < self.levels@.len() && self.levels@[j] == to_dim;
                    assert(1 <= self.levels@[j] <= DIM_LIMIT);
                }
                let rep = self.coherence(vector, &c);
                Ok((c, rep))
            },
            Err(err) => Err(err),
        }
    }
}

} // verus!

//! The dimensional compression engine: plans a greedy path of catalogued
//! dimensions from a source dimension down to a target dimension, and
//! reduces a vector one hop at a time with a phi-weighted window average.

use vstd::prelude::*;
use crate::phi::{SCALE, PSI_FP, psi_pow_fp, lemma_psi_pow_fp_bounds, tdiv, lemma_tdiv_bound};
use crate::stage::{StageTable, TableError, DIM_LIMIT};

verus! {

/// Largest magnitude a vector entry may carry, 1000.0 in fixed point.  The
/// bound keeps every weighted sum and energy sum within 128-bit integers.
pub const VALUE_LIMIT: i64 = 1_000_000_000_000;

/// Errors of path planning and compression.
#[derive(Clone, Copy, Debug, PartialEq, Eq, Structural)]
pub enum CompressionError {
    /// No catalogued descent exists: a dimension is missing from the
    /// catalogue, or the source lies below the target.
    NoValidPath,
    /// The vector's length is not the stated source dimension.
    DimensionMismatch,
    /// The target dimension is not catalogued or exceeds the source.
    InvalidTargetDimension,
}

/// The view of a vector of fixed-point entries as a sequence of integers.
pub open spec fn to_int_seq(v: Seq<i64>) -> Seq<int> {
    v.map_values(|x: i64| x as int)
}

/// Every entry lies within [-bound, bound].
pub open spec fn values_bounded(v: Seq<int>, bound: int) -> bool {
    forall|i: int| 0 <= i < v.len() ==> -bound <= #[trigger] v[i] <= bound
}

/// The window size of a hop from dimension a to dimension b: ceil(a / b).
pub open spec fn group_size(a: int, b: int) -> int {
    (a + b - 1) / b
}

/// The phi-weighted sum of the `len` entries starting at `start`: position
/// p within the window carries weight psi^p in fixed point.
pub open spec fn weighted_sum(v: Seq<int>, start: int, len: int) -> int
    decreases len,
{
    if len <= 0 {
        0
    } else {
        weighted_sum(v, start, len - 1) + v[start + len - 1] * psi_pow_fp((len - 1) as nat)
    }
}

/// The total weight of a window of `len` entries.
pub open spec fn weight_total(len: int) -> int
    decreases len,
{
    if len <= 0 {
        0
    } else {
        weight_total(len - 1) + psi_pow_fp((len - 1) as nat)
    }
}

/// Entry g of one hop from dimension a to dimension b: the weighted average
/// of window g, or 0 for an empty trailing window.
pub open spec fn hop_entry(v: Seq<int>, a: int, b: int, g: int) -> int {
    let gs = group_size(a, b);
    let start = g * gs;
    let end = if start + gs <= a { start + gs } else { a };
    if start >= end {
        0
    } else {
        tdiv(weighted_sum(v, start, end - start), weight_total(end - start))
    }
}

/// One whole hop from dimension a to dimension b.
pub open spec fn hop(v: Seq<int>, a: int, b: int) -> Seq<int> {
    Seq::new(b as nat, |g: int| hop_entry(v, a, b, g))
}

/// The vector after the first t hops of a path: hop number h reduces from
/// path[h - 1] to path[h].
pub open spec fn apply_path_prefix(v: Seq<int>, path: Seq<usize>, t: int) -> Seq<int>
    decreases t,
{
    if t <= 0 {
        v
    } else {
        hop(apply_path_prefix(v, path, t - 1), path[t - 1] as int, path[t] as int)
    }
}

/// The position of a catalogued dimension among the levels.  Levels are
/// strictly increasing, so the position is unique.
pub open spec fn index_of_level(levels: Seq<usize>, d: usize) -> int {
    choose|i: int| 0 <= i < levels.len() && levels[i] == d
}

/// The greedy compression path from `from_dim` down to `to_dim`: the run of
/// catalogued dimensions between them, in descending order.  Each step thus
/// picks the largest catalogued dimension below the current one — no
/// in-between level is ever skipped.
pub open spec fn greedy_path(levels: Seq<usize>, from_dim: usize, to_dim: usize) -> Seq<usize> {
    let i_from = index_of_level(levels, from_dim);
    let i_to = index_of_level(levels, to_dim);
    Seq::new((i_from - i_to + 1) as nat, |t: int| levels[i_from - t])
}

/// What compression returns: the vector carried down the greedy path.
pub open spec fn compression_of(
    levels: Seq<usize>,
    v: Seq<int>,
    from_dim: usize,
    to_dim: usize,
) -> Seq<int> {
    let path = greedy_path(levels, from_dim, to_dim);
    apply_path_prefix(v, path, path.len() - 1)
}

/// A window's total weight is at least one full first weight (SCALE) and at
/// most len of them.
pub proof fn lemma_weight_total_bounds(len: int)
    ensures
        0 <= weight_total(len),
        len >= 1 ==> SCALE <= weight_total(len) <= len * SCALE,
    decreases len,
{
    if len >= 1 {
        lemma_weight_total_bounds(len - 1);
        lemma_psi_pow_fp_bounds((len - 1) as nat);
        assert((len - 1) * SCALE + SCALE == len * SCALE) by (nonlinear_arith) {}
    }
}

/// The compression engine: the catalogued dimensions it may pass through,
/// in strictly increasing order.
#[derive(Clone, Debug)]
pub struct CompressionEngine {
    pub levels: Vec<usize>,
}

impl CompressionEngine {
    /// Well-formedness: at least one level, all within [1, DIM_LIMIT],
    /// strictly increasing.
    pub open spec fn wf(self) -> bool {
        &&& self.levels@.len() >= 1
        &&& forall|k: int| 0 <= k < self.levels@.len()
                ==> 1 <= #[trigger] self.levels@[k] <= DIM_LIMIT
        &&& forall|i: int, j: int| 0 <= i < j < self.levels@.len()
                ==> #[trigger] self.levels@[i] < #[trigger] self.levels@[j]
    }

    /// An engine over the dimensions of a stage catalogue.
    pub fn new(table: &StageTable) -> (r: CompressionEngine)
        requires
            table.wf(),
        ensures
            r.wf(),
            r.levels@.len() == table.stages@.len(),
            forall|k: int| 0 <= k < table.stages@.len()
                ==> #[trigger] r.levels@[k] == table.stages@[k].target_dimension,
    {
        let mut levels: Vec<usize> = Vec::new();
        let n = table.len();
        let mut i: usize = 0;
        while i < n
            invariant
                0 <= i <= n,
                n == table.stages@.len(),
                table.wf(),
                levels@.len() == i,
                forall|k: int| 0 <= k < i
                    ==> #[trigger] levels@[k] == table.stages@[k].target_dimension,
            decreases n - i,
        {
            levels.push(table.stages[i].target_dimension);
            i = i + 1;
        }
        CompressionEngine { levels }
    }

    /// An engine over a custom run of strictly increasing dimensions.
    pub fn from_dimensions(dims: &Vec<usize>) -> (r: Result<CompressionEngine, TableError>)
        ensures
            match r {
                Ok(e) => {
                    &&& StageTable::dims_valid(dims@)
                    &&& e.wf()
                    &&& e.levels@ == dims@
                },
                Err(err) => {
                    &&& err == TableError::InvalidDimensions
                    &&& !StageTable::dims_valid(dims@)
                },
            },
    {
        let table = StageTable::from_dimensions(dims)?;
        let e = CompressionEngine::new(&table);
        proof {
            assert(e.levels@ =~= dims@);
        }
        Ok(e)
    }

    /// Whether a dimension is catalogued, and at which position.
    fn find_level(&self, d: usize) -> (r: Option<usize>)
        requires
            self.wf(),
        ensures
            match r {
                Some(i) => i < self.levels@.len() && self.levels@[i as int] == d,
                None => !self.levels@.contains(d),
            },
    {
        let n = self.levels.len();
        let mut i: usize = 0;
        while i < n
            invariant
                0 <= i <= n,
                n == self.levels@.len(),
                forall|j: int| 0 <= j < i ==> #[trigger] self.levels@[j] != d,
            decreases n - i,
        {
            if self.levels[i] == d {
                return Some(i);
            }
            i = i + 1;
        }
        None
    }

    /// Plans the compression path from `from_dim` down to `to_dim`: the
    /// descending run of catalogued dimensions between them, each step
    /// taking the largest catalogued dimension below the current one that
    /// still reaches the target.  Fails with NoValidPath exactly when one
    /// of the two dimensions is not catalogued or the source is below the
    /// target.
    pub fn plan_path(&self, from_dim: usize, to_dim: usize)
        -> (r: Result<Vec<usize>, CompressionError>)
        requires
            self.wf(),
        ensures
            match r {
                Ok(p) => {
                    &&& self.levels@.contains(from_dim)
                    &&& self.levels@.contains(to_dim)
                    &&& to_dim <= from_dim
                    &&& p@ == greedy_path(self.levels@, from_dim, to_dim)
                    &&& p@.len() >= 1
                    &&& p@[0] == from_dim
                    &&& p@[p@.len() - 1] == to_dim
                    &&& forall|t: int| 0 <= t < p@.len()
                        ==> 1 <= #[trigger] p@[t] <= DIM_LIMIT
                    &&& forall|t: int| 0 < t < p@.len() ==> #[trigger] p@[t] < p@[t - 1]
                    &&& forall|t: int, j: int|
                        0 <= t < p@.len() - 1 && 0 <= j < self.levels@.len()
                            && self.levels@[j] < p@[t] && self.levels@[j] >= to_dim
                            ==> #[trigger] self.levels@[j] <= #[trigger] p@[t + 1]
                },
                Err(err) => {
                    &&& err == CompressionError::NoValidPath
                    &&& !(self.levels@.contains(from_dim) && self.levels@.contains(to_dim)
                        && to_dim <= from_dim)
                },
            },
    {
        let i_from = match self.find_level(from_dim) {
            Some(i) => i,
            None => {
                return Err(CompressionError::NoValidPath);
            },
        };
        let i_to = match self.find_level(to_dim) {
            Some(i) => i,
            None => {
                proof {
                    assert(self.levels@[i_from as int] == from_dim);
                }
                return Err(CompressionError::NoValidPath);
            },
        };
        proof {
            assert(self.levels@[i_from as int] == from_dim);
            assert(self.levels@[i_to as int] == to_dim);
        }
        if from_dim < to_dim {
            return Err(CompressionError::NoValidPath);
        }
        proof {
            if i_from < i_to {
                assert(self.levels@[i_from as int] < self.levels@[i_to as int]);
                assert(false);
            }
        }
        let n = self.levels.len();
        let span = i_from - i_to;
        let mut p: Vec<usize> = Vec::new();
        let mut t: usize = 0;
        while t <= span
            invariant
                0 <= t <= span + 1,
                self.wf(),
                n == self.levels@.len(),
                i_to <= i_from < n,
                span == i_from - i_to,
                p@.len() == t,
                forall|u: int| 0 <= u < t ==> #[trigger] p@[u] == self.levels@[i_from - u],
            decreases span + 1 - t,
        {
            p.push(self.levels[i_from - t]);
            t = t + 1;
        }
        proof {
            let levels = self.levels@;
            assert(levels[i_from as int] == from_dim);
            assert(levels[i_to as int] == to_dim);
            let ci = index_of_level(levels, from_dim);
            assert(0 <= ci < levels.len() && levels[ci] == from_dim) by {
                assert(0 <= i_from < levels.len() && levels[i_from as int] == from_dim);
            }
            assert(ci == i_from) by {
                if ci != i_from {
                    if ci < i_from {
                        assert(levels[ci] < levels[i_from as int]);
                    } else {
                        assert(levels[i_from as int] < levels[ci]);
                    }
                }
            }
            let ct = index_of_level(levels, to_dim);
            assert(0 <= ct < levels.len() && levels[ct] == to_dim) by {
                assert(0 <= i_to < levels.len() && levels[i_to as int] == to_dim);
            }
            assert(ct == i_to) by {
                if ct != i_to {
                    if ct < i_to {
                        assert(levels[ct] < levels[i_to as int]);
                    } else {
                        assert(levels[i_to as int] < levels[ct]);
                    }
                }
            }
            assert(p@ =~= greedy_path(levels, from_dim, to_dim));
            assert(self.levels@.contains(from_dim)) by {
                assert(levels[i_from as int] == from_dim);
            }
            assert(self.levels@.contains(to_dim)) by {
                assert(levels[i_to as int] == to_dim);
            }
            assert forall|u: int, j: int|
                0 <= u < p@.len() - 1 && 0 <= j < levels.len()
                    && levels[j] < p@[u] && levels[j] >= to_dim
                implies #[trigger] levels[j] <= #[trigger] p@[u + 1] by {
                assert(p@[u] == levels[i_from - u]);
                assert(p@[u + 1] == levels[i_from - u - 1]);
                if j >= i_from - u {
                    if j > i_from - u {
                        assert(levels[i_from - u] < levels[j]);
                    }
                    assert(false);
                }
                if j < i_from - u - 1 {
                    assert(levels[j] < levels[i_from - u - 1]);
                }
            }
        }
        Ok(p)
    }

    /// Reduces `vector` from `from_dim` to `to_dim` along the greedy path,
    /// one phi-weighted window average per hop.  The result has exactly
    /// `to_dim` entries and is a pure function of the inputs.  Fails with
    /// DimensionMismatch when the vector's length is not `from_dim`, with
    /// InvalidTargetDimension when `to_dim` is not a catalogued dimension
    /// at most `from_dim`, and with NoValidPath when `from_dim` itself is
    /// not catalogued — each exactly under that condition, checked in that
    /// order.
    #[verifier::rlimit(30)]
    pub fn compress(&self, vector: &Vec<i64>, from_dim: usize, to_dim: usize)
        -> (r: Result<Vec<i64>, CompressionError>)
        requires
            self.wf(),
            values_bounded(to_int_seq(vector@), VALUE_LIMIT as int),
        ensures
            match r {
                Ok(c) => {
                    &&& vector@.len() == from_dim
                    &&& self.levels@.contains(from_dim)
                    &&& self.levels@.contains(to_dim)
                    &&& to_dim <= from_dim
                    &&& c@.len() == to_dim
                    &&& to_int_seq(c@)
                        == compression_of(self.levels@, to_int_seq(vector@), from_dim, to_dim)
                    &&& values_bounded(to_int_seq(c@), VALUE_LIMIT as int)
                },
                Err(err) => {
                    &&& (err == CompressionError::DimensionMismatch
                        <==> vector@.len() != from_dim)
                    &&& (err == CompressionError::InvalidTargetDimension
                        <==> vector@.len() == from_dim
                            && !(self.levels@.contains(to_dim) && to_dim <= from_dim))
                    &&& (err == CompressionError::NoValidPath
                        <==> vector@.len() == from_dim
                            && self.levels@.contains(to_dim) && to_dim <= from_dim
                            && !self.levels@.contains(from_dim))
                },
            },
    {
        if vector.len() != from_dim {
            return Err(CompressionError::DimensionMismatch);
        }
        let target_ok = match self.find_level(to_dim) {
            Some(i) => {
                proof {
                    assert(self.levels@[i as int] == to_dim);
                }
                to_dim <= from_dim
            },
            None => false,
        };
        if !target_ok {
            return Err(CompressionError::InvalidTargetDimension);
        }
        let path = match self.plan_path(from_dim, to_dim) {
            Ok(p) => p,
            Err(_) => {
                return Err(CompressionError::NoValidPath);
            },
        };
        let ghost v0 = to_int_seq(vector@);
        let ghost pathseq = path@;
        let mut current = copy_values(vector);
        let mut h: usize = 0;
        while h < path.len() - 1
            invariant
                0 <= h <= pathseq.len() - 1,
                pathseq.len() >= 1,
                pathseq == path@,
                forall|t: int| 0 <= t < pathseq.len()
                    ==> 1 <= #[trigger] pathseq[t] <= DIM_LIMIT,
                forall|t: int| 0 < t < pathseq.len()
                    ==> #[trigger] pathseq[t] < pathseq[t - 1],
                current@.len() == pathseq[h as int],
                to_int_seq(current@) == apply_path_prefix(v0, pathseq, h as int),
                values_bounded(to_int_seq(current@), VALUE_LIMIT as int),
            decreases pathseq.len() - h,
        {
            let b = path[h + 1];
            let next = compress_hop(&current, b);
            proof {
                assert(apply_path_prefix(v0, pathseq, h + 1)
                    == hop(
                        apply_path_prefix(v0, pathseq, h as int),
                        pathseq[h as int] as int,
                        pathseq[h + 1] as int,
                    ));
            }
            current = next;
            h = h + 1;
        }
        proof {
            assert(to_int_seq(current@)
                == compression_of(self.levels@, to_int_seq(vector@), from_dim, to_dim));
        }
        Ok(current)
    }
}

/// A fresh vector with the same entries.
fn copy_values(v: &Vec<i64>) -> (r: Vec<i64>)
    ensures
        r@ == v@,
{
    let mut r: Vec<i64> = Vec::new();
    let mut i: usize = 0;
    while i < v.len()
        invariant
            0 <= i <= v@.len(),
            r@ == v@.take(i as int),
        decreases v@.len() - i,
    {
        r.push(v[i]);
        proof {
            assert(r@ =~= v@.take(i + 1));
        }
        i = i + 1;
    }
    proof {
        assert(r@ =~= v@);
    }
    r
}

/// The phi-weighted average of v[start..end]: entry j carries weight
/// psi^(j - start) in fixed point.
fn weighted_group(v: &Vec<i64>, start: usize, end: usize) -> (r: i64)
    requires
        start < end <= v@.len(),
        v@.len() <= DIM_LIMIT,
        values_bounded(to_int_seq(v@), VALUE_LIMIT as int),
    ensures
        r == tdiv(
            weighted_sum(to_int_seq(v@), start as int, end - start),
            weight_total(end - start),
        ),
        -VALUE_LIMIT <= r <= VALUE_LIMIT,
{
    let mut wsum: i128 = 0;
    let mut wtot: u128 = 0;
    let mut w: u64 = SCALE;
    let mut j: usize = start;
    while j < end
        invariant
            start <= j <= end <= v@.len() <= DIM_LIMIT,
            values_bounded(to_int_seq(v@), VALUE_LIMIT as int),
            w == psi_pow_fp((j - start) as nat),
            w <= SCALE,
            wtot == weight_total(j - start),
            wtot <= (j - start) * (SCALE as int),
            wsum == weighted_sum(to_int_seq(v@), start as int, j - start),
            -((VALUE_LIMIT as int) * wtot) <= wsum <= (VALUE_LIMIT as int) * wtot,
        decreases end - j,
    {
        let x = v[j];
        proof {
            assert(to_int_seq(v@)[j as int] == x as int);
            assert(-VALUE_LIMIT <= to_int_seq(v@)[j as int] <= VALUE_LIMIT);
            lemma_psi_pow_fp_bounds((j - start + 1) as nat);
            assert(-((VALUE_LIMIT as int) * w) <= (x as int) * (w as int)
                <= (VALUE_LIMIT as int) * w) by (nonlinear_arith)
                requires
                    -(VALUE_LIMIT as int) <= x as int <= VALUE_LIMIT as int,
                    0 <= w as int,
            {}
            vstd::arithmetic::mul::lemma_mul_is_distributive_add(
                VALUE_LIMIT as int, wtot as int, w as int);
        }
        wsum = wsum + (x as i128) * (w as i128);
        wtot = wtot + (w as u128);
        w = (w * PSI_FP) / SCALE;
        j = j + 1;
    }
    let len = end - start;
    proof {
        lemma_weight_total_bounds(len as int);
        lemma_tdiv_bound(wsum as int, wtot as int, VALUE_LIMIT as int);
        vstd::arithmetic::div_mod::lemma_div_pos_is_pos(
            vstd::math::abs(wsum as int) as int, wtot as int);
        vstd::arithmetic::mul::lemma_mul_is_commutative(VALUE_LIMIT as int, wtot as int);
        vstd::arithmetic::div_mod::lemma_multiply_divide_le(
            vstd::math::abs(wsum as int) as int, wtot as int, VALUE_LIMIT as int);
    }
    if wsum >= 0 {
        let q = (wsum as u128) / wtot;
        q as i64
    } else {
        let q = ((-wsum) as u128) / wtot;
        -(q as i64)
    }
}

/// One hop: reduces `v` to `b` entries, each the phi-weighted average of
/// its window of ceil(len / b) consecutive entries; an empty trailing
/// window yields 0.
fn compress_hop(v: &Vec<i64>, b: usize) -> (r: Vec<i64>)
    requires
        1 <= b < v@.len() <= DIM_LIMIT,
        values_bounded(to_int_seq(v@), VALUE_LIMIT as int),
    ensures
        r@.len() == b,
        to_int_seq(r@) == hop(to_int_seq(v@), v@.len() as int, b as int),
        values_bounded(to_int_seq(r@), VALUE_LIMIT as int),
{
    let a = v.len();
    let gs = (a + b - 1) / b;
    proof {
        vstd::arithmetic::div_mod::lemma_div_is_ordered(b as int, a + b - 1, b as int);
        vstd::arithmetic::div_mod::lemma_div_by_self(b as int);
        assert(a + b - 1 <= b * (a as int)) by (nonlinear_arith)
            requires 1 <= a, 1 <= b,
        {}
        vstd::arithmetic::div_mod::lemma_multiply_divide_le(a + b - 1, b as int, a as int);
    }
    let mut r: Vec<i64> = Vec::new();
    let mut g: usize = 0;
    while g < b
        invariant
            0 <= g <= b,
            1 <= b < a == v@.len() <= DIM_LIMIT,
            1 <= gs == group_size(a as int, b as int),
            gs <= a,
            values_bounded(to_int_seq(v@), VALUE_LIMIT as int),
            r@.len() == g,
            forall|u: int| 0 <= u < g
                ==> #[trigger] r@[u] == hop_entry(to_int_seq(v@), a as int, b as int, u),
            forall|u: int| 0 <= u < g ==> -VALUE_LIMIT <= #[trigger] r@[u] <= VALUE_LIMIT,
        decreases b - g,
    {
        proof {
            assert((g as int) * (gs as int) <= 196418 * 196418) by (nonlinear_arith)
                requires 0 <= g <= 196418, 0 <= gs <= 196418,
            {}
        }
        let start64 = (g as u64) * (gs as u64);
        let entry: i64;
        if start64 >= a as u64 {
            entry = 0;
            proof {
                assert(entry == hop_entry(to_int_seq(v@), a as int, b as int, g as int));
            }
        } else {
            let start = start64 as usize;
            let end64 = start64 + (gs as u64);
            let end = if end64 <= a as u64 { end64 as usize } else { a };
            entry = weighted_group(v, start, end);
            proof {
                assert(entry == hop_entry(to_int_seq(v@), a as int, b as int, g as int));
            }
        }
        r.push(entry);
        g = g + 1;
    }
    proof {
        assert forall|u: int| 0 <= u < b
            implies to_int_seq(r@)[u] == hop(to_int_seq(v@), a as int, b as int)[u] by {
            assert(to_int_seq(r@)[u] == r@[u] as int);
            assert(r@[u] == hop_entry(to_int_seq(v@), a as int, b as int, u));
        }
        assert(to_int_seq(r@) =~= hop(to_int_seq(v@), a as int, b as int));
        assert forall|u: int| 0 <= u < to_int_seq(r@).len()
            implies -(VALUE_LIMIT as int) <= #[trigger] to_int_seq(r@)[u] <= VALUE_LIMIT as int by {
            assert(to_int_seq(r@)[u] == r@[u] as int);
        }
    }
    r
}

} // verus!

//! The stage catalogue: an ordered table of stages, each with a strictly
//! increasing target dimension and a non-decreasing activation threshold.

use vstd::prelude::*;
use crate::phi::{SCALE, fib, lemma_fib_monotonic, lemma_fib_27};

verus! {

/// Number of stages in the default catalogue.
pub const NUM_STAGES: usize = 24;

/// The largest target dimension a table may catalogue: fib(27), the
/// dimension of the last default stage.  Bounding dimensions here keeps all
/// downstream fixed-point arithmetic within machine integers.
pub const DIM_LIMIT: usize = 196_418;

/// One immutable stage record.
#[derive(Clone, Copy, Debug, PartialEq, Eq, Structural)]
pub struct Stage {
    /// Position in the catalogue, starting at 1.
    pub index: usize,
    /// Dimension a vector should be reduced to while this stage is active.
    pub target_dimension: usize,
    /// Fixed-point progress value (in [0, SCALE]) at which the stage activates.
    pub activation_threshold: u64,
}

/// Errors of table construction and lookup.
#[derive(Clone, Copy, Debug, PartialEq, Eq, Structural)]
pub enum TableError {
    /// The requested stage count or prefix length is not in [1, NUM_STAGES].
    CountOutOfRange,
    /// The dimensions handed to a custom table are empty, not strictly
    /// increasing, or not within [1, DIM_LIMIT].
    InvalidDimensions,
}

/// The ordered stage catalogue.
#[derive(Clone, Debug)]
pub struct StageTable {
    pub stages: Vec<Stage>,
}

/// The target dimension of default stage number k (1-based): fib(k + 3).
pub open spec fn default_dim(k: int) -> nat {
    fib((k + 3) as nat)
}

/// The activation threshold of stage number k (1-based) in a table of n
/// stages: thresholds climb linearly from 0 at the first stage to SCALE at
/// the last.
pub open spec fn linear_threshold(k: int, n: int) -> int {
    if n <= 1 {
        0
    } else {
        (k - 1) * SCALE / (n - 1)
    }
}

/// Sum of the target dimensions of the first n default stages.
pub open spec fn sum_default_dims(n: nat) -> nat
    decreases n,
{
    if n == 0 {
        0
    } else {
        sum_default_dims((n - 1) as nat) + default_dim(n as int)
    }
}

/// Every Fibonacci number from fib(1) on is at least 1.
pub proof fn lemma_fib_positive(n: nat)
    requires
        n >= 1,
    ensures
        fib(n) >= 1,
    decreases n,
{
    if n == 2 {
        assert(fib(1) == 1);
    } else if n > 2 {
        lemma_fib_positive((n - 1) as nat);
    }
}

/// From fib(2) on the Fibonacci numbers grow strictly.
pub proof fn lemma_fib_strictly_increasing(i: nat, j: nat)
    requires
        2 <= i < j,
    ensures
        fib(i) < fib(j),
    decreases j,
{
    lemma_fib_positive((j - 2) as nat);
    if i < j - 1 {
        lemma_fib_strictly_increasing(i, (j - 1) as nat);
    }
}

/// Linear thresholds are monotone in the stage number and bounded by SCALE.
pub proof fn lemma_linear_threshold_bounds(k: int, n: int)
    requires
        1 <= k <= n,
    ensures
        0 <= linear_threshold(k, n) <= SCALE,
        k < n ==> linear_threshold(k, n) < SCALE,
        k == n && n > 1 ==> linear_threshold(k, n) == SCALE,
{
    if n > 1 {
        vstd::arithmetic::div_mod::lemma_div_pos_is_pos((k - 1) * SCALE, n - 1);
        assert((k - 1) * SCALE <= (n - 1) * (SCALE as int)) by (nonlinear_arith)
            requires 0 <= k - 1 <= n - 1,
        {}
        vstd::arithmetic::div_mod::lemma_multiply_divide_le(
            (k - 1) * SCALE, n - 1, SCALE as int);
        if k < n {
            assert((k - 1) * SCALE < (n - 1) * (SCALE as int)) by (nonlinear_arith)
                requires 0 <= k - 1 < n - 1, SCALE >= 1,
            {}
            vstd::arithmetic::div_mod::lemma_multiply_divide_lt(
                (k - 1) * SCALE, n - 1, SCALE as int);
        }
        if k == n {
            vstd::arithmetic::div_mod::lemma_div_multiples_vanish(SCALE as int, n - 1);
            assert((n - 1) * SCALE == (n - 1) * (SCALE as int));
        }
    }
}

/// Thresholds of earlier stages never exceed those of later ones.
pub proof fn lemma_linear_threshold_monotone(k1: int, k2: int, n: int)
    requires
        1 <= k1 <= k2 <= n,
    ensures
        linear_threshold(k1, n) <= linear_threshold(k2, n),
{
    if n > 1 {
        assert((k1 - 1) * SCALE <= (k2 - 1) * SCALE) by (nonlinear_arith)
            requires k1 <= k2,
        {}
        vstd::arithmetic::div_mod::lemma_div_is_ordered(
            (k1 - 1) * SCALE, (k2 - 1) * SCALE, n - 1);
    }
}

impl StageTable {
    /// Well-formedness: indices run 1..=len, dimensions are strictly
    /// increasing within [1, DIM_LIMIT], thresholds are non-decreasing
    /// within [0, SCALE].
    pub open spec fn wf(self) -> bool {
        &&& self.stages@.len() >= 1
        &&& forall|k: int| 0 <= k < self.stages@.len()
                ==> (#[trigger] self.stages@[k]).index == k + 1
        &&& forall|k: int| 0 <= k < self.stages@.len()
                ==> 1 <= (#[trigger] self.stages@[k]).target_dimension <= DIM_LIMIT
        &&& forall|i: int, j: int| 0 <= i < j < self.stages@.len()
                ==> (#[trigger] self.stages@[i]).target_dimension
                    < (#[trigger] self.stages@[j]).target_dimension
        &&& forall|i: int, j: int| 0 <= i <= j < self.stages@.len()
                ==> (#[trigger] self.stages@[i]).activation_threshold
                    <= (#[trigger] self.stages@[j]).activation_threshold
        &&& forall|k: int| 0 <= k < self.stages@.len()
                ==> (#[trigger] self.stages@[k]).activation_threshold <= SCALE
    }

    /// Number of stages.
    pub fn len(&self) -> (r: usize)
        ensures
            r == self.stages@.len(),
    {
        self.stages.len()
    }

    /// The default catalogue: NUM_STAGES stages whose dimensions follow the
    /// Fibonacci progression fib(4), fib(5), ..., fib(27) and whose
    /// thresholds climb linearly from 0 to SCALE.
    pub fn new() -> (t: StageTable)
        ensures
            t.wf(),
            t.stages@.len() == NUM_STAGES,
            forall|k: int| 0 <= k < NUM_STAGES
                ==> (#[trigger] t.stages@[k]).target_dimension == default_dim(k + 1),
            forall|k: int| 0 <= k < NUM_STAGES
                ==> (#[trigger] t.stages@[k]).activation_threshold
                    == linear_threshold(k + 1, NUM_STAGES as int),
    {
        let mut stages: Vec<Stage> = Vec::new();
        proof {
            assert(fib(0) == 0);
            assert(fib(1) == 1);
            assert(fib(2) == 1);
            assert(fib(3) == 2);
            assert(fib(4) == 3);
        }
        let mut a: u64 = 2;
        let mut b: u64 = 3;
        let mut k: usize = 0;
        while k < NUM_STAGES
            invariant
                0 <= k <= NUM_STAGES,
                stages@.len() == k,
                a == fib((k + 3) as nat),
                b == fib((k + 4) as nat),
                forall|i: int| 0 <= i < k ==> (#[trigger] stages@[i]).index == i + 1,
                forall|i: int| 0 <= i < k
                    ==> (#[trigger] stages@[i]).target_dimension == default_dim(i + 1),
                forall|i: int| 0 <= i < k
                    ==> (#[trigger] stages@[i]).activation_threshold
                        == linear_threshold(i + 1, NUM_STAGES as int),
            decreases NUM_STAGES - k,
        {
            proof {
                lemma_fib_monotonic((k + 3) as nat, 27);
                lemma_fib_monotonic((k + 4) as nat, 27);
                lemma_fib_27();
            }
            let threshold: u64 = (k as u64) * SCALE / ((NUM_STAGES as u64) - 1);
            assert(threshold == linear_threshold(k + 1, NUM_STAGES as int));
            stages.push(Stage {
                index: k + 1,
                target_dimension: b as usize,
                activation_threshold: threshold,
            });
            let c = a + b;
            a = b;
            b = c;
            k = k + 1;
        }
        let t = StageTable { stages };
        proof {
            assert forall|i: int| 0 <= i < NUM_STAGES
                implies 1 <= (#[trigger] t.stages@[i]).target_dimension <= DIM_LIMIT by {
                lemma_fib_positive((i + 4) as nat);
                lemma_fib_monotonic((i + 4) as nat, 27);
                lemma_fib_27();
            }
            assert forall|i: int, j: int| 0 <= i < j < NUM_STAGES
                implies (#[trigger] t.stages@[i]).target_dimension
                    < (#[trigger] t.stages@[j]).target_dimension by {
                lemma_fib_strictly_increasing((i + 4) as nat, (j + 4) as nat);
            }
            assert forall|i: int, j: int| 0 <= i <= j < NUM_STAGES
                implies (#[trigger] t.stages@[i]).activation_threshold
                    <= (#[trigger] t.stages@[j]).activation_threshold by {
                lemma_linear_threshold_monotone(i + 1, j + 1, NUM_STAGES as int);
            }
            assert forall|k2: int| 0 <= k2 < NUM_STAGES
                implies (#[trigger] t.stages@[k2]).activation_threshold <= SCALE by {
                lemma_linear_threshold_bounds(k2 + 1, NUM_STAGES as int);
            }
        }
        t
    }

    /// Whether a sequence of dimensions is acceptable for a custom table.
    pub open spec fn dims_valid(dims: Seq<usize>) -> bool {
        &&& dims.len() >= 1
        &&& forall|k: int| 0 <= k < dims.len() ==> 1 <= #[trigger] dims[k] <= DIM_LIMIT
        &&& forall|k: int| 0 < k < dims.len() ==> dims[k - 1] < #[trigger] dims[k]
    }

    /// A custom catalogue over the given strictly increasing dimensions,
    /// with the same linear threshold rule as the default table.
    pub fn from_dimensions(dims: &Vec<usize>) -> (r: Result<StageTable, TableError>)
        ensures
            match r {
                Ok(t) => {
                    &&& Self::dims_valid(dims@)
                    &&& t.wf()
                    &&& t.stages@.len() == dims@.len()
                    &&& forall|k: int| 0 <= k < dims@.len()
                        ==> (#[trigger] t.stages@[k]).target_dimension == dims@[k]
                    &&& forall|k: int| 0 <= k < dims@.len()
                        ==> (#[trigger] t.stages@[k]).activation_threshold
                            == linear_threshold(k + 1, dims@.len() as int)
                },
                Err(e) => {
                    &&& e == TableError::InvalidDimensions
                    &&& !Self::dims_valid(dims@)
                },
            },
    {
        if dims.len() == 0 {
            return Err(TableError::InvalidDimensions);
        }
        let n = dims.len();
        let mut stages: Vec<Stage> = Vec::new();
        let mut k: usize = 0;
        while k < n
            invariant
                0 <= k <= n,
                n == dims@.len() >= 1,
                stages@.len() == k,
                forall|i: int| 0 <= i < k ==> 1 <= #[trigger] dims@[i] <= DIM_LIMIT,
                forall|i: int| 0 < i < k ==> dims@[i - 1] < #[trigger] dims@[i],
                forall|i: int| 0 <= i < k ==> (#[trigger] stages@[i]).index == i + 1,
                forall|i: int| 0 <= i < k
                    ==> (#[trigger] stages@[i]).target_dimension == dims@[i],
                forall|i: int| 0 <= i < k
                    ==> (#[trigger] stages@[i]).activation_threshold
                        == linear_threshold(i + 1, n as int),
            decreases n - k,
        {
            let d = dims[k];
            if d < 1 || d > DIM_LIMIT {
                return Err(TableError::InvalidDimensions);
            }
            if k > 0 && dims[k - 1] >= d {
                return Err(TableError::InvalidDimensions);
            }
            // n <= DIM_LIMIT because the dimensions seen so far increase
            // strictly within [1, DIM_LIMIT]; the threshold product then
            // stays far below u64::MAX.
            proof {
                lemma_strictly_increasing_bounds_index(dims@, k as int);
            }
            let threshold: u64 = if n == 1 {
                0
            } else {
                (k as u64) * SCALE / ((n as u64) - 1)
            };
            assert(threshold == linear_threshold(k + 1, n as int));
            stages.push(Stage { index: k + 1, target_dimension: d, activation_threshold: threshold });
            k = k + 1;
        }
        let t = StageTable { stages };
        proof {
            assert forall|i: int, j: int| 0 <= i < j < t.stages@.len()
                implies (#[trigger] t.stages@[i]).target_dimension
                    < (#[trigger] t.stages@[j]).target_dimension by {
                lemma_seq_strictly_increasing(dims@, i, j);
            }
            assert forall|i: int, j: int| 0 <= i <= j < t.stages@.len()
                implies (#[trigger] t.stages@[i]).activation_threshold
                    <= (#[trigger] t.stages@[j]).activation_threshold by {
                lemma_linear_threshold_monotone(i + 1, j + 1, n as int);
            }
            assert forall|k2: int| 0 <= k2 < t.stages@.len()
                implies (#[trigger] t.stages@[k2]).activation_threshold <= SCALE by {
                lemma_linear_threshold_bounds(k2 + 1, n as int);
            }
        }
        Ok(t)
    }
}

/// In a sequence whose first k+1 elements increase strictly from at least 1,
/// element k is at least k + 1; so an index into such a sequence of values
/// bounded by DIM_LIMIT is itself below DIM_LIMIT.
pub proof fn lemma_strictly_increasing_bounds_index(dims: Seq<usize>, k: int)
    requires
        0 <= k < dims.len(),
        forall|i: int| 0 <= i <= k ==> 1 <= #[trigger] dims[i],
        forall|i: int| 0 < i <= k ==> dims[i - 1] < #[trigger] dims[i],
    ensures
        dims[k] >= k + 1,
    decreases k,
{
    if k > 0 {
        lemma_strictly_increasing_bounds_index(dims, k - 1);
    }
}

/// Adjacent strict increase extends to any pair of positions.
pub proof fn lemma_seq_strictly_increasing(dims: Seq<usize>, i: int, j: int)
    requires
        0 <= i < j < dims.len(),
        forall|k: int| 0 < k < dims.len() ==> dims[k - 1] < #[trigger] dims[k],
    ensures
        dims[i] < dims[j],
    decreases j - i,
{
    if i + 1 < j {
        lemma_seq_strictly_increasing(dims, i + 1, j);
    }
}

/// Sum of the target dimensions of the first n default stages; n must be
/// in [1, NUM_STAGES].
pub fn suma_dimensiones_primeros_n(n: usize) -> (r: Result<usize, TableError>)
    ensures
        match r {
            Ok(s) => 1 <= n <= NUM_STAGES && s == sum_default_dims(n as nat),
            Err(e) => e == TableError::CountOutOfRange && (n == 0 || n > NUM_STAGES),
        },
{
    if n == 0 || n > NUM_STAGES {
        return Err(TableError::CountOutOfRange);
    }
    proof {
        assert(fib(0) == 0);
        assert(fib(1) == 1);
        assert(fib(2) == 1);
        assert(fib(3) == 2);
        assert(fib(4) == 3);
    }
    let mut a: u64 = 2;
    let mut b: u64 = 3;
    let mut acc: u64 = 0;
    let mut k: usize = 0;
    while k < n
        invariant
            0 <= k <= n <= NUM_STAGES,
            a == fib((k + 3) as nat),
            b == fib((k + 4) as nat),
            acc == sum_default_dims(k as nat),
        decreases n - k,
    {
        proof {
            lemma_fib_monotonic((k + 3) as nat, 27);
            lemma_fib_monotonic((k + 4) as nat, 27);
            lemma_fib_27();
            lemma_sum_default_dims_bound(k as nat);
            assert(acc <= k * 196418);
            assert(k * 196418 <= 23 * 196418) by (nonlinear_arith)
                requires 0 <= k <= 23,
            {}
        }
        acc = acc + b;
        let c = a + b;
        a = b;
        b = c;
        k = k + 1;
    }
    proof {
        lemma_sum_default_dims_bound(n as nat);
        assert(n * 196418 <= 24 * 196418) by (nonlinear_arith)
            requires 0 <= n <= 24,
        {}
    }
    Ok(acc as usize)
}

/// The summed default dimensions of any admissible prefix stay below 2^22,
/// so the sum fits every machine word.
pub proof fn lemma_sum_default_dims_bound(n: nat)
    requires
        n <= NUM_STAGES,
    ensures
        sum_default_dims(n) <= n * 196418,
    decreases n,
{
    if n > 0 {
        lemma_sum_default_dims_bound((n - 1) as nat);
        lemma_fib_monotonic((n + 3) as nat, 27);
        lemma_fib_27();
        assert((n - 1) * 196418 + 196418 == n * 196418) by (nonlinear_arith) {}
    }
}

} // verus!

//! The recurrence engine: advances a bounded scalar progress value with a
//! saturating update rule, keeps the full history, and can be reset to the
//! construction-time snapshot.

use vstd::prelude::*;
use crate::phi::{SCALE, PSI_FP, Z0};

verus! {

/// The step scale epsilon = 0.001 in fixed point: each step closes a
/// fraction (phi - 1) * epsilon of the remaining distance to SCALE.
pub const STEP_SCALE: u64 = 1_000_000;

/// Once the remaining distance SCALE - value falls below this many
/// fixed-point units, one step gains less than one unit and the value
/// freezes: the sequence has converged to 1.0 within the step scale's
/// precision.
pub const STEP_RESOLUTION: u64 = 1_619;

/// Errors of the recurrence engine.
#[derive(Clone, Copy, Debug, PartialEq, Eq, Structural)]
pub enum EngineError {
    /// The requested initial value lies outside the open interval (0, 1).
    InvalidInitialValue,
    /// The step budget ran out before the target value was reached.
    ThresholdUnreachable,
}

/// An initial value is admissible when it lies strictly between 0 and 1.
pub open spec fn valid_initial(z: int) -> bool {
    0 < z < SCALE
}

/// The initial value a construction request stands for: the given value, or
/// the default Z0.
pub open spec fn requested_initial(initial: Option<u64>) -> u64 {
    match initial {
        Some(z) => z,
        None => Z0,
    }
}

/// What one step gains: the remaining distance to SCALE, scaled by
/// (phi - 1) * epsilon, truncated to fixed-point units.
pub open spec fn step_gain(z: int) -> int {
    (SCALE - z) * PSI_FP * STEP_SCALE / ((SCALE as int) * (SCALE as int))
}

/// The saturating update rule: z + (1 - z) * (phi - 1) * epsilon in fixed
/// point.
pub open spec fn step_value(z: int) -> int {
    z + step_gain(z)
}

/// The value after n steps from z.
pub open spec fn iterated_step(z: int, n: nat) -> int
    decreases n,
{
    if n == 0 {
        z
    } else {
        step_value(iterated_step(z, (n - 1) as nat))
    }
}

/// One step never moves the value down, never reaches SCALE from below it,
/// and gains at least one unit while the remaining distance is at least
/// STEP_RESOLUTION.
pub proof fn lemma_step_properties(z: int)
    requires
        0 <= z < SCALE,
    ensures
        0 <= step_gain(z) < SCALE - z,
        z <= step_value(z) < SCALE,
        SCALE - z >= STEP_RESOLUTION ==> step_gain(z) >= 1,
{
    let d = SCALE - z;
    let num = (SCALE - z) * PSI_FP * STEP_SCALE;
    let den = (SCALE as int) * (SCALE as int);
    assert(0 <= num && num < den * d && (d >= 1_619 ==> num >= den)) by (nonlinear_arith)
        requires
            1 <= d,
            num == d * 618_033_989 * 1_000_000,
            den == 1_000_000_000_000_000_000,
    {}
    vstd::arithmetic::div_mod::lemma_div_pos_is_pos(num, den);
    vstd::arithmetic::div_mod::lemma_multiply_divide_lt(num, den, d);
    if d >= STEP_RESOLUTION {
        vstd::arithmetic::div_mod::lemma_div_is_ordered(den, num, den);
        vstd::arithmetic::div_mod::lemma_div_by_self(den);
    }
}

/// The whole trajectory from a valid start stays within [z, SCALE), and is
/// non-decreasing from one step to the next.
pub proof fn lemma_iterated_step_bounds(z: int, n: nat)
    requires
        0 < z < SCALE,
    ensures
        z <= iterated_step(z, n) < SCALE,
        iterated_step(z, n) <= iterated_step(z, (n + 1) as nat),
    decreases n,
{
    if n == 0 {
        lemma_step_properties(z);
    } else {
        lemma_iterated_step_bounds(z, (n - 1) as nat);
        lemma_step_properties(iterated_step(z, (n - 1) as nat));
        lemma_step_properties(iterated_step(z, n));
    }
}

/// The recurrence engine: a progress value in (0, SCALE), its iteration
/// count, and the append-only history of values, with history entry 0 equal
/// to the construction-time initial value.  The history grows without bound;
/// a caller who needs bounded memory resets the engine or keeps its own
/// window of the returned values.
#[derive(Clone, Debug)]
pub struct RecurrenceEngine {
    pub value: u64,
    pub iteration: u64,
    pub history: Vec<u64>,
    pub initial: u64,
}

impl RecurrenceEngine {
    /// Well-formedness: the history holds exactly the trajectory of the
    /// update rule from the initial value, entry by entry, and the current
    /// value is its last entry.
    pub open spec fn wf(self) -> bool {
        &&& valid_initial(self.initial as int)
        &&& self.history@.len() == self.iteration + 1
        &&& self.history@[0] == self.initial
        &&& self.history@[self.iteration as int] == self.value
        &&& forall|i: int| 0 <= i < self.iteration
                ==> #[trigger] self.history@[i + 1] == step_value(self.history@[i] as int)
        &&& forall|i: int| 0 <= i <= self.iteration
                ==> 0 < #[trigger] self.history@[i] < SCALE
    }

    /// Builds an engine at the given initial value, or at Z0 when none is
    /// given.  Succeeds exactly when the initial value lies in (0, 1).
    pub fn new(initial: Option<u64>) -> (r: Result<RecurrenceEngine, EngineError>)
        ensures
            match r {
                Ok(e) => {
                    &&& valid_initial(requested_initial(initial) as int)
                    &&& e.wf()
                    &&& e.initial == requested_initial(initial)
                    &&& e.value == e.initial
                    &&& e.iteration == 0
                    &&& e.history@ == seq![requested_initial(initial)]
                },
                Err(err) => {
                    &&& err == EngineError::InvalidInitialValue
                    &&& !valid_initial(requested_initial(initial) as int)
                },
            },
    {
        let z = match initial {
            Some(z) => z,
            None => Z0,
        };
        if z == 0 || z >= SCALE {
            return Err(EngineError::InvalidInitialValue);
        }
        let mut history: Vec<u64> = Vec::new();
        history.push(z);
        proof {
            assert(history@ =~= seq![requested_initial(initial)]);
        }
        Ok(RecurrenceEngine { value: z, iteration: 0, history, initial: z })
    }

    /// The current progress value.
    pub fn value(&self) -> (r: u64)
        ensures
            r == self.value,
    {
        self.value
    }

    /// The current iteration count.
    pub fn iteration(&self) -> (r: u64)
        ensures
            r == self.iteration,
    {
        self.iteration
    }

    /// The full history of values, index 0 being the initial value.
    pub fn history(&self) -> (r: &Vec<u64>)
        ensures
            r@ == self.history@,
    {
        &self.history
    }

    /// Advances one iteration and returns the new value.  The new value is
    /// exactly the update rule applied to the old one: it never decreases,
    /// never reaches SCALE, and is appended to the history.
    pub fn step(&mut self) -> (r: u64)
        requires
            old(self).wf(),
            old(self).history@.len() < usize::MAX,
        ensures
            final(self).wf(),
            final(self).initial == old(self).initial,
            final(self).iteration == old(self).iteration + 1,
            r == final(self).value,
            r == step_value(old(self).value as int),
            old(self).value <= r < SCALE,
            final(self).history@ == old(self).history@.push(r),
    {
        let z = self.value;
        proof {
            lemma_step_properties(z as int);
        }
        let num: u128 = ((SCALE - z) as u128) * (PSI_FP as u128) * (STEP_SCALE as u128);
        let den: u128 = (SCALE as u128) * (SCALE as u128);
        let gain: u64 = (num / den) as u64;
        let next = z + gain;
        self.value = next;
        self.iteration = self.iteration + 1;
        self.history.push(next);
        next
    }

    /// Advances k iterations and returns the k values produced, in order.
    pub fn step_many(&mut self, k: u64) -> (r: Vec<u64>)
        requires
            old(self).wf(),
            old(self).history@.len() + k < usize::MAX,
        ensures
            final(self).wf(),
            final(self).initial == old(self).initial,
            final(self).iteration == old(self).iteration + k,
            final(self).value == iterated_step(old(self).value as int, k as nat),
            r@.len() == k,
            forall|j: int| 0 <= j < k
                ==> #[trigger] r@[j] == iterated_step(old(self).value as int, (j + 1) as nat),
            final(self).history@ == old(self).history@ + r@,
    {
        let mut r: Vec<u64> = Vec::new();
        let mut i: u64 = 0;
        while i < k
            invariant
                0 <= i <= k,
                self.wf(),
                self.initial == old(self).initial,
                self.iteration == old(self).iteration + i,
                self.history@.len() == old(self).history@.len() + i,
                old(self).history@.len() + k < usize::MAX,
                self.value == iterated_step(old(self).value as int, i as nat),
                r@.len() == i,
                forall|j: int| 0 <= j < i
                    ==> #[trigger] r@[j] == iterated_step(old(self).value as int, (j + 1) as nat),
                self.history@ == old(self).history@ + r@,
            decreases k - i,
        {
            let v = self.step();
            r.push(v);
            i = i + 1;
        }
        r
    }

    /// Steps until the value reaches `target`, within a budget of
    /// `max_steps`.  Returns the number of steps taken and the value
    /// reached; returns at once with zero steps when the target is already
    /// met.  Fails with ThresholdUnreachable exactly when even max_steps
    /// steps stay below the target; the steps taken remain applied.
    pub fn evolve_to_threshold(&mut self, target: u64, max_steps: u64)
        -> (r: Result<(u64, u64), EngineError>)
        requires
            old(self).wf(),
            old(self).history@.len() + max_steps < usize::MAX,
        ensures
            final(self).wf(),
            final(self).initial == old(self).initial,
            match r {
                Ok((steps, v)) => {
                    &&& steps <= max_steps
                    &&& v == iterated_step(old(self).value as int, steps as nat)
                    &&& v >= target
                    &&& forall|j: nat| j < steps
                        ==> #[trigger] iterated_step(old(self).value as int, j) < target
                    &&& final(self).value == v
                    &&& final(self).iteration == old(self).iteration + steps
                },
                Err(err) => {
                    &&& err == EngineError::ThresholdUnreachable
                    &&& forall|j: nat| j <= max_steps
                        ==> #[trigger] iterated_step(old(self).value as int, j) < target
                    &&& final(self).value == iterated_step(old(self).value as int, max_steps as nat)
                    &&& final(self).iteration == old(self).iteration + max_steps
                },
            },
    {
        let mut s: u64 = 0;
        while self.value < target && s < max_steps
            invariant
                0 <= s <= max_steps,
                self.wf(),
                self.initial == old(self).initial,
                self.iteration == old(self).iteration + s,
                self.history@.len() == old(self).history@.len() + s,
                old(self).history@.len() + max_steps < usize::MAX,
                self.value == iterated_step(old(self).value as int, s as nat),
                forall|j: nat| j < s
                    ==> #[trigger] iterated_step(old(self).value as int, j) < target,
            decreases max_steps - s,
        {
            self.step();
            s = s + 1;
        }
        if self.value >= target {
            Ok((s, self.value))
        } else {
            Err(EngineError::ThresholdUnreachable)
        }
    }

    /// Restores the construction-time snapshot: the value returns to the
    /// initial value, the iteration count to zero, and the history to the
    /// single initial entry.
    pub fn reset(&mut self)
        requires
            old(self).wf(),
        ensures
            final(self).wf(),
            final(self).initial == old(self).initial,
            final(self).value == old(self).initial,
            final(self).iteration == 0,
            final(self).history@ == seq![old(self).initial],
    {
        self.value = self.initial;
        self.iteration = 0;
        let mut history: Vec<u64> = Vec::new();
        history.push(self.initial);
        self.history = history;
        proof {
            assert(self.history@ =~= seq![old(self).initial]);
        }
    }
}

/// Runs one independent engine per initial value for the given number of
/// steps and returns each engine's trajectory.  The engines share nothing.
pub fn batch_evolution(initials: &Vec<u64>, steps: u64) -> (r: Vec<Vec<u64>>)
    requires
        forall|i: int| 0 <= i < initials@.len() ==> valid_initial(#[trigger] initials@[i] as int),
        steps + 1 < usize::MAX,
    ensures
        r@.len() == initials@.len(),
        forall|i: int| 0 <= i < r@.len() ==> #[trigger] r@[i]@.len() == steps,
        forall|i: int, j: int| 0 <= i < r@.len() && 0 <= j < steps
            ==> #[trigger] r@[i]@[j] == iterated_step(initials@[i] as int, (j + 1) as nat),
{
    let mut r: Vec<Vec<u64>> = Vec::new();
    let mut i: usize = 0;
    while i < initials.len()
        invariant
            0 <= i <= initials@.len(),
            steps + 1 < usize::MAX,
            forall|t: int| 0 <= t < initials@.len()
                ==> valid_initial(#[trigger] initials@[t] as int),
            r@.len() == i,
            forall|t: int| 0 <= t < i ==> #[trigger] r@[t]@.len() == steps,
            forall|t: int, j: int| 0 <= t < i && 0 <= j < steps
                ==> #[trigger] r@[t]@[j] == iterated_step(initials@[t] as int, (j + 1) as nat),
        decreases initials@.len() - i,
    {
        let z = initials[i];
        let engine = RecurrenceEngine::new(Some(z));
        match engine {
            Ok(mut e) => {
                let trajectory = e.step_many(steps);
                r.push(trajectory);
            },
            Err(_) => {
                // Unreachable: every initial value was required to be valid.
                proof {
                    assert(false);
                }
            },
        }
        i = i + 1;
    }
    r
}

} // verus!

//! The stage navigator: a pointer into the stage catalogue that moves only
//! between adjacent stages, plus the activation rule that says which stages
//! a progress value has reached.

use vstd::prelude::*;
use crate::phi::{SCALE, PSI_FP};
use crate::stage::{Stage, StageTable};
use crate::progress::Event;

verus! {

/// Errors of a stage transition.
#[derive(Clone, Copy, Debug, PartialEq, Eq, Structural)]
pub enum TransitionError {
    /// The requested index is not in [1, N].
    OutOfRange,
    /// The requested index is more than one stage away.
    NonAdjacent,
}

/// The navigator: a catalogue and the 1-based index of the active stage.
#[derive(Clone, Debug)]
pub struct StageNavigator {
    pub table: StageTable,
    pub current_index: usize,
}

impl StageNavigator {
    /// Well-formedness: the catalogue is well formed and the pointer stays
    /// inside it.
    pub open spec fn wf(self) -> bool {
        &&& self.table.wf()
        &&& 1 <= self.current_index <= self.table.stages@.len()
    }

    /// A navigator over the given catalogue, starting at stage 1.
    pub fn new(table: StageTable) -> (r: StageNavigator)
        requires
            table.wf(),
        ensures
            r.wf(),
            r.table == table,
            r.current_index == 1,
    {
        StageNavigator { table, current_index: 1 }
    }

    /// The record of the active stage.
    pub fn active_stage(&self) -> (r: Stage)
        requires
            self.wf(),
        ensures
            r == self.table.stages@[self.current_index - 1],
            r.index == self.current_index,
    {
        self.table.stages[self.current_index - 1]
    }

    /// Moves the pointer to `index`.  Fails with OutOfRange when `index` is
    /// not in [1, N] and with NonAdjacent when it is more than one stage
    /// away; on failure nothing changes.  On success returns the resonance
    /// factor phi^(-|delta|) in fixed point: SCALE for an in-place move,
    /// PSI_FP for a move by one.
    pub fn transition_to(&mut self, index: usize) -> (r: Result<u64, TransitionError>)
        requires
            old(self).wf(),
        ensures
            final(self).wf(),
            final(self).table == old(self).table,
            match r {
                Ok(factor) => {
                    &&& 1 <= index <= old(self).table.stages@.len()
                    &&& index <= old(self).current_index + 1
                    &&& old(self).current_index <= index + 1
                    &&& final(self).current_index == index
                    &&& factor == (
                        if index == old(self).current_index { SCALE as int } else { PSI_FP as int }
                    )
                },
                Err(err) => {
                    &&& *final(self) == *old(self)
                    &&& (err == TransitionError::OutOfRange
                        <==> !(1 <= index <= old(self).table.stages@.len()))
                    &&& (err == TransitionError::NonAdjacent
                        <==> (1 <= index <= old(self).table.stages@.len()
                            && (index > old(self).current_index + 1
                                || index + 1 < old(self).current_index)))
                },
            },
    {
        if index < 1 || index > self.table.len() {
            return Err(TransitionError::OutOfRange);
        }
        let delta = if index >= self.current_index {
            index - self.current_index
        } else {
            self.current_index - index
        };
        if delta > 1 {
            return Err(TransitionError::NonAdjacent);
        }
        self.current_index = index;
        if delta == 0 {
            Ok(SCALE)
        } else {
            Ok(PSI_FP)
        }
    }

    /// The stages a progress value activates under the monotone threshold
    /// rule `activation_threshold <= value`.  Because the catalogue's
    /// thresholds never decrease, the result is always the contiguous
    /// prefix of stages 1..=k whose thresholds the value has reached, and a
    /// stage is in the result exactly when its threshold is at most `value`.
    pub fn active_set(&self, value: u64) -> (r: Vec<Stage>)
        requires
            self.wf(),
        ensures
            r@.len() <= self.table.stages@.len(),
            r@ == self.table.stages@.take(r@.len() as int),
            forall|i: int| 0 <= i < self.table.stages@.len()
                ==> ((#[trigger] self.table.stages@[i]).activation_threshold <= value
                    <==> i < r@.len()),
    {
        let n = self.table.len();
        let mut r: Vec<Stage> = Vec::new();
        let mut i: usize = 0;
        while i < n && self.table.stages[i].activation_threshold <= value
            invariant
                0 <= i <= n,
                n == self.table.stages@.len(),
                self.wf(),
                r@.len() == i,
                r@ == self.table.stages@.take(i as int),
                forall|j: int| 0 <= j < i
                    ==> (#[trigger] self.table.stages@[j]).activation_threshold <= value,
            decreases n - i,
        {
            r.push(self.table.stages[i]);
            proof {
                assert(r@ =~= self.table.stages@.take(i + 1));
            }
            i = i + 1;
        }
        r
    }

    /// Consumes one accountant event: a StageStepCompleted advances the
    /// pointer by one stage unless the last stage is already active (the
    /// last stage is absorbing); any other event changes nothing.
    pub fn advance_on_stage_step(&mut self, event: Event)
        requires
            old(self).wf(),
        ensures
            final(self).wf(),
            final(self).table == old(self).table,
            final(self).current_index == (
                if event == Event::StageStepCompleted
                    && old(self).current_index < old(self).table.stages@.len() {
                    old(self).current_index + 1
                } else {
                    old(self).current_index as int
                }
            ),
    {
        match event {
            Event::StageStepCompleted => {
                if self.current_index < self.table.len() {
                    let target = self.current_index + 1;
                    let moved = self.transition_to(target);
                    proof {
                        assert(moved is Ok);
                    }
                }
            },
            _ => {},
        }
    }
}

/// Law: under a monotone threshold rule, activation is downward closed —
/// when a stage's threshold is reached, so is every earlier stage's.  This
/// is what makes the active set a contiguous prefix of the catalogue.
pub proof fn lemma_activation_is_downward_closed(t: StageTable, value: u64, i: int, j: int)
    requires
        t.wf(),
        0 <= i <= j < t.stages@.len(),
        t.stages@[j].activation_threshold <= value,
    ensures
        t.stages@[i].activation_threshold <= value,
{
}

} // verus!

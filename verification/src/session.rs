//! One simulation session: the recurrence engine, the progress accountant
//! and the stage navigator wired together.  Each advance steps the engine,
//! folds the gained value into the accountant, and moves the navigator one
//! stage per completed stage step.

use vstd::prelude::*;
use crate::phi::{SCALE, UNITS_PER_STAGE_STEP};
use crate::recurrence::{step_gain, step_value, EngineError, RecurrenceEngine};
use crate::progress::{
    events_of, new_clusters_of, new_groups_of, steps_of, units_after, Event, GranularProgress,
};
use crate::navigator::StageNavigator;
use crate::stage::StageTable;

verus! {

/// A session owns its three components; nothing is shared.  The
/// accountant's stage steps are consumed on every advance, so between
/// advances its stage-step counter is zero.
#[derive(Clone, Debug)]
pub struct Simulation {
    pub engine: RecurrenceEngine,
    pub accountant: GranularProgress,
    pub navigator: StageNavigator,
    /// How many accountant units one fixed-point unit of gained progress
    /// value is worth.
    pub unit_scale: u64,
}

impl Simulation {
    /// Well-formedness of the three components, with the accountant's
    /// stage steps fully consumed.
    pub open spec fn wf(self) -> bool {
        &&& self.engine.wf()
        &&& self.accountant.wf()
        &&& self.navigator.wf()
        &&& self.accountant.stages_completed == 0
    }

    /// A fresh session over the given catalogue.  Fails exactly when the
    /// requested initial value does.
    pub fn new(table: StageTable, initial: Option<u64>, unit_scale: u64)
        -> (r: Result<Simulation, EngineError>)
        requires
            table.wf(),
        ensures
            match r {
                Ok(s) => {
                    &&& s.wf()
                    &&& s.engine.initial == crate::recurrence::requested_initial(initial)
                    &&& s.engine.value == s.engine.initial
                    &&& s.engine.iteration == 0
                    &&& s.accountant.units == 0
                    &&& s.accountant.groups_completed == 0
                    &&& s.accountant.clusters_completed == 0
                    &&& s.navigator.table == table
                    &&& s.navigator.current_index == 1
                    &&& s.unit_scale == unit_scale
                },
                Err(err) => {
                    &&& err == EngineError::InvalidInitialValue
                    &&& !crate::recurrence::valid_initial(
                        crate::recurrence::requested_initial(initial) as int)
                },
            },
    {
        let engine = RecurrenceEngine::new(initial)?;
        Ok(Simulation {
            engine,
            accountant: GranularProgress::new(),
            navigator: StageNavigator::new(table),
            unit_scale,
        })
    }

    /// The accountant units one advance from the current state will add.
    pub open spec fn advance_amount(self) -> int {
        step_gain(self.engine.value as int) * self.unit_scale
    }

    /// Advances the session one iteration: the engine takes one step, the
    /// gained value (times unit_scale) flows into the accountant, and the
    /// navigator moves up one stage per completed stage step, stopping at
    /// the last stage.  Returns the new progress value and the accountant's
    /// events, in order.
    pub fn advance(&mut self) -> (r: (u64, Vec<Event>))
        requires
            old(self).wf(),
            old(self).engine.history@.len() < usize::MAX,
            old(self).accountant.units + (SCALE as int) * old(self).unit_scale <= u64::MAX,
        ensures
            final(self).wf(),
            final(self).unit_scale == old(self).unit_scale,
            final(self).navigator.table == old(self).navigator.table,
            final(self).engine.initial == old(self).engine.initial,
            final(self).engine.value == step_value(old(self).engine.value as int),
            final(self).engine.iteration == old(self).engine.iteration + 1,
            r.0 == final(self).engine.value,
            r.1@ == events_of(old(self).accountant, old(self).advance_amount()),
            final(self).accountant.units
                == units_after(old(self).accountant, old(self).advance_amount()),
            final(self).accountant.stages_completed == 0,
            ({
                let steps = steps_of(old(self).accountant, old(self).advance_amount());
                let reached = old(self).navigator.current_index + steps;
                let last = old(self).navigator.table.stages@.len() as int;
                &&& final(self).navigator.current_index
                    == (if reached <= last { reached } else { last })
                &&& final(self).accountant.groups_completed == (
                    if steps > 0 {
                        0int
                    } else {
                        old(self).accountant.groups_completed
                            + new_groups_of(old(self).accountant, old(self).advance_amount())
                    }
                )
                &&& final(self).accountant.clusters_completed == (
                    if steps > 0 {
                        0int
                    } else {
                        old(self).accountant.clusters_completed
                            + new_clusters_of(old(self).accountant, old(self).advance_amount())
                    }
                )
            }),
    {
        let before = self.engine.value();
        let after = self.engine.step();
        let gain = after - before;
        proof {
            vstd::arithmetic::mul::lemma_mul_inequality(
                gain as int, SCALE as int, self.unit_scale as int);
        }
        let amount = gain * self.unit_scale;
        proof {
            vstd::arithmetic::div_mod::lemma_div_nonincreasing(
                (self.accountant.units + amount) as int, UNITS_PER_STAGE_STEP as int);
            vstd::arithmetic::div_mod::lemma_div_pos_is_pos(
                (self.accountant.units + amount) as int, UNITS_PER_STAGE_STEP as int);
        }
        let events = self.accountant.add(amount);
        let steps = self.accountant.take_stage_steps();
        let ghost snap = *self;
        let ghost nav0 = self.navigator.current_index as int;
        let ghost last = self.navigator.table.stages@.len() as int;
        let mut i: u64 = 0;
        while i < steps
            invariant
                0 <= i <= steps,
                self.engine == snap.engine,
                self.accountant == snap.accountant,
                self.unit_scale == snap.unit_scale,
                self.navigator.wf(),
                self.navigator.table == snap.navigator.table,
                nav0 == snap.navigator.current_index,
                last == self.navigator.table.stages@.len(),
                self.navigator.current_index
                    == (if nav0 + i <= last { nav0 + i } else { last }),
            decreases steps - i,
        {
            self.navigator.advance_on_stage_step(Event::StageStepCompleted);
            i = i + 1;
        }
        (after, events)
    }
}

} // verus!

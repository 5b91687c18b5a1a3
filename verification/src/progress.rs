//! The granular progress accountant: folds a stream of scalar increments
//! into a three-level hierarchical count (units, groups, clusters) with
//! rollover into stage-step events.

use vstd::prelude::*;
use crate::phi::{UNITS_PER_GROUP, UNITS_PER_CLUSTER, UNITS_PER_STAGE_STEP};

verus! {

/// Events an `add` call can emit, in the order they are emitted.
#[derive(Clone, Copy, Debug, PartialEq, Eq, Structural)]
pub enum Event {
    /// The cumulative units crossed another multiple of UNITS_PER_GROUP.
    GroupCompleted,
    /// The cumulative units crossed another multiple of UNITS_PER_CLUSTER.
    ClusterCompleted,
    /// UNITS_PER_STAGE_STEP units were consumed and rolled into a stage step.
    StageStepCompleted,
}

/// n copies of one event.
pub open spec fn repeat_event(e: Event, n: nat) -> Seq<Event>
    decreases n,
{
    if n == 0 {
        Seq::empty()
    } else {
        repeat_event(e, (n - 1) as nat).push(e)
    }
}

/// The accountant's four counters.  Groups and clusters are derived floor
/// counts of the same cumulative units, not independent pools; a stage step
/// consumes UNITS_PER_STAGE_STEP units and resets both derived counts.
#[derive(Clone, Copy, Debug, PartialEq, Eq, Structural)]
pub struct GranularProgress {
    /// Fixed-point units accumulated since the last stage step.
    pub units: u64,
    /// Groups completed since the last stage step.
    pub groups_completed: u64,
    /// Clusters completed since the last stage step.
    pub clusters_completed: u64,
    /// Stage steps completed; the stage navigator consumes and resets this.
    pub stages_completed: u64,
}

/// The units left after an `add` call: the cumulative units, reduced by one
/// UNITS_PER_STAGE_STEP for every completed stage step.
pub open spec fn units_after(pre: GranularProgress, amount: int) -> int {
    (pre.units + amount) % (UNITS_PER_STAGE_STEP as int)
}

/// How many stage steps an `add` call completes.
pub open spec fn steps_of(pre: GranularProgress, amount: int) -> int {
    (pre.units + amount) / (UNITS_PER_STAGE_STEP as int)
}

/// How many new groups an `add` call completes.
pub open spec fn new_groups_of(pre: GranularProgress, amount: int) -> int {
    let target = (pre.units + amount) / (UNITS_PER_GROUP as int);
    if target > pre.groups_completed {
        target - pre.groups_completed
    } else {
        0
    }
}

/// How many new clusters an `add` call completes.
pub open spec fn new_clusters_of(pre: GranularProgress, amount: int) -> int {
    let target = (pre.units + amount) / (UNITS_PER_CLUSTER as int);
    if target > pre.clusters_completed {
        target - pre.clusters_completed
    } else {
        0
    }
}

/// The exact event sequence an `add` call emits: first the group
/// completions, then the cluster completions, then one event per stage step.
pub open spec fn events_of(pre: GranularProgress, amount: int) -> Seq<Event> {
    repeat_event(Event::GroupCompleted, new_groups_of(pre, amount) as nat)
        + repeat_event(Event::ClusterCompleted, new_clusters_of(pre, amount) as nat)
        + repeat_event(Event::StageStepCompleted, steps_of(pre, amount) as nat)
}

impl GranularProgress {
    /// Well-formedness: the units held never reach a full stage step.
    pub open spec fn wf(self) -> bool {
        self.units < UNITS_PER_STAGE_STEP
    }

    /// A fresh accountant with all counters at zero.
    pub fn new() -> (r: GranularProgress)
        ensures
            r.wf(),
            r.units == 0,
            r.groups_completed == 0,
            r.clusters_completed == 0,
            r.stages_completed == 0,
    {
        GranularProgress { units: 0, groups_completed: 0, clusters_completed: 0, stages_completed: 0 }
    }

    /// Adds `amount` units and returns the events this completes, in order:
    /// the group count catches up to the floor count of the cumulative
    /// units (one GroupCompleted each), the cluster count likewise, and
    /// then every full UNITS_PER_STAGE_STEP of units rolls over into a
    /// stage step, resetting units, groups and clusters.  The rollover
    /// fires once per completed stage step, however large `amount` is.
    pub fn add(&mut self, amount: u64) -> (r: Vec<Event>)
        requires
            old(self).wf(),
            old(self).units + amount <= u64::MAX,
            old(self).stages_completed
                + (old(self).units + amount) / (UNITS_PER_STAGE_STEP as int) <= u64::MAX,
        ensures
            final(self).wf(),
            final(self).units == units_after(*old(self), amount as int),
            final(self).stages_completed
                == old(self).stages_completed + steps_of(*old(self), amount as int),
            final(self).groups_completed == (
                if steps_of(*old(self), amount as int) > 0 {
                    0int
                } else {
                    old(self).groups_completed + new_groups_of(*old(self), amount as int)
                }
            ),
            final(self).clusters_completed == (
                if steps_of(*old(self), amount as int) > 0 {
                    0int
                } else {
                    old(self).clusters_completed + new_clusters_of(*old(self), amount as int)
                }
            ),
            r@ == events_of(*old(self), amount as int),
    {
        let u1 = self.units + amount;
        let mut events: Vec<Event> = Vec::new();

        let g_target = u1 / UNITS_PER_GROUP;
        let dg = if g_target > self.groups_completed {
            g_target - self.groups_completed
        } else {
            0
        };
        let mut i: u64 = 0;
        while i < dg
            invariant
                0 <= i <= dg,
                events@ == repeat_event(Event::GroupCompleted, i as nat),
            decreases dg - i,
        {
            events.push(Event::GroupCompleted);
            i = i + 1;
        }
        self.groups_completed = self.groups_completed + dg;

        let c_target = u1 / UNITS_PER_CLUSTER;
        let dc = if c_target > self.clusters_completed {
            c_target - self.clusters_completed
        } else {
            0
        };
        let ghost group_events = events@;
        let mut j: u64 = 0;
        while j < dc
            invariant
                0 <= j <= dc,
                events@ == group_events + repeat_event(Event::ClusterCompleted, j as nat),
            decreases dc - j,
        {
            events.push(Event::ClusterCompleted);
            proof {
                assert(events@ =~= group_events
                    + repeat_event(Event::ClusterCompleted, j as nat).push(Event::ClusterCompleted));
            }
            j = j + 1;
        }
        self.clusters_completed = self.clusters_completed + dc;

        // Each completed stage step consumes UNITS_PER_STAGE_STEP units; the
        // repeated subtraction collapses to one division and one remainder.
        let k = u1 / UNITS_PER_STAGE_STEP;
        if k > 0 {
            self.groups_completed = 0;
            self.clusters_completed = 0;
        }
        self.stages_completed = self.stages_completed + k;
        self.units = u1 % UNITS_PER_STAGE_STEP;
        let ghost cluster_events = events@;
        let mut t: u64 = 0;
        while t < k
            invariant
                0 <= t <= k,
                events@ == cluster_events + repeat_event(Event::StageStepCompleted, t as nat),
            decreases k - t,
        {
            events.push(Event::StageStepCompleted);
            proof {
                assert(events@ =~= cluster_events
                    + repeat_event(Event::StageStepCompleted, t as nat).push(Event::StageStepCompleted));
            }
            t = t + 1;
        }
        proof {
            assert(events@ =~= events_of(*old(self), amount as int));
        }
        events
    }

    /// Total progress inside the current stage, in fixed-point units: what
    /// the units counter holds (groups and clusters are derived counts of
    /// the same cumulative units, so they add nothing).
    pub fn units_in_stage(&self) -> (r: u64)
        ensures
            r == self.units,
    {
        self.units
    }

    /// Hands the completed stage steps to the caller and resets the
    /// stage-step counter, as the stage navigator consumes it.
    pub fn take_stage_steps(&mut self) -> (r: u64)
        ensures
            r == old(self).stages_completed,
            final(self).stages_completed == 0,
            final(self).units == old(self).units,
            final(self).groups_completed == old(self).groups_completed,
            final(self).clusters_completed == old(self).clusters_completed,
            old(self).wf() ==> final(self).wf(),
    {
        let r = self.stages_completed;
        self.stages_completed = 0;
        r
    }
}

} // verus!

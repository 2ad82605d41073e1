//! Node model: lifecycle states and callback execution statistics with
//! deadline accounting.
use vstd::prelude::*;
use crate::ring::{lemma_total_of_prefix, max_of, min_of, total_of};

verus! {

#[derive(Debug, Clone, Copy, PartialEq, Eq, Structural)]
pub enum LifecycleState {
    Unconfigured,
    Inactive,
    Active,
    Finalized,
}

impl LifecycleState {
    /// Display text: the state's name.
    pub fn as_str(&self) -> (s: &'static str)
        ensures
            *self == LifecycleState::Unconfigured ==> s@ == "Unconfigured"@,
            *self == LifecycleState::Inactive ==> s@ == "Inactive"@,
            *self == LifecycleState::Active ==> s@ == "Active"@,
            *self == LifecycleState::Finalized ==> s@ == "Finalized"@,
    {
        match self {
            LifecycleState::Unconfigured => "Unconfigured",
            LifecycleState::Inactive => "Inactive",
            LifecycleState::Active => "Active",
            LifecycleState::Finalized => "Finalized",
        }
    }
}

/// Lifecycle callbacks a node implements.
pub trait LifecycleNode {
    fn on_configure(&mut self) -> Result<(), String>;

    fn on_activate(&mut self) -> Result<(), String>;

    fn on_deactivate(&mut self) -> Result<(), String>;

    fn on_cleanup(&mut self) -> Result<(), String>;

    fn on_shutdown(&mut self) -> Result<(), String>;

    fn state(&self) -> LifecycleState;
}

/// Callback timing statistics. Counters wrap on overflow, as atomic
/// `fetch_add` does; the minimum starts at `u64::MAX` (no sample yet).
pub struct ExecutionStats {
    pub callback_count: u64,
    pub total_execution_time_ns: u64,
    pub max_execution_time_ns: u64,
    pub min_execution_time_ns: u64,
    pub deadline_misses: u64,
}

impl ExecutionStats {
    pub fn new() -> (s: Self)
        ensures
            s.callback_count == 0,
            s.total_execution_time_ns == 0,
            s.max_execution_time_ns == 0,
            s.min_execution_time_ns == u64::MAX,
            s.deadline_misses == 0,
    {
        ExecutionStats {
            callback_count: 0,
            total_execution_time_ns: 0,
            max_execution_time_ns: 0,
            min_execution_time_ns: u64::MAX,
            deadline_misses: 0,
        }
    }

    /// Records one callback that ran `duration_ns` against a deadline of
    /// `deadline_ns`; running longer than the deadline is a miss.
    pub fn record_execution(&mut self, duration_ns: u64, deadline_ns: u64)
        ensures
            final(self).callback_count == old(self).callback_count.wrapping_add(1),
            final(self).total_execution_time_ns == old(self).total_execution_time_ns.wrapping_add(duration_ns),
            final(self).max_execution_time_ns == if duration_ns > old(self).max_execution_time_ns {
                duration_ns
            } else {
                old(self).max_execution_time_ns
            },
            final(self).min_execution_time_ns == if duration_ns < old(self).min_execution_time_ns {
                duration_ns
            } else {
                old(self).min_execution_time_ns
            },
            final(self).deadline_misses == if duration_ns > deadline_ns {
                old(self).deadline_misses.wrapping_add(1)
            } else {
                old(self).deadline_misses
            },
            execution_recorded(*old(self), *final(self), duration_ns, deadline_ns),
    {
        self.callback_count = self.callback_count.wrapping_add(1);
        self.total_execution_time_ns = self.total_execution_time_ns.wrapping_add(duration_ns);
        if duration_ns > self.max_execution_time_ns {
            self.max_execution_time_ns = duration_ns;
        }
        if duration_ns < self.min_execution_time_ns {
            self.min_execution_time_ns = duration_ns;
        }
        if duration_ns > deadline_ns {
            self.deadline_misses = self.deadline_misses.wrapping_add(1);
        }
    }
}

/// The step `ExecutionStats::record_execution` takes for a callback that ran
/// `duration_ns` against a deadline of `deadline_ns`.
pub open spec fn execution_recorded(before: ExecutionStats, after: ExecutionStats, duration_ns: u64, deadline_ns: u64) -> bool {
    &&& after.callback_count == before.callback_count.wrapping_add(1)
    &&& after.total_execution_time_ns == before.total_execution_time_ns.wrapping_add(duration_ns)
    &&& after.max_execution_time_ns == if duration_ns > before.max_execution_time_ns {
        duration_ns
    } else {
        before.max_execution_time_ns
    }
    &&& after.min_execution_time_ns == if duration_ns < before.min_execution_time_ns {
        duration_ns
    } else {
        before.min_execution_time_ns
    }
    &&& after.deadline_misses == if duration_ns > deadline_ns {
        before.deadline_misses.wrapping_add(1)
    } else {
        before.deadline_misses
    }
}

/// How many callbacks ran longer than their deadline (strictly longer).
pub open spec fn misses_of(durations: Seq<u64>, deadlines: Seq<u64>) -> int
    decreases durations.len(),
{
    if durations.len() == 0 {
        0
    } else {
        misses_of(durations.drop_last(), deadlines.drop_last()) + if durations.last() > deadlines.last() {
            1int
        } else {
            0int
        }
    }
}

proof fn lemma_execution_prefix(states: Seq<ExecutionStats>, durations: Seq<u64>, deadlines: Seq<u64>, k: int)
    requires
        states.len() == durations.len() + 1,
        deadlines.len() == durations.len(),
        durations.len() <= u64::MAX,
        total_of(durations) <= u64::MAX,
        states[0].callback_count == 0 && states[0].total_execution_time_ns == 0,
        states[0].max_execution_time_ns == 0 && states[0].min_execution_time_ns == u64::MAX,
        states[0].deadline_misses == 0,
        forall|i: int| 1 <= i <= durations.len() ==> #[trigger] execution_recorded(states[i - 1], states[i], durations[i - 1], deadlines[i - 1]),
        0 <= k <= durations.len(),
    ensures
        states[k].callback_count == k,
        states[k].total_execution_time_ns == total_of(durations.take(k)),
        states[k].max_execution_time_ns == max_of(durations.take(k)),
        states[k].min_execution_time_ns == min_of(durations.take(k)),
        states[k].deadline_misses == misses_of(durations.take(k), deadlines.take(k)),
        misses_of(durations.take(k), deadlines.take(k)) <= k,
    decreases k,
{
    if k == 0 {
        assert(durations.take(0) =~= Seq::<u64>::empty());
    } else {
        lemma_execution_prefix(states, durations, deadlines, k - 1);
        assert(execution_recorded(states[k - 1], states[k], durations[k - 1], deadlines[k - 1]));
        assert(durations.take(k).drop_last() =~= durations.take(k - 1));
        assert(deadlines.take(k).drop_last() =~= deadlines.take(k - 1));
        assert(durations.take(k).last() == durations[k - 1]);
        assert(deadlines.take(k).last() == deadlines[k - 1]);
        lemma_total_of_prefix(durations, k);
    }
}

/// Statistics of a run: starting from `new()` and recording, one after the
/// other, callbacks that ran `durations[i]` against deadlines `deadlines[i]`,
/// the count is the number of callbacks, the total is the sum of the
/// durations, the maximum and minimum are theirs, and the misses are the
/// callbacks that ran strictly longer than their deadline. `states[i]` is the
/// statistics after `i` calls of `record_execution`; the sum is taken to fit in
/// 64 bits.
pub proof fn law_execution_totals(states: Seq<ExecutionStats>, durations: Seq<u64>, deadlines: Seq<u64>)
    requires
        states.len() == durations.len() + 1,
        deadlines.len() == durations.len(),
        durations.len() <= u64::MAX,
        total_of(durations) <= u64::MAX,
        states[0].callback_count == 0 && states[0].total_execution_time_ns == 0,
        states[0].max_execution_time_ns == 0 && states[0].min_execution_time_ns == u64::MAX,
        states[0].deadline_misses == 0,
        forall|i: int| 1 <= i <= durations.len() ==> #[trigger] execution_recorded(states[i - 1], states[i], durations[i - 1], deadlines[i - 1]),
    ensures
        states.last().callback_count == durations.len(),
        states.last().total_execution_time_ns == total_of(durations),
        states.last().max_execution_time_ns == max_of(durations),
        states.last().min_execution_time_ns == min_of(durations),
        states.last().deadline_misses == misses_of(durations, deadlines),
{
    lemma_execution_prefix(states, durations, deadlines, durations.len() as int);
    assert(durations.take(durations.len() as int) =~= durations);
    assert(deadlines.take(deadlines.len() as int) =~= deadlines);
}

impl Default for ExecutionStats {
    fn default() -> (s: Self)
        ensures
            s.callback_count == 0,
            s.total_execution_time_ns == 0,
            s.max_execution_time_ns == 0,
            s.min_execution_time_ns == u64::MAX,
            s.deadline_misses == 0,
    {
        Self::new()
    }
}

} // verus!

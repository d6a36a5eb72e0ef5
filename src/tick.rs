//! One tick across all targets: the first target that answers wins.

use vstd::prelude::*;
use crate::probe::{AttemptOutcome, CheckResult, classify_attempts, probe_result};

verus! {

/// The aggregated outcome of one tick.
#[derive(Debug, Clone, PartialEq, Eq)]
pub enum TickVerdict {
    /// At least one target was reachable.
    Reachable,
    /// Every target failed; `target` is the last one checked (an index into
    /// the target list) and `failure` its verdict.
    Unreachable { target: usize, failure: CheckResult },
}

/// The tick's verdict given each target's verdict, in target order.
pub open spec fn tick_verdict(results: Seq<CheckResult>) -> TickVerdict {
    if exists|t: int| 0 <= t < results.len() && #[trigger] results[t] == CheckResult::Success {
        TickVerdict::Reachable
    } else {
        TickVerdict::Unreachable {
            target: (results.len() - 1) as usize,
            failure: results[results.len() - 1],
        }
    }
}

/// Each target's verdict when target `t`'s attempts would return `outcomes[t]`.
pub open spec fn target_results(outcomes: Seq<Seq<AttemptOutcome>>, max_retries: nat) -> Seq<
    CheckResult,
> {
    outcomes.map_values(|o: Seq<AttemptOutcome>| probe_result(o, max_retries))
}

pub open spec fn nested_view(outcomes: Seq<Vec<AttemptOutcome>>) -> Seq<Seq<AttemptOutcome>> {
    outcomes.map_values(|v: Vec<AttemptOutcome>| v@)
}

/// Fallback: a target whose probe succeeds makes the whole tick reachable,
/// whatever the targets before or after it did.
pub proof fn lemma_fallback(outcomes: Seq<Seq<AttemptOutcome>>, max_retries: nat, t: int)
    requires
        0 <= t < outcomes.len(),
        probe_result(outcomes[t], max_retries) == CheckResult::Success,
    ensures
        tick_verdict(target_results(outcomes, max_retries)) == TickVerdict::Reachable,
{
    let results = target_results(outcomes, max_retries);
    assert(results[t] == CheckResult::Success);
}

/// Walks the target list in order during one tick.
#[derive(Debug, Clone, Copy)]
pub struct TickRun {
    pub n_targets: usize,
    /// The target to be probed next.
    pub current: usize,
}

impl TickRun {
    pub open spec fn wf(&self) -> bool {
        self.current < self.n_targets
    }

    pub fn new(n_targets: usize) -> (r: TickRun)
        requires
            n_targets >= 1,
        ensures
            r.wf(),
            r.n_targets == n_targets,
            r.current == 0,
    {
        TickRun { n_targets, current: 0 }
    }

    /// The index of the target to probe next.
    pub fn current_target(&self) -> (r: usize)
        ensures
            r == self.current,
    {
        self.current
    }

    /// Records the verdict on the current target. Returns the tick's verdict
    /// once it is decided; `None` means the next target is to be probed.
    pub fn record(&mut self, result: CheckResult) -> (r: Option<TickVerdict>)
        requires
            old(self).wf(),
        ensures
            final(self).n_targets == old(self).n_targets,
            result == CheckResult::Success ==> r == Some(TickVerdict::Reachable) && *final(self)
                == *old(self),
            result != CheckResult::Success && old(self).current + 1 == old(self).n_targets ==> r
                == Some(TickVerdict::Unreachable { target: old(self).current, failure: result })
                && *final(self) == *old(self),
            result != CheckResult::Success && old(self).current + 1 < old(self).n_targets ==> r
                is None && final(self).current == old(self).current + 1,
            r is None ==> final(self).wf(),
    {
        match result {
            CheckResult::Success => Some(TickVerdict::Reachable),
            failure => {
                if self.current + 1 == self.n_targets {
                    Some(TickVerdict::Unreachable { target: self.current, failure })
                } else {
                    self.current = self.current + 1;
                    None
                }
            },
        }
    }
}

/// Runs one tick over the outcomes each target's successive attempts return:
/// targets are probed in order and the first success ends the tick.
pub fn evaluate_tick(outcomes: Vec<Vec<AttemptOutcome>>, max_retries: u32) -> (r: TickVerdict)
    requires
        outcomes.len() >= 1,
        max_retries >= 1,
        forall|t: int| 0 <= t < outcomes.len() ==> max_retries <= (#[trigger] outcomes[t]).len(),
    ensures
        r == tick_verdict(target_results(nested_view(outcomes@), max_retries as nat)),
{
    let ghost results = target_results(nested_view(outcomes@), max_retries as nat);
    let ghost all = outcomes@;
    let mut rest = outcomes;
    let mut run = TickRun::new(rest.len());
    loop
        invariant
            run.wf(),
            run.n_targets == all.len(),
            all == outcomes@,
            rest@.len() == all.len() - run.current,
            forall|j: int| 0 <= j < rest@.len() ==> rest@[j] == all[run.current + j],
            forall|t: int| 0 <= t < all.len() ==> max_retries <= (#[trigger] all[t]).len(),
            results == target_results(nested_view(all), max_retries as nat),
            results.len() == all.len(),
            forall|t: int| 0 <= t < run.current ==> results[t] != CheckResult::Success,
            max_retries >= 1,
        decreases all.len() - run.current,
    {
        let ghost i = run.current as int;
        let target_outcomes = rest.remove(0);
        assert(target_outcomes == all[i]);
        let result = classify_attempts(target_outcomes, max_retries);
        assert(result == results[i]);
        match run.record(result) {
            Some(v) => {
                proof {
                    if results[i] == CheckResult::Success {
                        assert(exists|t: int|
                            0 <= t < results.len() && #[trigger] results[t] == CheckResult::Success);
                    } else {
                        assert(i == results.len() - 1);
                    }
                }
                return v;
            },
            None => {},
        }
    }
}

} // verus!

//! One target, one tick: classifying the attempts made against a target.

use vstd::prelude::*;

verus! {

/// What a single request to a target came back with.
#[derive(Debug, Clone, PartialEq, Eq)]
pub enum AttemptOutcome {
    /// The server answered with this status code and reason phrase.
    Status { code: u16, reason: String },
    /// No status could be obtained: timeout, DNS failure, refused connection and the like.
    Transport,
}

/// The verdict on one target for one tick.
#[derive(Debug, Clone, PartialEq, Eq)]
pub enum CheckResult {
    Success,
    /// The last attempt completed with a status outside 2xx/3xx.
    HttpError { status: u16, reason: String },
    /// The last attempt failed before any status was received.
    NetworkError,
}

/// A status code counts as reachable when it is 2xx or 3xx.
pub open spec fn is_success_code(code: u16) -> bool {
    200 <= code < 400
}

pub open spec fn attempt_succeeded(o: AttemptOutcome) -> bool {
    match o {
        AttemptOutcome::Status { code, .. } => is_success_code(code),
        AttemptOutcome::Transport => false,
    }
}

/// How a single attempt would be reported if it were the deciding one.
pub open spec fn attempt_result(o: AttemptOutcome) -> CheckResult {
    match o {
        AttemptOutcome::Status { code, reason } => if is_success_code(code) {
            CheckResult::Success
        } else {
            CheckResult::HttpError { status: code, reason }
        },
        AttemptOutcome::Transport => CheckResult::NetworkError,
    }
}

/// Some attempt among the first `n` succeeded.
pub open spec fn succeeds_within(outcomes: Seq<AttemptOutcome>, n: int) -> bool {
    exists|i: int| 0 <= i < n && #[trigger] attempt_succeeded(outcomes[i])
}

/// The verdict on a target whose successive attempts would return `outcomes`,
/// with a budget of `max_retries` attempts: `Success` if any attempt within
/// the budget succeeds, otherwise the classification of the last attempt.
pub open spec fn probe_result(outcomes: Seq<AttemptOutcome>, max_retries: nat) -> CheckResult {
    if succeeds_within(outcomes, max_retries as int) {
        CheckResult::Success
    } else {
        attempt_result(outcomes[max_retries - 1])
    }
}

/// Whether `code` is a 2xx or 3xx status.
pub fn is_success_status(code: u16) -> (r: bool)
    ensures
        r == is_success_code(code),
{
    200 <= code && code < 400
}

/// Classifies a single attempt on its own.
pub fn classify_attempt(outcome: AttemptOutcome) -> (r: CheckResult)
    ensures
        r == attempt_result(outcome),
{
    match outcome {
        AttemptOutcome::Status { code, reason } => {
            if is_success_status(code) {
                CheckResult::Success
            } else {
                CheckResult::HttpError { status: code, reason }
            }
        },
        AttemptOutcome::Transport => CheckResult::NetworkError,
    }
}

/// The retry budget for one target during one tick. Every attempt counts
/// against the budget, the deciding last one included.
#[derive(Debug, Clone, Copy)]
pub struct Probe {
    pub max_retries: u32,
    /// Attempts already made and found failing.
    pub failed: u32,
}

impl Probe {
    pub open spec fn wf(&self) -> bool {
        1 <= self.max_retries && self.failed < self.max_retries
    }

    pub fn new(max_retries: u32) -> (r: Probe)
        requires
            max_retries >= 1,
        ensures
            r.wf(),
            r.max_retries == max_retries,
            r.failed == 0,
    {
        Probe { max_retries, failed: 0 }
    }

    /// Records the outcome of the next attempt. Returns the target's verdict
    /// once it is decided; `None` means another attempt is due after the
    /// retry delay.
    pub fn record(&mut self, outcome: AttemptOutcome) -> (r: Option<CheckResult>)
        requires
            old(self).wf(),
        ensures
            final(self).max_retries == old(self).max_retries,
            attempt_succeeded(outcome) ==> r == Some(CheckResult::Success) && *final(self)
                == *old(self),
            !attempt_succeeded(outcome) && old(self).failed + 1 == old(self).max_retries ==> r
                == Some(attempt_result(outcome)) && *final(self) == *old(self),
            !attempt_succeeded(outcome) && old(self).failed + 1 < old(self).max_retries ==> r
                is None && final(self).failed == old(self).failed + 1,
            r is None ==> final(self).wf(),
    {
        let last = self.failed + 1 == self.max_retries;
        let succeeded = match &outcome {
            AttemptOutcome::Status { code, .. } => is_success_status(*code),
            AttemptOutcome::Transport => false,
        };
        if succeeded {
            Some(CheckResult::Success)
        } else if last {
            Some(classify_attempt(outcome))
        } else {
            self.failed = self.failed + 1;
            None
        }
    }
}

/// Earlier failures do not doom a target: an attempt that succeeds anywhere
/// within the budget makes the target's verdict `Success`.
pub proof fn lemma_success_within_budget(outcomes: Seq<AttemptOutcome>, max_retries: nat, i: int)
    requires
        0 <= i < max_retries,
        max_retries <= outcomes.len(),
        attempt_succeeded(outcomes[i]),
    ensures
        probe_result(outcomes, max_retries) == CheckResult::Success,
{
    assert(succeeds_within(outcomes, max_retries as int));
}

/// Runs a probe over the outcomes its successive attempts return, stopping at
/// the first success or when the budget is spent.
pub fn classify_attempts(outcomes: Vec<AttemptOutcome>, max_retries: u32) -> (r: CheckResult)
    requires
        1 <= max_retries <= outcomes.len(),
    ensures
        r == probe_result(outcomes@, max_retries as nat),
{
    let ghost all = outcomes@;
    let mut rest = outcomes;
    let mut probe = Probe::new(max_retries);
    let mut i: usize = 0;
    loop
        invariant
            probe.wf(),
            probe.max_retries == max_retries,
            probe.failed as int == i as int,
            i < max_retries,
            max_retries <= all.len(),
            all == outcomes@,
            rest@.len() == all.len() - i,
            forall|j: int| 0 <= j < rest@.len() ==> rest@[j] == all[i + j],
            !succeeds_within(all, i as int),
        decreases max_retries - i,
    {
        let outcome = rest.remove(0);
        let ghost o = outcome;
        assert(o == all[i as int]);
        match probe.record(outcome) {
            Some(r) => {
                proof {
                    if attempt_succeeded(o) {
                        assert(attempt_succeeded(all[i as int]));
                        assert(succeeds_within(all, max_retries as int));
                    } else {
                        assert forall|j: int| 0 <= j < max_retries implies !attempt_succeeded(
                            all[j],
                        ) by {
                            if j < i {
                                assert(!succeeds_within(all, i as int));
                            }
                        }
                        assert(!succeeds_within(all, max_retries as int));
                        assert(all[max_retries - 1] == o);
                    }
                }
                return r;
            },
            None => {
                proof {
                    assert forall|j: int| 0 <= j < i + 1 implies !attempt_succeeded(all[j]) by {
                        if j < i {
                            assert(!succeeds_within(all, i as int));
                        }
                    }
                }
                i = i + 1;
            },
        }
    }
}

} // verus!

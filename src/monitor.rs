//! The online/offline state machine: debounced outages, edge-triggered reports.

use vstd::prelude::*;
use crate::probe::CheckResult;
use crate::tick::TickVerdict;

verus! {

/// A transition worth reporting.
#[derive(Debug, Clone, PartialEq, Eq)]
pub enum LogEvent {
    /// Reachability was lost; `target` is the last target checked and
    /// `failure` why it failed.
    OutageDetected { target: usize, failure: CheckResult },
    /// Reachability came back after a reported outage.
    ConnectionRestored,
}

/// The monitor's memory between ticks.
#[derive(Debug, Clone, Copy, PartialEq, Eq)]
pub struct MonitorState {
    /// The last reported reachability.
    pub is_online: bool,
    /// Ticks in a row on which no target was reachable.
    pub consecutive_failures: u32,
}

/// One more failing tick; the count stays put at the top of its range.
pub open spec fn bumped(c: u32) -> u32 {
    if c < u32::MAX {
        (c + 1) as u32
    } else {
        c
    }
}

/// The state after a tick with verdict `v`, under failure threshold `k`.
pub open spec fn next_state(s: MonitorState, v: TickVerdict, k: u32) -> MonitorState {
    match v {
        TickVerdict::Reachable => MonitorState { is_online: true, consecutive_failures: 0 },
        TickVerdict::Unreachable { .. } => MonitorState {
            is_online: s.is_online && bumped(s.consecutive_failures) < k,
            consecutive_failures: bumped(s.consecutive_failures),
        },
    }
}

/// What a tick with verdict `v` reports from state `s`, under threshold `k`:
/// only the crossings between online and offline.
pub open spec fn tick_log(s: MonitorState, v: TickVerdict, k: u32) -> Option<LogEvent> {
    match v {
        TickVerdict::Reachable => if s.is_online {
            None
        } else {
            Some(LogEvent::ConnectionRestored)
        },
        TickVerdict::Unreachable { target, failure } => if s.is_online && bumped(
            s.consecutive_failures,
        ) >= k {
            Some(LogEvent::OutageDetected { target, failure })
        } else {
            None
        },
    }
}

pub open spec fn as_seq(e: Option<LogEvent>) -> Seq<LogEvent> {
    match e {
        Some(x) => seq![x],
        None => seq![],
    }
}

/// The state after the ticks `vs`, in order, starting from `s`.
pub open spec fn run_ticks(s: MonitorState, vs: Seq<TickVerdict>, k: u32) -> MonitorState
    decreases vs.len(),
{
    if vs.len() == 0 {
        s
    } else {
        run_ticks(next_state(s, vs[0], k), vs.drop_first(), k)
    }
}

/// Everything reported over the ticks `vs`, in order, starting from `s`.
pub open spec fn tick_logs(s: MonitorState, vs: Seq<TickVerdict>, k: u32) -> Seq<LogEvent>
    decreases vs.len(),
{
    if vs.len() == 0 {
        seq![]
    } else {
        as_seq(tick_log(s, vs[0], k)) + tick_logs(next_state(s, vs[0], k), vs.drop_first(), k)
    }
}

pub open spec fn all_unreachable(vs: Seq<TickVerdict>) -> bool {
    forall|i: int| 0 <= i < vs.len() ==> #[trigger] vs[i] is Unreachable
}

pub open spec fn all_reachable(vs: Seq<TickVerdict>) -> bool {
    forall|i: int| 0 <= i < vs.len() ==> #[trigger] vs[i] is Reachable
}

impl MonitorState {
    /// The state at start-up: assumed online, so that the first outage is
    /// what gets reported.
    pub fn new() -> (r: MonitorState)
        ensures
            r.is_online,
            r.consecutive_failures == 0,
    {
        MonitorState { is_online: true, consecutive_failures: 0 }
    }

    /// Applies one tick's verdict and returns the event to report, if any.
    pub fn apply_tick(&mut self, verdict: TickVerdict, failure_threshold: u32) -> (r: Option<
        LogEvent,
    >)
        ensures
            *final(self) == next_state(*old(self), verdict, failure_threshold),
            r == tick_log(*old(self), verdict, failure_threshold),
    {
        match verdict {
            TickVerdict::Reachable => {
                let was_online = self.is_online;
                self.is_online = true;
                self.consecutive_failures = 0;
                if was_online {
                    None
                } else {
                    Some(LogEvent::ConnectionRestored)
                }
            },
            TickVerdict::Unreachable { target, failure } => {
                if self.consecutive_failures < u32::MAX {
                    self.consecutive_failures = self.consecutive_failures + 1;
                }
                if self.is_online && self.consecutive_failures >= failure_threshold {
                    self.is_online = false;
                    Some(LogEvent::OutageDetected { target, failure })
                } else {
                    None
                }
            },
        }
    }
}

/// Debounce: from an online state, failing ticks that do not bring the
/// failure streak up to the threshold leave the monitor online and report
/// nothing.
pub proof fn lemma_debounce(s: MonitorState, vs: Seq<TickVerdict>, k: u32)
    requires
        s.is_online,
        s.consecutive_failures + vs.len() < k,
        all_unreachable(vs),
    ensures
        run_ticks(s, vs, k).is_online,
        run_ticks(s, vs, k).consecutive_failures == s.consecutive_failures + vs.len(),
        tick_logs(s, vs, k) == Seq::<LogEvent>::empty(),
    decreases vs.len(),
{
    if vs.len() > 0 {
        assert(vs[0] is Unreachable);
        let s1 = next_state(s, vs[0], k);
        assert(all_unreachable(vs.drop_first())) by {
            assert forall|i: int| 0 <= i < vs.drop_first().len() implies #[trigger] vs.drop_first()[i] is Unreachable by {
                assert(vs[i + 1] is Unreachable);
            }
        }
        lemma_debounce(s1, vs.drop_first(), k);
        assert(as_seq(tick_log(s, vs[0], k)) == Seq::<LogEvent>::empty());
        assert(tick_logs(s, vs, k) == Seq::<LogEvent>::empty() + Seq::<LogEvent>::empty());
    }
}

/// Edge trigger: once offline, failing ticks report nothing and the monitor
/// stays offline; the first reachable tick after them reports the
/// restoration, once, and brings the monitor back online with a clean streak.
pub proof fn lemma_edge_trigger(s: MonitorState, vs: Seq<TickVerdict>, k: u32)
    requires
        !s.is_online,
        all_unreachable(vs),
    ensures
        !run_ticks(s, vs, k).is_online,
        tick_logs(s, vs, k) == Seq::<LogEvent>::empty(),
        tick_logs(s, vs.push(TickVerdict::Reachable), k) == seq![LogEvent::ConnectionRestored],
        run_ticks(s, vs.push(TickVerdict::Reachable), k) == (MonitorState {
            is_online: true,
            consecutive_failures: 0,
        }),
    decreases vs.len(),
{
    let w = vs.push(TickVerdict::Reachable);
    if vs.len() == 0 {
        assert(w.drop_first() =~= Seq::<TickVerdict>::empty());
        assert(w[0] == TickVerdict::Reachable);
        let s1 = next_state(s, w[0], k);
        assert(tick_logs(s1, w.drop_first(), k) == Seq::<LogEvent>::empty());
        assert(run_ticks(s1, w.drop_first(), k) == s1);
        assert(tick_logs(s, w, k) =~= seq![LogEvent::ConnectionRestored]);
    } else {
        assert(vs[0] is Unreachable);
        let s1 = next_state(s, vs[0], k);
        assert(all_unreachable(vs.drop_first())) by {
            assert forall|i: int| 0 <= i < vs.drop_first().len() implies #[trigger] vs.drop_first()[i] is Unreachable by {
                assert(vs[i + 1] is Unreachable);
            }
        }
        lemma_edge_trigger(s1, vs.drop_first(), k);
        assert(w.drop_first() =~= vs.drop_first().push(TickVerdict::Reachable));
        assert(w[0] == vs[0]);
        assert(tick_logs(s, vs, k) =~= Seq::<LogEvent>::empty());
        assert(tick_logs(s, w, k) =~= seq![LogEvent::ConnectionRestored]);
    }
}

/// Steady state: reachable ticks while online report nothing and keep the
/// monitor online.
pub proof fn lemma_steady_online(s: MonitorState, vs: Seq<TickVerdict>, k: u32)
    requires
        s.is_online,
        all_reachable(vs),
    ensures
        run_ticks(s, vs, k).is_online,
        tick_logs(s, vs, k) == Seq::<LogEvent>::empty(),
    decreases vs.len(),
{
    if vs.len() > 0 {
        assert(vs[0] is Reachable);
        let s1 = next_state(s, vs[0], k);
        assert(all_reachable(vs.drop_first())) by {
            assert forall|i: int| 0 <= i < vs.drop_first().len() implies #[trigger] vs.drop_first()[i] is Reachable by {
                assert(vs[i + 1] is Reachable);
            }
        }
        lemma_steady_online(s1, vs.drop_first(), k);
        assert(tick_logs(s, vs, k) =~= Seq::<LogEvent>::empty());
    }
}

} // verus!

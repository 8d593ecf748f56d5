//! The tick scheduler's decisions: when a cycle may start, what becomes of the
//! inputs that wait, and what to do with the result of a guest call.
//!
//! The loop itself, with its clock and its sleep, runs outside this library.
//! Each cycle it calls `begin_cycle`, drives the sandbox with the batch it
//! got, reports each result to `on_result` and does what that answers, then
//! sleeps for `pause_after` of the time the cycle took.
use crate::queue::PendingInput;
use crate::sandbox::SandboxFault;
use vstd::prelude::*;

verus! {

/// Length of one cycle in microseconds: sixty cycles a second.
pub const TICK_PERIOD_MICROS: u64 = 16_667;

/// Where the scheduler is in its life.
#[derive(Clone, Copy, Debug, PartialEq, Eq, Structural)]
pub enum Phase {
    Idle,
    Running,
    Stopped,
}

/// Where a running scheduler is in its cycle.
#[derive(Clone, Copy, Debug, PartialEq, Eq, Structural)]
pub enum Stage {
    /// Between cycles.
    Waiting,
    /// The inputs are taken; the first guest call of the cycle is out.
    FirstAttempt,
    /// The first call faulted; the call on a fresh instance is out.
    SecondAttempt,
}

/// What the loop is to do after a guest call.
#[derive(Clone, Copy, Debug, PartialEq, Eq, Structural)]
pub enum TickDecision {
    /// The call gave a snapshot, which is now current: broadcast it.
    Publish,
    /// The call faulted: load a fresh instance and call it once more with the
    /// same batch.
    RetryFresh,
    /// The second call faulted too: the previous snapshot stays current and
    /// the host counts as degraded. Broadcast the previous snapshot, if any.
    HoldPrevious,
    /// No guest call was out: nothing to do.
    Ignored,
}

/// The mathematical value of a `TickScheduler`.
pub ghost struct SchedulerView {
    pub phase: Phase,
    pub stage: Stage,
    pub stopping: bool,
    pub degraded: bool,
    pub current: Option<Seq<char>>,
}

/// The result of a guest call with the snapshot as a sequence of characters.
pub open spec fn result_view(result: Result<String, SandboxFault>) -> Result<
    Seq<char>,
    SandboxFault,
> {
    match result {
        Ok(text) => Ok(text@),
        Err(fault) => Err(fault),
    }
}

/// A scheduler before its start.
pub open spec fn spec_initial() -> SchedulerView {
    SchedulerView {
        phase: Phase::Idle,
        stage: Stage::Waiting,
        stopping: false,
        degraded: false,
        current: None,
    }
}

/// Whether a cycle may begin: the scheduler runs, no cycle is under way, and
/// no stop has been asked for.
pub open spec fn may_begin(v: SchedulerView) -> bool {
    v.phase == Phase::Running && v.stage == Stage::Waiting && !v.stopping
}

/// Whether a guest call is out.
pub open spec fn awaits_result(v: SchedulerView) -> bool {
    v.phase == Phase::Running && v.stage != Stage::Waiting
}

/// The scheduler once a cycle has come to its end: between cycles, and
/// stopped if a stop was asked for meanwhile.
pub open spec fn cycle_closed(v: SchedulerView) -> SchedulerView {
    SchedulerView {
        stage: Stage::Waiting,
        phase: if v.stopping {
            Phase::Stopped
        } else {
            v.phase
        },
        stopping: false,
        ..v
    }
}

/// The scheduler after the result of a guest call.
pub open spec fn spec_after_result(
    v: SchedulerView,
    result: Result<Seq<char>, SandboxFault>,
) -> SchedulerView {
    if !awaits_result(v) {
        v
    } else {
        match result {
            Ok(text) => cycle_closed(SchedulerView { current: Some(text), degraded: false, ..v }),
            Err(_) => if v.stage == Stage::FirstAttempt {
                SchedulerView { stage: Stage::SecondAttempt, ..v }
            } else {
                cycle_closed(SchedulerView { degraded: true, ..v })
            },
        }
    }
}

/// What the loop is told after the result of a guest call.
pub open spec fn spec_decision(
    v: SchedulerView,
    result: Result<Seq<char>, SandboxFault>,
) -> TickDecision {
    if !awaits_result(v) {
        TickDecision::Ignored
    } else {
        match result {
            Ok(_) => TickDecision::Publish,
            Err(_) => if v.stage == Stage::FirstAttempt {
                TickDecision::RetryFresh
            } else {
                TickDecision::HoldPrevious
            },
        }
    }
}

/// The scheduler after a request to stop: at once if no cycle is under way,
/// at the end of the cycle otherwise.
pub open spec fn spec_after_stop(v: SchedulerView) -> SchedulerView {
    if awaits_result(v) {
        SchedulerView { stopping: true, ..v }
    } else {
        SchedulerView { phase: Phase::Stopped, stage: Stage::Waiting, stopping: false, ..v }
    }
}

/// How long to sleep after a cycle that took `elapsed` microseconds: the rest
/// of the period, or nothing if the cycle overran it.
pub open spec fn spec_pause(elapsed: u64) -> u64 {
    if elapsed < TICK_PERIOD_MICROS {
        (TICK_PERIOD_MICROS - elapsed) as u64
    } else {
        0
    }
}

/// A fault never stops the loop: whatever a guest call reports, a running
/// scheduler that was not asked to stop is still running afterwards. After a
/// second fault in one cycle, the next cycle may begin.
pub proof fn lemma_faults_do_not_stop_the_loop(v: SchedulerView, fault: SandboxFault)
    requires
        v.phase == Phase::Running,
        !v.stopping,
    ensures
        spec_after_result(v, Err(fault)).phase == Phase::Running,
        v.stage == Stage::SecondAttempt ==> may_begin(spec_after_result(v, Err(fault))),
{
}

/// Retry once, then hold: the first fault of a cycle asks for one retry on a
/// fresh instance; if that faults too, the cycle ends with the snapshot that
/// was current before it, and the host counts as degraded.
pub proof fn lemma_retry_once_then_hold(v: SchedulerView, first: SandboxFault, second: SandboxFault)
    requires
        v.phase == Phase::Running,
        v.stage == Stage::FirstAttempt,
    ensures
        spec_decision(v, Err(first)) == TickDecision::RetryFresh,
        spec_decision(spec_after_result(v, Err(first)), Err(second)) == TickDecision::HoldPrevious,
        spec_after_result(spec_after_result(v, Err(first)), Err(second)).current == v.current,
        spec_after_result(spec_after_result(v, Err(first)), Err(second)).degraded,
        spec_after_result(spec_after_result(v, Err(first)), Err(second)).stage == Stage::Waiting,
{
}

/// A snapshot supersedes: a successful call, first or second of its cycle,
/// makes its snapshot the current one and clears the degraded mark.
pub proof fn lemma_success_supersedes(v: SchedulerView, text: Seq<char>)
    requires
        awaits_result(v),
    ensures
        spec_decision(v, Ok(text)) == TickDecision::Publish,
        spec_after_result(v, Ok(text)).current == Some(text),
        !spec_after_result(v, Ok(text)).degraded,
        spec_after_result(v, Ok(text)).stage == Stage::Waiting,
{
}

/// The tick scheduler's state.
pub struct TickScheduler {
    phase: Phase,
    stage: Stage,
    stopping: bool,
    degraded: bool,
    current: Option<String>,
}

impl View for TickScheduler {
    type V = SchedulerView;

    closed spec fn view(&self) -> SchedulerView {
        SchedulerView {
            phase: self.phase,
            stage: self.stage,
            stopping: self.stopping,
            degraded: self.degraded,
            current: match self.current {
                Some(s) => Some(s@),
                None => None,
            },
        }
    }
}

impl TickScheduler {
    /// A scheduler that has not started.
    pub fn new() -> (r: TickScheduler)
        ensures
            r@ == spec_initial(),
    {
        TickScheduler {
            phase: Phase::Idle,
            stage: Stage::Waiting,
            stopping: false,
            degraded: false,
            current: None,
        }
    }

    /// Starts an idle scheduler. Says whether it did; a scheduler that runs or
    /// has stopped stays as it is.
    pub fn start(&mut self) -> (started: bool)
        ensures
            started == (old(self)@.phase == Phase::Idle),
            started ==> final(self)@ == (SchedulerView { phase: Phase::Running, ..old(self)@ }),
            !started ==> final(self)@ == old(self)@,
    {
        match self.phase {
            Phase::Idle => {
                self.phase = Phase::Running;
                true
            },
            _ => false,
        }
    }

    /// Opens a cycle: takes everything that waits in `queue` and leaves it
    /// empty. If no cycle may begin, the queue is not touched.
    pub fn begin_cycle<E>(&mut self, queue: &mut PendingInput<E>) -> (batch: Option<Vec<E>>)
        ensures
            batch is Some <==> may_begin(old(self)@),
            batch is Some ==> batch->0@ == old(queue)@ && final(queue)@ == Seq::<E>::empty()
                && final(self)@ == (SchedulerView { stage: Stage::FirstAttempt, ..old(self)@ }),
            batch is None ==> final(queue)@ == old(queue)@ && final(self)@ == old(self)@,
    {
        let running = match self.phase {
            Phase::Running => true,
            _ => false,
        };
        let waiting = match self.stage {
            Stage::Waiting => true,
            _ => false,
        };
        if running && waiting && !self.stopping {
            self.stage = Stage::FirstAttempt;
            Some(queue.swap_out())
        } else {
            None
        }
    }

    /// Takes the result of the guest call that is out and says what to do
    /// next.
    pub fn on_result(&mut self, result: Result<String, SandboxFault>) -> (d: TickDecision)
        ensures
            d == spec_decision(old(self)@, result_view(result)),
            final(self)@ == spec_after_result(old(self)@, result_view(result)),
    {
        let running = match self.phase {
            Phase::Running => true,
            _ => false,
        };
        let first = match self.stage {
            Stage::Waiting => {
                return TickDecision::Ignored;
            },
            Stage::FirstAttempt => true,
            Stage::SecondAttempt => false,
        };
        if !running {
            return TickDecision::Ignored;
        }
        match result {
            Ok(text) => {
                self.current = Some(text);
                self.degraded = false;
                self.close_cycle();
                TickDecision::Publish
            },
            Err(_) => {
                if first {
                    self.stage = Stage::SecondAttempt;
                    TickDecision::RetryFresh
                } else {
                    self.degraded = true;
                    self.close_cycle();
                    TickDecision::HoldPrevious
                }
            },
        }
    }

    fn close_cycle(&mut self)
        ensures
            final(self)@ == cycle_closed(old(self)@),
    {
        self.stage = Stage::Waiting;
        if self.stopping {
            self.phase = Phase::Stopped;
        }
        self.stopping = false;
    }

    /// Asks the scheduler to stop. Between cycles it stops at once; during a
    /// cycle it stops when the cycle has come to its end.
    pub fn request_stop(&mut self)
        ensures
            final(self)@ == spec_after_stop(old(self)@),
    {
        let running = match self.phase {
            Phase::Running => true,
            _ => false,
        };
        let waiting = match self.stage {
            Stage::Waiting => true,
            _ => false,
        };
        if running && !waiting {
            self.stopping = true;
        } else {
            self.phase = Phase::Stopped;
            self.stage = Stage::Waiting;
            self.stopping = false;
        }
    }

    /// Where the scheduler is in its life.
    pub fn phase(&self) -> (r: Phase)
        ensures
            r == self@.phase,
    {
        self.phase
    }

    /// Whether the last cycle ended without a snapshot of its own. The host
    /// reports this with its next heartbeat.
    pub fn is_degraded(&self) -> (r: bool)
        ensures
            r == self@.degraded,
    {
        self.degraded
    }

    /// The current snapshot, if any cycle has produced one.
    pub fn current(&self) -> (r: Option<String>)
        ensures
            r is Some <==> self@.current is Some,
            r is Some ==> Some(r->0@) == self@.current,
    {
        match &self.current {
            Some(s) => Some(s.clone()),
            None => None,
        }
    }
}

/// How long to sleep after a cycle that took `elapsed` microseconds by the
/// wall clock. An overrun is not made up for: the next cycle starts at once
/// and has a full period of its own.
pub fn pause_after(elapsed: u64) -> (r: u64)
    ensures
        r == spec_pause(elapsed),
{
    if elapsed < TICK_PERIOD_MICROS {
        TICK_PERIOD_MICROS - elapsed
    } else {
        0
    }
}

} // verus!

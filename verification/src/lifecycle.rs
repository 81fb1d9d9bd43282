//! Process lifecycle controller.
//!
//! Owns the shutdown protocol for one spawned child process: wait for
//! natural completion up to a total timeout; on timeout send a
//! cooperative termination signal to the process group, wait up to a
//! grace period, and finally force-kill and wait a short fixed bound.
//!
//! The controller is a state machine: the embedding layer performs each
//! [`Action`] (an OS wait with a budget, or sending a signal) and feeds
//! the observed [`WaitEvent`] back into [`ProcessKiller::step`].  Every
//! decision is made here and verified; in particular the total wait
//! budget the machine ever requests is bounded by
//! `timeout + grace period + FORCE_KILL_WAIT_MS`, and once the timeout
//! has fired the machine never reports a natural exit.

use vstd::prelude::*;

verus! {

/// Grace period between the cooperative signal and the forced kill,
/// unless configured otherwise.
pub const DEFAULT_GRACE_PERIOD_MS: u64 = 5000;

/// Fixed bound on the wait for the forced kill to be observed.
pub const FORCE_KILL_WAIT_MS: u64 = 1000;

/// What the OS reported for a completed process.
#[derive(Debug, Clone, Copy, PartialEq, Eq, Structural)]
pub struct ExitInfo {
    pub success: bool,
    pub exit_code: Option<i32>,
}

/// The overall verdict of one supervised execution.
#[derive(Debug, Clone, Copy, PartialEq, Eq, Structural)]
pub enum ProcessOutcome {
    /// The child exited on its own, before the timeout.
    Exited(ExitInfo),
    /// The timeout fired and the shutdown cascade ran; the synthetic
    /// timed-out verdict, never a natural exit status.
    TimedOut,
}

/// Failures of the control protocol itself.
#[derive(Debug, Clone)]
pub enum LifecycleError {
    /// The process id could not be obtained (already reaped); there is
    /// nothing left to control.
    NoProcessId,
    /// Waiting on the child failed with an OS error.
    WaitFailed(String),
    /// The forced-kill primitive itself failed.
    KillFailed(String),
}

/// Protocol phase.
#[derive(Debug, Clone, Copy, PartialEq, Eq, Structural)]
pub enum Phase {
    /// Waiting for natural completion, up to the timeout.
    AwaitExit,
    /// The timeout fired; the cooperative signal is being sent.
    SigtermTry,
    /// Cooperative signal sent; waiting up to the grace period.
    Terming,
    /// The forced kill is being sent.
    KillTry,
    /// Forced kill sent; waiting up to the fixed bound.
    Killing,
    /// The protocol has finished.
    Done,
}

/// What the embedding layer observed while performing the last action.
#[derive(Debug, Clone)]
pub enum WaitEvent {
    /// The child exited within the wait budget.
    Exited(ExitInfo),
    /// The wait itself failed with an OS error.
    WaitErr(String),
    /// The wait budget elapsed without an exit.
    WaitTimedOut,
    /// The cooperative signal was delivered.
    TermSendOk,
    /// The cooperative signal could not be sent (no such primitive, or
    /// it failed); skip straight to the forced kill.
    TermSendFailed,
    /// The forced kill was issued.
    KillSendOk,
    /// The forced kill could not be issued.
    KillSendFailed(String),
}

/// What the embedding layer must do next.
#[derive(Debug)]
pub enum Action {
    /// Wait on the child for at most this many milliseconds.
    WaitFor(u64),
    /// Send the cooperative termination signal to the process group.
    SendTerm,
    /// Send the non-catchable forced kill.
    SendKill,
    /// The protocol is over; return this verdict.
    Return(Result<ProcessOutcome, LifecycleError>),
}

/// The events each phase can observe.
pub open spec fn event_ok(p: Phase, ev: WaitEvent) -> bool {
    match p {
        Phase::AwaitExit => ev is Exited || ev is WaitErr || ev is WaitTimedOut,
        Phase::SigtermTry => ev is TermSendOk || ev is TermSendFailed,
        Phase::Terming => ev is Exited || ev is WaitErr || ev is WaitTimedOut,
        Phase::KillTry => ev is KillSendOk || ev is KillSendFailed,
        Phase::Killing => ev is Exited || ev is WaitErr || ev is WaitTimedOut,
        Phase::Done => false,
    }
}

/// The transition relation: next phase and action for a phase and an
/// observed event, with timeout `t` and grace period `g` (milliseconds).
pub open spec fn spec_step(p: Phase, t: u64, g: u64, ev: WaitEvent) -> (Phase, Action) {
    match p {
        Phase::AwaitExit => match ev {
            WaitEvent::Exited(info) => (
                Phase::Done,
                Action::Return(Ok(ProcessOutcome::Exited(info))),
            ),
            WaitEvent::WaitErr(m) => (Phase::Done, Action::Return(Err(
                LifecycleError::WaitFailed(m),
            ))),
            _ => (Phase::SigtermTry, Action::SendTerm),
        },
        Phase::SigtermTry => match ev {
            WaitEvent::TermSendOk => (Phase::Terming, Action::WaitFor(g)),
            _ => (Phase::KillTry, Action::SendKill),
        },
        Phase::Terming => match ev {
            WaitEvent::Exited(_) => (Phase::Done, Action::Return(Ok(ProcessOutcome::TimedOut))),
            _ => (Phase::KillTry, Action::SendKill),
        },
        Phase::KillTry => match ev {
            WaitEvent::KillSendFailed(m) => (Phase::Done, Action::Return(Err(
                LifecycleError::KillFailed(m),
            ))),
            _ => (Phase::Killing, Action::WaitFor(FORCE_KILL_WAIT_MS)),
        },
        Phase::Killing => match ev {
            WaitEvent::WaitErr(m) => (Phase::Done, Action::Return(Err(
                LifecycleError::WaitFailed(m),
            ))),
            // an exit, or even an unobserved exit after the forced kill,
            // is the synthetic timed-out verdict
            _ => (Phase::Done, Action::Return(Ok(ProcessOutcome::TimedOut))),
        },
        Phase::Done => (Phase::Done, Action::Return(Ok(ProcessOutcome::TimedOut))),
    }
}

/// Strictly decreasing measure over the protocol phases.
pub open spec fn phase_rank(p: Phase) -> int {
    match p {
        Phase::AwaitExit => 5,
        Phase::SigtermTry => 4,
        Phase::Terming => 3,
        Phase::KillTry => 2,
        Phase::Killing => 1,
        Phase::Done => 0,
    }
}

/// The wait budget an action requests.
pub open spec fn wait_of(a: Action) -> int {
    match a {
        Action::WaitFor(d) => d as int,
        _ => 0,
    }
}

/// Total wait budget requested along a trace of events, starting in
/// phase `p`; the trace ends early at any event the phase cannot
/// observe.
pub open spec fn total_wait(p: Phase, t: u64, g: u64, evs: Seq<WaitEvent>) -> int
    decreases evs.len(),
{
    if evs.len() == 0 {
        0
    } else if !event_ok(p, evs.first()) {
        0
    } else {
        let step = spec_step(p, t, g, evs.first());
        wait_of(step.1) + total_wait(step.0, t, g, evs.drop_first())
    }
}

/// The largest wait budget still ahead of each phase.
pub open spec fn phase_budget(p: Phase, t: u64, g: u64) -> int {
    match p {
        Phase::AwaitExit => g + FORCE_KILL_WAIT_MS,
        Phase::SigtermTry => g + FORCE_KILL_WAIT_MS,
        Phase::Terming => FORCE_KILL_WAIT_MS as int,
        Phase::KillTry => FORCE_KILL_WAIT_MS as int,
        Phase::Killing => 0,
        Phase::Done => 0,
    }
}

/// Along any trace, the wait requested from a phase stays within that
/// phase's budget.
pub proof fn lemma_wait_within_budget(p: Phase, t: u64, g: u64, evs: Seq<WaitEvent>)
    ensures
        total_wait(p, t, g, evs) <= phase_budget(p, t, g),
        total_wait(p, t, g, evs) >= 0,
    decreases evs.len(),
{
    if evs.len() > 0 && event_ok(p, evs.first()) {
        let step = spec_step(p, t, g, evs.first());
        lemma_wait_within_budget(step.0, t, g, evs.drop_first());
    }
}

/// Bounded shutdown: for a process supervised with timeout `t` and grace
/// period `g`, the whole protocol — the initial wait for natural
/// completion plus everything the cascade requests along any trace of
/// observations — never asks for more than
/// `t + g + FORCE_KILL_WAIT_MS` milliseconds of waiting.
pub proof fn lemma_bounded_shutdown(t: u64, g: u64, evs: Seq<WaitEvent>)
    ensures
        t + total_wait(Phase::AwaitExit, t, g, evs) <= t + g + FORCE_KILL_WAIT_MS,
{
    lemma_wait_within_budget(Phase::AwaitExit, t, g, evs);
}

/// Once the timeout has fired, the protocol never reports a natural
/// exit: every verdict produced outside `AwaitExit` is the synthetic
/// timed-out outcome or an error.
pub proof fn lemma_no_exit_after_timeout(p: Phase, t: u64, g: u64, ev: WaitEvent)
    requires
        p != Phase::AwaitExit,
    ensures
        spec_step(p, t, g, ev).1 matches Action::Return(Ok(o)) ==> o == ProcessOutcome::TimedOut,
{
}

/// The supervisor of one spawned process: its timeout, grace period and
/// protocol phase.  A fresh supervisor is created for each execution
/// attempt and never reused.
#[derive(Debug, Clone)]
pub struct ProcessKiller {
    /// Total timeout for natural completion, in milliseconds.
    pub timeout_ms: u64,
    /// Grace period of the cascade, in milliseconds.
    pub grace_ms: u64,
    /// Current protocol phase.
    pub phase: Phase,
}

impl ProcessKiller {
    /// A fresh supervisor with the default grace period.
    pub fn new(timeout_ms: u64) -> (k: Self)
        ensures
            k.timeout_ms == timeout_ms,
            k.grace_ms == DEFAULT_GRACE_PERIOD_MS,
            k.phase == Phase::AwaitExit,
    {
        ProcessKiller { timeout_ms, grace_ms: DEFAULT_GRACE_PERIOD_MS, phase: Phase::AwaitExit }
    }

    /// The same supervisor with another grace period.
    pub fn with_grace_period(self, grace_ms: u64) -> (k: Self)
        ensures
            k.timeout_ms == self.timeout_ms,
            k.grace_ms == grace_ms,
            k.phase == self.phase,
    {
        ProcessKiller { grace_ms, ..self }
    }

    /// The configured timeout, in milliseconds.
    pub fn timeout(&self) -> (t: u64)
        ensures
            t == self.timeout_ms,
    {
        self.timeout_ms
    }

    /// The configured grace period, in milliseconds.
    pub fn grace_period(&self) -> (g: u64)
        ensures
            g == self.grace_ms,
    {
        self.grace_ms
    }

    /// The first action: wait for natural completion up to the timeout.
    pub fn start(&self) -> (a: Action)
        requires
            self.phase == Phase::AwaitExit,
        ensures
            a == Action::WaitFor(self.timeout_ms),
    {
        Action::WaitFor(self.timeout_ms)
    }

    /// Feed one observation in; the next action comes back.  Each step
    /// strictly advances the protocol, so the driving loop terminates.
    pub fn step(&mut self, ev: WaitEvent) -> (a: Action)
        requires
            event_ok(old(self).phase, ev),
        ensures
            (final(self).phase, a) == spec_step(old(self).phase, old(self).timeout_ms, old(
                self,
            ).grace_ms, ev),
            phase_rank(final(self).phase) < phase_rank(old(self).phase),
            final(self).timeout_ms == old(self).timeout_ms,
            final(self).grace_ms == old(self).grace_ms,
    {
        let (phase, action): (Phase, Action) = match self.phase {
            Phase::AwaitExit => match ev {
                WaitEvent::Exited(info) => (
                    Phase::Done,
                    Action::Return(Ok(ProcessOutcome::Exited(info))),
                ),
                WaitEvent::WaitErr(m) => (
                    Phase::Done,
                    Action::Return(Err(LifecycleError::WaitFailed(m))),
                ),
                _ => (Phase::SigtermTry, Action::SendTerm),
            },
            Phase::SigtermTry => match ev {
                WaitEvent::TermSendOk => (Phase::Terming, Action::WaitFor(self.grace_ms)),
                _ => (Phase::KillTry, Action::SendKill),
            },
            Phase::Terming => match ev {
                WaitEvent::Exited(_) => (
                    Phase::Done,
                    Action::Return(Ok(ProcessOutcome::TimedOut)),
                ),
                _ => (Phase::KillTry, Action::SendKill),
            },
            Phase::KillTry => match ev {
                WaitEvent::KillSendFailed(m) => (
                    Phase::Done,
                    Action::Return(Err(LifecycleError::KillFailed(m))),
                ),
                _ => (Phase::Killing, Action::WaitFor(FORCE_KILL_WAIT_MS)),
            },
            Phase::Killing => match ev {
                WaitEvent::WaitErr(m) => (
                    Phase::Done,
                    Action::Return(Err(LifecycleError::WaitFailed(m))),
                ),
                _ => (Phase::Done, Action::Return(Ok(ProcessOutcome::TimedOut))),
            },
            Phase::Done => (Phase::Done, Action::Return(Ok(ProcessOutcome::TimedOut))),
        };
        self.phase = phase;
        action
    }
}

} // verus!

use agentflow::lifecycle::{
    Action, ExitInfo, LifecycleError, Phase, ProcessKiller, ProcessOutcome, WaitEvent,
    DEFAULT_GRACE_PERIOD_MS, FORCE_KILL_WAIT_MS,
};

fn wait_budget(a: &Action) -> u64 {
    match a {
        Action::WaitFor(d) => *d,
        _ => 0,
    }
}

#[test]
fn killer_creation_defaults() {
    let killer = ProcessKiller::new(60_000);
    assert_eq!(killer.timeout(), 60_000);
    assert_eq!(killer.grace_period(), DEFAULT_GRACE_PERIOD_MS);
    assert!(matches!(killer.start(), Action::WaitFor(60_000)));
}

#[test]
fn grace_period_configuration() {
    let killer = ProcessKiller::new(60_000).with_grace_period(10_000);
    assert_eq!(killer.grace_period(), 10_000);
    assert_eq!(killer.timeout(), 60_000);
}

#[test]
fn natural_exit_returns_the_real_status() {
    let mut killer = ProcessKiller::new(60_000);
    let info = ExitInfo { success: true, exit_code: Some(0) };
    let a = killer.step(WaitEvent::Exited(info));
    match a {
        Action::Return(Ok(ProcessOutcome::Exited(e))) => {
            assert!(e.success);
            assert_eq!(e.exit_code, Some(0));
        }
        _ => panic!("expected a natural exit verdict"),
    }
    assert_eq!(killer.phase, Phase::Done);
}

#[test]
fn wait_error_is_a_control_failure() {
    let mut killer = ProcessKiller::new(60_000);
    let a = killer.step(WaitEvent::WaitErr(String::from("os error")));
    assert!(matches!(a, Action::Return(Err(LifecycleError::WaitFailed(_)))));
}

#[test]
fn timeout_cascade_scenario() {
    // a command that would sleep far past its budget: timeout 100ms,
    // grace 5s.  The protocol asks for at most 100ms + 5s + 1s of
    // waiting, and the verdict is the synthetic timed-out outcome.
    let mut killer = ProcessKiller::new(100).with_grace_period(5_000);
    let mut total: u64 = wait_budget(&killer.start());

    // the wait times out; the cooperative signal goes to the group
    let a = killer.step(WaitEvent::WaitTimedOut);
    assert!(matches!(a, Action::SendTerm));
    total += wait_budget(&a);

    // signal delivered; the grace wait begins
    let a = killer.step(WaitEvent::TermSendOk);
    assert!(matches!(a, Action::WaitFor(5_000)));
    total += wait_budget(&a);

    // the process ignores the signal; the forced kill goes out
    let a = killer.step(WaitEvent::WaitTimedOut);
    assert!(matches!(a, Action::SendKill));
    total += wait_budget(&a);

    let a = killer.step(WaitEvent::KillSendOk);
    assert!(matches!(a, Action::WaitFor(FORCE_KILL_WAIT_MS)));
    total += wait_budget(&a);

    // the exit is observed; the verdict is the synthetic timeout
    let a = killer.step(WaitEvent::Exited(ExitInfo { success: false, exit_code: None }));
    match a {
        Action::Return(Ok(o)) => assert_eq!(o, ProcessOutcome::TimedOut),
        _ => panic!("expected the timed-out verdict"),
    }
    total += wait_budget(&a);

    assert!(total <= 100 + 5_000 + FORCE_KILL_WAIT_MS);
    assert_eq!(killer.phase, Phase::Done);
}

#[test]
fn unconfirmed_kill_counts_as_killed() {
    // even when the wait after the forced kill times out, the verdict is
    // the synthetic timeout, not an error
    let mut killer = ProcessKiller::new(100);
    killer.step(WaitEvent::WaitTimedOut);
    killer.step(WaitEvent::TermSendOk);
    killer.step(WaitEvent::WaitTimedOut);
    killer.step(WaitEvent::KillSendOk);
    let a = killer.step(WaitEvent::WaitTimedOut);
    assert!(matches!(a, Action::Return(Ok(ProcessOutcome::TimedOut))));
}

#[test]
fn graceful_exit_within_grace_period() {
    let mut killer = ProcessKiller::new(100);
    killer.step(WaitEvent::WaitTimedOut);
    killer.step(WaitEvent::TermSendOk);
    let a = killer.step(WaitEvent::Exited(ExitInfo { success: false, exit_code: Some(143) }));
    // an exit after the timeout is still reported as timed out
    assert!(matches!(a, Action::Return(Ok(ProcessOutcome::TimedOut))));
}

#[test]
fn sigterm_unavailable_skips_to_the_forced_kill() {
    let mut killer = ProcessKiller::new(100);
    killer.step(WaitEvent::WaitTimedOut);
    let a = killer.step(WaitEvent::TermSendFailed);
    assert!(matches!(a, Action::SendKill));
}

#[test]
fn wait_error_during_grace_escalates() {
    let mut killer = ProcessKiller::new(100);
    killer.step(WaitEvent::WaitTimedOut);
    killer.step(WaitEvent::TermSendOk);
    let a = killer.step(WaitEvent::WaitErr(String::from("os error")));
    assert!(matches!(a, Action::SendKill));
}

#[test]
fn wait_error_after_kill_is_fatal() {
    let mut killer = ProcessKiller::new(100);
    killer.step(WaitEvent::WaitTimedOut);
    killer.step(WaitEvent::TermSendOk);
    killer.step(WaitEvent::WaitTimedOut);
    killer.step(WaitEvent::KillSendOk);
    let a = killer.step(WaitEvent::WaitErr(String::from("os error")));
    assert!(matches!(a, Action::Return(Err(LifecycleError::WaitFailed(_)))));
}

#[test]
fn kill_failure_is_fatal() {
    let mut killer = ProcessKiller::new(100);
    killer.step(WaitEvent::WaitTimedOut);
    killer.step(WaitEvent::TermSendFailed);
    let a = killer.step(WaitEvent::KillSendFailed(String::from("no permission")));
    assert!(matches!(a, Action::Return(Err(LifecycleError::KillFailed(_)))));
}

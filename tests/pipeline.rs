use op_challenger_driver::address::Address;
use op_challenger_driver::config::{DriverConfig, DISPATCH_CAPACITY};
use op_challenger_driver::dispatch::{
    Action, DispatchRequest, Dispatcher, DriverError, Event, Phase, RetryPolicy,
};
use op_challenger_driver::supervisor::{DriverExit, DriverKind, Supervisor, Verdict};
use op_challenger_driver::verbosity::{level_for_verbosity, LogLevel};
use tokio::sync::mpsc::error::TrySendError;

fn addr(b: u8) -> Address {
    Address::from_bytes([b; 20])
}

fn request(tag: u8) -> DispatchRequest {
    DispatchRequest { target: addr(0x11), data: vec![tag] }
}

fn config() -> DriverConfig {
    DriverConfig::new("ws://localhost:8546".to_string(), addr(1), addr(2))
}

#[test]
fn config_keeps_its_inputs() {
    let c = config();
    assert_eq!(c.ws_endpoint, "ws://localhost:8546");
    assert_eq!(c.dispute_game_factory.to_bytes(), [1u8; 20]);
    assert_eq!(c.l2_output_oracle.to_bytes(), [2u8; 20]);
    assert_eq!(c.capacity(), 128);
    assert_eq!(DISPATCH_CAPACITY, 128);
    assert_eq!(c.tx_sender.max_capacity(), 128);
}

#[test]
fn channel_capacity_invariant() {
    let c = config();
    for i in 0..128u32 {
        assert!(c.tx_sender.try_send(request((i % 256) as u8)).is_ok());
    }
    match c.tx_sender.try_send(request(200)) {
        Err(TrySendError::Full(r)) => assert_eq!(r.data, vec![200]),
        other => panic!("expected a full channel, got {:?}", other.is_ok()),
    }
    let mut rx = c.tx_receiver.try_lock().expect("receiver is free");
    for i in 0..128u32 {
        let r = rx.try_recv().expect("queued request");
        assert_eq!(r.data, vec![(i % 256) as u8]);
    }
    assert!(rx.try_recv().is_err());
}

#[test]
fn single_consumer_invariant() {
    let c = config();
    let first = c.tx_receiver.try_lock();
    assert!(first.is_ok());
    assert!(c.tx_receiver.try_lock().is_err());
    drop(first);
    assert!(c.tx_receiver.try_lock().is_ok());
}

fn confirm_one(d: &mut Dispatcher, r: DispatchRequest) -> Vec<u8> {
    assert_eq!(d.step(Event::Received(r)), Action::Submit { attempt: 1, fee_level: 0 });
    let data = d.current.as_ref().unwrap().data.clone();
    assert_eq!(d.step(Event::SubmitAccepted), Action::AwaitConfirmation);
    assert_eq!(d.step(Event::Confirmed), Action::AwaitRequest);
    data
}

#[test]
fn fifo_per_producer() {
    let c = config();
    for tag in [1u8, 2, 3] {
        c.tx_sender.try_send(request(tag)).unwrap();
    }
    let mut rx = c.tx_receiver.try_lock().unwrap();
    let mut d = Dispatcher::new(RetryPolicy::standard());
    let mut seen = Vec::new();
    while let Ok(r) = rx.try_recv() {
        seen.push(confirm_one(&mut d, r));
    }
    assert_eq!(seen, vec![vec![1], vec![2], vec![3]]);
    assert_eq!(d.phase, Phase::Idle);
}

#[test]
fn fail_fast_propagation() {
    let mut s = Supervisor::new(3);
    assert!(!s.is_done());
    let failure = DriverExit::Failed(DriverKind::OutputAttestation, DriverError::Dispatch);
    assert_eq!(s.on_exit(failure), Verdict::Shutdown(failure));
    assert!(s.is_done());
    assert_eq!(s.outcome, Some(failure));
    assert_eq!(s.running, 2);
}

#[test]
fn supervisor_waits_past_clean_exits() {
    let mut s = Supervisor::new(3);
    assert_eq!(s.on_exit(DriverExit::Finished(DriverKind::Dispute)), Verdict::KeepWaiting);
    let panic = DriverExit::Panicked(DriverKind::TxDispatch);
    assert_eq!(s.on_exit(panic), Verdict::Shutdown(panic));
    assert_eq!(s.outcome, Some(panic));
}

#[test]
fn supervisor_all_finished() {
    let mut s = Supervisor::new(2);
    assert_eq!(s.on_exit(DriverExit::Finished(DriverKind::Dispute)), Verdict::KeepWaiting);
    assert_eq!(s.on_exit(DriverExit::Finished(DriverKind::TxDispatch)), Verdict::AllFinished);
    assert!(s.is_done());
    assert_eq!(s.outcome, None);
}

fn fail_then_succeed(policy: RetryPolicy, n: u32) -> (u32, u32, Vec<Action>) {
    let mut d = Dispatcher::new(policy);
    let mut actions = vec![d.step(Event::Received(request(9)))];
    for _ in 0..n {
        actions.push(d.step(Event::SubmitTransient));
        actions.push(d.step(Event::BackoffElapsed));
    }
    actions.push(d.step(Event::SubmitAccepted));
    let submits = actions.iter().filter(|a| matches!(a, Action::Submit { .. })).count() as u32;
    let accepted = actions.iter().filter(|a| matches!(a, Action::AwaitConfirmation)).count() as u32;
    (submits, accepted, actions)
}

#[test]
fn retry_bound() {
    let policy = RetryPolicy::new(4, 100, 10_000);
    for n in 0..4u32 {
        let (submits, accepted, actions) = fail_then_succeed(policy, n);
        assert_eq!(submits, n + 1);
        assert_eq!(accepted, 1);
        assert!(!actions.iter().any(|a| matches!(a, Action::Stop(_))));
    }
}

#[test]
fn retry_budget_exhausted() {
    let mut d = Dispatcher::new(RetryPolicy::new(2, 100, 10_000));
    assert_eq!(d.step(Event::Received(request(1))), Action::Submit { attempt: 1, fee_level: 0 });
    assert_eq!(d.step(Event::SubmitTransient), Action::Wait { delay_ms: 100 });
    assert_eq!(d.step(Event::BackoffElapsed), Action::Submit { attempt: 2, fee_level: 0 });
    assert_eq!(d.step(Event::SubmitTransient), Action::Stop(DriverError::Dispatch));
    assert_eq!(d.phase, Phase::Stopped);
    assert!(!d.expects(&Event::BackoffElapsed));
}

#[test]
fn signing_failure_is_fatal() {
    let mut d = Dispatcher::new(RetryPolicy::standard());
    d.step(Event::Received(request(1)));
    assert_eq!(d.step(Event::SigningFailed), Action::Stop(DriverError::Signing));
    assert_eq!(d.phase, Phase::Stopped);
}

#[test]
fn closed_channel_is_fatal() {
    let mut d = Dispatcher::new(RetryPolicy::standard());
    assert!(d.expects(&Event::ChannelClosed));
    assert!(!d.expects(&Event::Confirmed));
    assert_eq!(d.step(Event::ChannelClosed), Action::Stop(DriverError::ChannelClosed));
}

#[test]
fn revert_isolation() {
    let mut d = Dispatcher::new(RetryPolicy::standard());
    d.step(Event::Received(request(1)));
    assert_eq!(d.step(Event::SubmitReverted), Action::AwaitRequest);
    assert_eq!(d.step(Event::Received(request(2))), Action::Submit { attempt: 1, fee_level: 0 });
    assert_eq!(d.current.as_ref().unwrap().data, vec![2]);
    assert_eq!(d.step(Event::SubmitAccepted), Action::AwaitConfirmation);
    assert_eq!(d.step(Event::ExecutionReverted), Action::AwaitRequest);
    assert_eq!(d.step(Event::Received(request(3))), Action::Submit { attempt: 1, fee_level: 0 });
    assert_eq!(d.phase, Phase::Submitting);
}

#[test]
fn confirmation_timeout_rechecks_then_bumps_fee() {
    let mut d = Dispatcher::new(RetryPolicy::new(3, 250, 10_000));
    d.step(Event::Received(request(1)));
    d.step(Event::SubmitAccepted);
    assert_eq!(d.step(Event::ConfirmationTimeout), Action::RecheckStatus);
    assert_eq!(d.step(Event::ConfirmationTimeout), Action::Wait { delay_ms: 250 });
    assert_eq!(d.step(Event::BackoffElapsed), Action::Submit { attempt: 2, fee_level: 1 });
    d.step(Event::SubmitAccepted);
    assert_eq!(d.step(Event::ConfirmationTimeout), Action::RecheckStatus);
    assert_eq!(d.step(Event::Confirmed), Action::AwaitRequest);
}

#[test]
fn end_to_end_scenario() {
    let c = config();
    // Producer A sends request X.
    c.tx_sender.try_send(request(0x58)).unwrap();
    let mut rx = c.tx_receiver.try_lock().unwrap();
    let mut d = Dispatcher::new(RetryPolicy::standard());
    // The mocked connection fails twice for a transient reason, then accepts.
    let mut mock_failures = 2u32;
    let mut attempts = 0u32;
    let mut action = d.step(Event::Received(rx.try_recv().unwrap()));
    loop {
        action = match action {
            Action::Submit { .. } => {
                attempts += 1;
                assert_eq!(d.current.as_ref().unwrap().data, vec![0x58]);
                if mock_failures > 0 {
                    mock_failures -= 1;
                    d.step(Event::SubmitTransient)
                } else {
                    d.step(Event::SubmitAccepted)
                }
            }
            Action::Wait { .. } => d.step(Event::BackoffElapsed),
            Action::AwaitConfirmation => d.step(Event::Confirmed),
            Action::AwaitRequest => break,
            other => panic!("unexpected action {:?}", other),
        };
    }
    assert_eq!(attempts, 3);
    assert_eq!(d.phase, Phase::Idle);
    assert!(d.expects(&Event::Received(request(0))));
    assert!(rx.try_recv().is_err());
}

#[test]
fn backoff_doubles_up_to_the_cap() {
    let p = RetryPolicy::standard();
    assert_eq!(p.backoff_delay(1), 500);
    assert_eq!(p.backoff_delay(2), 1000);
    assert_eq!(p.backoff_delay(3), 2000);
    assert_eq!(p.backoff_delay(6), 16_000);
    assert_eq!(p.backoff_delay(7), 30_000);
    assert_eq!(p.backoff_delay(100), 30_000);
    let q = RetryPolicy::new(3, 5_000, 1_000);
    assert_eq!(q.backoff_delay(1), 1_000);
    let z = RetryPolicy::new(1, 0, 0);
    assert_eq!(z.backoff_delay(40), 0);
    let big = RetryPolicy::new(1, u64::MAX / 2 + 1, u64::MAX);
    assert_eq!(big.backoff_delay(2), u64::MAX);
}

#[test]
fn verbosity_levels() {
    assert_eq!(level_for_verbosity(0), LogLevel::Error);
    assert_eq!(level_for_verbosity(1), LogLevel::Warn);
    assert_eq!(level_for_verbosity(2), LogLevel::Info);
    assert_eq!(level_for_verbosity(3), LogLevel::Debug);
    assert_eq!(level_for_verbosity(4), LogLevel::Trace);
    assert_eq!(level_for_verbosity(255), LogLevel::Trace);
}

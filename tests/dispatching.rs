use idotmatrix::{Dispatch, IDMCommand, SendOutcome, Step};

/// A transport that fails on its `fail_on`-th call (counting from 1).
struct FakeTransport {
    calls: usize,
    fail_on: usize,
    seen: Vec<IDMCommand>,
}

impl FakeTransport {
    fn send(&mut self, c: &IDMCommand) -> SendOutcome {
        self.calls += 1;
        self.seen.push(c.clone());
        if self.calls == self.fail_on {
            SendOutcome::Failed
        } else {
            SendOutcome::Sent
        }
    }
}

fn commands() -> Vec<IDMCommand> {
    vec![
        IDMCommand::ScreenOn,
        IDMCommand::ImageMode(1),
        IDMCommand::ScreenBrightness(50),
        IDMCommand::CountdownStart(10),
        IDMCommand::CountdownPause,
    ]
}

fn run(fail_on: usize) -> (Dispatch, FakeTransport) {
    let mut d = Dispatch::new(commands());
    let mut t = FakeTransport { calls: 0, fail_on, seen: vec![] };
    let mut step = d.next_step();
    while let Step::Send(i) = step {
        let c = d.command(i).clone();
        let outcome = t.send(&c);
        step = d.record(outcome);
    }
    (d, t)
}

#[test]
fn failure_on_nth_call_is_reported_and_rest_still_sent() {
    for n in 1..=5 {
        let (d, t) = run(n);
        assert_eq!(d.failures(), vec![n - 1]);
        assert_eq!(t.calls, 5);
        assert_eq!(t.seen, commands());
    }
}

#[test]
fn record_after_failure_moves_to_next_command() {
    let mut d = Dispatch::new(commands());
    assert_eq!(d.next_step(), Step::Send(0));
    assert_eq!(d.record(SendOutcome::Sent), Step::Send(1));
    assert_eq!(d.record(SendOutcome::Failed), Step::Send(2));
    assert_eq!(d.failures(), vec![1]);
}

#[test]
fn no_failures_when_transport_never_fails() {
    let (d, t) = run(0);
    assert!(d.failures().is_empty());
    assert_eq!(t.calls, 5);
}

#[test]
fn empty_list_finishes_at_once() {
    let d = Dispatch::new(vec![]);
    assert_eq!(d.next_step(), Step::Finished);
}

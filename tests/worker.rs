use keybrute::coordinator::spawn_workers;
use keybrute::matching::FormatError;
use keybrute::progress::State;
use keybrute::signal::TerminationSignal;
use keybrute::worker::{Action, Event, Phase, Worker, WorkerError};

/// A stand-in key generator: counts invocations per slot and yields a public key
/// whose key field matches only on the chosen invocation of the chosen slot.
struct FakeGenerator {
    calls: Vec<u32>,
    winning: Option<(usize, u32)>,
}

impl FakeGenerator {
    fn generate(&mut self, slot: usize) {
        self.calls[slot] += 1;
    }

    fn public_key(&self, slot: usize) -> String {
        if self.winning == Some((slot, self.calls[slot])) {
            "ssh-ed25519 AAAAC3cafebabe me@host".to_string()
        } else {
            format!("ssh-ed25519 AAAAC3slot{}try{} me@host", slot, self.calls[slot])
        }
    }
}

/// Carries out one action of a worker against the shared state and returns the
/// event to hand back, or None once the worker is done.
fn perform(
    action: Action,
    generator: &mut FakeGenerator,
    signal: &mut TerminationSignal,
    state: &mut State,
    delivered: &mut Vec<usize>,
) -> Option<Event> {
    match action {
        Action::ReadSignal => Some(Event::SignalRead(signal.is_set())),
        Action::Generate(slot) => {
            generator.generate(slot);
            Some(Event::Generated)
        }
        Action::ReadPublicKey(slot) => Some(Event::PublicKeyRead(generator.public_key(slot))),
        Action::Claim(slot) => Some(Event::Claimed(signal.claim(slot))),
        Action::Discard(_) => {
            state.record_attempt(100, 0);
            Some(Event::Recorded)
        }
        Action::Deliver(slot) => {
            delivered.push(slot);
            None
        }
        Action::Stop => None,
        Action::Fail(e) => panic!("worker failed: {:?}", e),
    }
}

fn terms(ts: &[&str]) -> Vec<String> {
    ts.iter().map(|t| t.to_string()).collect()
}

#[test]
fn scenario_match_on_fifth_attempt_of_slot_zero() {
    let terms = terms(&["cafe"]);
    let mut generator = FakeGenerator { calls: vec![0; 1], winning: Some((0, 5)) };
    let mut signal = TerminationSignal::new();
    let mut state = State::new(0);
    let mut delivered = Vec::new();
    let mut w = Worker::new(0);
    let mut action = w.start();
    while let Some(ev) = perform(action, &mut generator, &mut signal, &mut state, &mut delivered) {
        action = w.step(&terms, ev);
    }
    assert_eq!(delivered, vec![0]);
    assert_eq!(signal.winner, Some(0));
    assert_eq!(state.counter, 4);
    assert_eq!(generator.calls[0], 5);
    assert!(w.is_stopped());
}

#[test]
fn scenario_cancellation_stops_all_workers_within_one_iteration() {
    let terms = terms(&["zz"]);
    let mut workers = spawn_workers(3);
    let mut generator = FakeGenerator { calls: vec![0; 3], winning: None };
    let mut signal = TerminationSignal::new();
    let mut state = State::new(0);
    let mut delivered = Vec::new();
    let mut pending: Vec<Option<Action>> = workers.iter().map(|w| Some(w.start())).collect();
    // Let the workers interleave for a while, a different number of steps each.
    for round in 0..40usize {
        let i = round % 3;
        if round % 5 == 4 {
            continue;
        }
        if let Some(a) = pending[i] {
            pending[i] = perform(a, &mut generator, &mut signal, &mut state, &mut delivered)
                .map(|ev| workers[i].step(&terms, ev));
        }
    }
    // The harness sets the signal from outside.
    assert!(signal.claim(usize::MAX));
    let calls_at_signal = generator.calls.clone();
    let mut iterations = vec![0u32; 3];
    for i in 0..3 {
        while let Some(a) = pending[i] {
            if a == Action::ReadSignal {
                iterations[i] += 1;
            }
            pending[i] = perform(a, &mut generator, &mut signal, &mut state, &mut delivered)
                .map(|ev| workers[i].step(&terms, ev));
        }
        assert!(workers[i].is_stopped());
        assert!(generator.calls[i] <= calls_at_signal[i] + 1);
        assert!(iterations[i] <= 1);
    }
    assert!(delivered.is_empty());
}

#[test]
fn losing_claim_discards_the_result() {
    let terms = terms(&["cafe"]);
    let mut w = Worker { slot: 2, phase: Phase::Testing };
    let a = w.step(&terms, Event::PublicKeyRead("a cafe b".to_string()));
    assert_eq!(a, Action::Claim(2));
    assert_eq!(w.step(&terms, Event::Claimed(false)), Action::Stop);
    assert!(w.is_stopped());
}

#[test]
fn winning_claim_delivers_the_slot() {
    let terms = terms(&["cafe"]);
    let mut w = Worker { slot: 2, phase: Phase::Claiming };
    assert_eq!(w.step(&terms, Event::Claimed(true)), Action::Deliver(2));
}

#[test]
fn malformed_public_key_fails_the_worker() {
    let terms = terms(&["cafe"]);
    let mut w = Worker { slot: 1, phase: Phase::Testing };
    let a = w.step(&terms, Event::PublicKeyRead("only-one-field".to_string()));
    assert_eq!(a, Action::Fail(WorkerError::Format(FormatError { field_count: 1 })));
    assert!(w.is_stopped());
}

#[test]
fn unexpected_event_fails_the_worker() {
    let terms = terms(&["cafe"]);
    let mut w = Worker::new(0);
    assert_eq!(w.step(&terms, Event::Recorded), Action::Fail(WorkerError::UnexpectedEvent));
    assert_eq!(w.step(&terms, Event::SignalRead(false)), Action::Stop);
}

#[test]
fn one_loop_iteration_without_match() {
    let terms = terms(&["zz"]);
    let mut w = Worker::new(4);
    assert_eq!(w.start(), Action::ReadSignal);
    assert_eq!(w.step(&terms, Event::SignalRead(false)), Action::Generate(4));
    assert_eq!(w.step(&terms, Event::Generated), Action::ReadPublicKey(4));
    let a = w.step(&terms, Event::PublicKeyRead("ssh-ed25519 AAAA me".to_string()));
    assert_eq!(a, Action::Discard(4));
    assert_eq!(w.step(&terms, Event::Recorded), Action::ReadSignal);
    assert_eq!(w.step(&terms, Event::SignalRead(true)), Action::Stop);
    assert!(w.is_stopped());
}

#[test]
fn workers_get_distinct_slots() {
    let ws = spawn_workers(4);
    let slots: Vec<usize> = ws.iter().map(|w| w.slot).collect();
    assert_eq!(slots, vec![0, 1, 2, 3]);
    assert!(ws.iter().all(|w| w.phase == Phase::Checking));
}

#[test]
fn at_least_one_worker_is_planned() {
    let ws = keybrute::coordinator::plan_workers();
    assert!(!ws.is_empty());
    for (i, w) in ws.iter().enumerate() {
        assert_eq!(w.slot, i);
        assert_eq!(w.phase, Phase::Checking);
    }
}

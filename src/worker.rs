use vstd::prelude::*;

use crate::matching::{key_fields, key_matches, key_verdict, FormatError};

verus! {

/// Where a worker stands in its generate-and-test loop.
#[derive(Clone, Copy, Debug, PartialEq, Eq, Structural)]
pub enum Phase {
    /// About to read the termination signal.
    Checking,
    /// Waiting for the key generator to finish.
    Generating,
    /// Waiting for the public-key text.
    Testing,
    /// Found a match; waiting to learn whether its claim on the signal won.
    Claiming,
    /// Waiting for the failed attempt to be discarded and recorded.
    Reporting,
    /// Done; nothing more is asked of the caller.
    Stopped,
}

/// What the caller reports back to the worker after carrying out an action.
#[derive(Debug, PartialEq, Eq)]
pub enum Event {
    /// The termination signal was read, and this is its value.
    SignalRead(bool),
    /// The key generator has written this worker's key pair.
    Generated,
    /// This is the text of this worker's public key.
    PublicKeyRead(String),
    /// The claim on the termination signal was made; true when it won.
    Claimed(bool),
    /// The failed attempt's files are gone and the attempt is recorded.
    Recorded,
}

/// Why a worker stopped in failure.
#[derive(Clone, Copy, Debug, PartialEq, Eq, Structural)]
pub enum WorkerError {
    /// The public-key text did not have three fields.
    Format(FormatError),
    /// An event came that the current phase does not wait for.
    UnexpectedEvent,
}

/// What a worker asks its caller to do next.
#[derive(Clone, Copy, Debug, PartialEq, Eq, Structural)]
pub enum Action {
    /// Read the termination signal.
    ReadSignal,
    /// Run the key generator for this slot.
    Generate(usize),
    /// Read this slot's public-key text.
    ReadPublicKey(usize),
    /// Claim the termination signal for this slot.
    Claim(usize),
    /// Delete this slot's two key files and record one failed attempt.
    Discard(usize),
    /// Hand this slot to the coordinator as the winner; the worker is done.
    Deliver(usize),
    /// The worker is done.
    Stop,
    /// The worker has failed; the search cannot go on.
    Fail(WorkerError),
}

/// One worker: its fixed attempt slot and its phase.
#[derive(Clone, Copy, Debug, PartialEq, Eq, Structural)]
pub struct Worker {
    pub slot: usize,
    pub phase: Phase,
}

/// The transition of a worker in `phase` with attempt slot `slot` on `event`: the
/// next phase and the action asked of the caller.
pub open spec fn next(phase: Phase, slot: usize, terms: Seq<String>, event: Event) -> (
    Phase,
    Action,
) {
    match (phase, event) {
        (Phase::Stopped, _) => (Phase::Stopped, Action::Stop),
        (Phase::Checking, Event::SignalRead(set)) => if set {
            (Phase::Stopped, Action::Stop)
        } else {
            (Phase::Generating, Action::Generate(slot))
        },
        (Phase::Generating, Event::Generated) => (Phase::Testing, Action::ReadPublicKey(slot)),
        (Phase::Testing, Event::PublicKeyRead(text)) => match key_verdict(text@, terms) {
            Some(true) => (Phase::Claiming, Action::Claim(slot)),
            Some(false) => (Phase::Reporting, Action::Discard(slot)),
            None => (
                Phase::Stopped,
                Action::Fail(
                    WorkerError::Format(
                        FormatError { field_count: key_fields(text@).len() as usize },
                    ),
                ),
            ),
        },
        (Phase::Claiming, Event::Claimed(won)) => (
            Phase::Stopped,
            if won {
                Action::Deliver(slot)
            } else {
                Action::Stop
            },
        ),
        (Phase::Reporting, Event::Recorded) => (Phase::Checking, Action::ReadSignal),
        _ => (Phase::Stopped, Action::Fail(WorkerError::UnexpectedEvent)),
    }
}

/// The actions a worker asks for, one per event, as the events come in turn.
pub open spec fn run(phase: Phase, slot: usize, terms: Seq<String>, events: Seq<Event>) -> Seq<
    Action,
>
    decreases events.len(),
{
    if events.len() == 0 {
        Seq::empty()
    } else {
        let (p, a) = next(phase, slot, terms, events[0]);
        seq![a] + run(p, slot, terms, events.drop_first())
    }
}

/// Every read of the termination signal among `events` found it set.
pub open spec fn signal_seen_set(events: Seq<Event>) -> bool {
    forall|i: int| 0 <= i < events.len() ==> (#[trigger] events[i] matches Event::SignalRead(set)
        ==> set)
}

impl Worker {
    /// A worker for `slot`, about to read the termination signal.
    pub fn new(slot: usize) -> (r: Worker)
        ensures
            r == (Worker { slot, phase: Phase::Checking }),
    {
        Worker { slot, phase: Phase::Checking }
    }

    /// The first action of a fresh worker: read the termination signal.
    pub fn start(&self) -> (a: Action)
        ensures
            self.phase == Phase::Checking ==> a == Action::ReadSignal,
            self.phase != Phase::Checking ==> a == Action::Stop,
    {
        match self.phase {
            Phase::Checking => Action::ReadSignal,
            _ => Action::Stop,
        }
    }

    /// Whether the worker has stopped.
    pub fn is_stopped(&self) -> (r: bool)
        ensures
            r == (self.phase == Phase::Stopped),
    {
        match self.phase {
            Phase::Stopped => true,
            _ => false,
        }
    }

    /// Takes the outcome of the last action and gives the next one.
    pub fn step(&mut self, terms: &Vec<String>, event: Event) -> (a: Action)
        ensures
            final(self).slot == old(self).slot,
            (final(self).phase, a) == next(old(self).phase, old(self).slot, terms@, event),
    {
        let slot = self.slot;
        let (phase, action) = match (self.phase, event) {
            (Phase::Stopped, _) => (Phase::Stopped, Action::Stop),
            (Phase::Checking, Event::SignalRead(set)) => if set {
                (Phase::Stopped, Action::Stop)
            } else {
                (Phase::Generating, Action::Generate(slot))
            },
            (Phase::Generating, Event::Generated) => (Phase::Testing, Action::ReadPublicKey(slot)),
            (Phase::Testing, Event::PublicKeyRead(text)) => match key_matches(text.as_str(), terms) {
                Ok(true) => (Phase::Claiming, Action::Claim(slot)),
                Ok(false) => (Phase::Reporting, Action::Discard(slot)),
                Err(e) => (Phase::Stopped, Action::Fail(WorkerError::Format(e))),
            },
            (Phase::Claiming, Event::Claimed(won)) => (
                Phase::Stopped,
                if won {
                    Action::Deliver(slot)
                } else {
                    Action::Stop
                },
            ),
            (Phase::Reporting, Event::Recorded) => (Phase::Checking, Action::ReadSignal),
            _ => (Phase::Stopped, Action::Fail(WorkerError::UnexpectedEvent)),
        };
        self.phase = phase;
        action
    }
}

/// Once every read of the termination signal finds it set, the worker asks for no
/// further key generation, whatever phase it is in and whatever else happens.
pub proof fn lemma_no_generation_once_signalled(
    phase: Phase,
    slot: usize,
    terms: Seq<String>,
    events: Seq<Event>,
)
    requires
        signal_seen_set(events),
    ensures
        run(phase, slot, terms, events).len() == events.len(),
        forall|i: int|
            0 <= i < events.len() ==> !(#[trigger] run(phase, slot, terms, events)[i] is Generate),
    decreases events.len(),
{
    if events.len() > 0 {
        let (p, a) = next(phase, slot, terms, events[0]);
        let rest = events.drop_first();
        assert(signal_seen_set(rest)) by {
            assert forall|i: int| 0 <= i < rest.len() implies (#[trigger] rest[i] matches Event::SignalRead(
                set,
            ) ==> set) by {
                assert(rest[i] == events[i + 1]);
            }
        }
        lemma_no_generation_once_signalled(p, slot, terms, rest);
        assert(events[0] matches Event::SignalRead(set) ==> set);
        assert(!(a is Generate));
        let r = run(phase, slot, terms, events);
        assert(r == seq![a] + run(p, slot, terms, rest));
        assert forall|i: int| 0 <= i < events.len() implies !(#[trigger] r[i] is Generate) by {
            if i > 0 {
                assert(r[i] == run(p, slot, terms, rest)[i - 1]);
            }
        }
    }
}

/// The events of one loop iteration of a worker whose signal reads unset: the
/// generator runs, `text` is its public key, and `last` is the outcome of testing it.
pub open spec fn round_events(text: String, last: Event) -> Seq<Event> {
    seq![Event::SignalRead(false), Event::Generated, Event::PublicKeyRead(text), last]
}

/// The events of one failed iteration per text of `texts`, in turn.
pub open spec fn miss_events(texts: Seq<String>) -> Seq<Event>
    decreases texts.len(),
{
    if texts.len() == 0 {
        Seq::empty()
    } else {
        round_events(texts[0], Event::Recorded) + miss_events(texts.drop_first())
    }
}

/// The actions of a failed iteration: generate, read, discard and record, check again.
pub open spec fn miss_actions(slot: usize) -> Seq<Action> {
    seq![Action::Generate(slot), Action::ReadPublicKey(slot), Action::Discard(slot), Action::ReadSignal]
}

/// The actions of the winning iteration: generate, read, claim, deliver.
pub open spec fn hit_actions(slot: usize) -> Seq<Action> {
    seq![Action::Generate(slot), Action::ReadPublicKey(slot), Action::Claim(slot), Action::Deliver(slot)]
}

/// `a` repeated `n` times.
pub open spec fn repeated(a: Seq<Action>, n: nat) -> Seq<Action>
    decreases n,
{
    if n == 0 {
        Seq::empty()
    } else {
        a + repeated(a, (n - 1) as nat)
    }
}

/// The phase a worker reaches after the given events.
pub open spec fn phase_after(phase: Phase, slot: usize, terms: Seq<String>, events: Seq<Event>) -> Phase
    decreases events.len(),
{
    if events.len() == 0 {
        phase
    } else {
        phase_after(next(phase, slot, terms, events[0]).0, slot, terms, events.drop_first())
    }
}

/// Running two batches of events in turn asks for the actions of each, in turn.
pub proof fn lemma_run_append(
    phase: Phase,
    slot: usize,
    terms: Seq<String>,
    e1: Seq<Event>,
    e2: Seq<Event>,
)
    ensures
        run(phase, slot, terms, e1 + e2) == run(phase, slot, terms, e1) + run(
            phase_after(phase, slot, terms, e1),
            slot,
            terms,
            e2,
        ),
    decreases e1.len(),
{
    if e1.len() == 0 {
        assert(e1 + e2 =~= e2);
    } else {
        let p = next(phase, slot, terms, e1[0]).0;
        assert((e1 + e2).drop_first() =~= e1.drop_first() + e2);
        assert((e1 + e2)[0] == e1[0]);
        lemma_run_append(p, slot, terms, e1.drop_first(), e2);
        assert(run(phase, slot, terms, e1 + e2) =~= run(phase, slot, terms, e1) + run(
            phase_after(phase, slot, terms, e1),
            slot,
            terms,
            e2,
        ));
    }
}

/// One iteration from `Checking` on a key text `text`: the four actions it asks for
/// and the phase it ends in.
proof fn lemma_round(slot: usize, terms: Seq<String>, text: String, last: Event)
    requires
        key_verdict(text@, terms) is Some,
        key_verdict(text@, terms) == Some(true) ==> last == Event::Claimed(true),
        key_verdict(text@, terms) == Some(false) ==> last == Event::Recorded,
    ensures
        key_verdict(text@, terms) == Some(true) ==> run(Phase::Checking, slot, terms, round_events(text, last)) == hit_actions(slot)
            && phase_after(Phase::Checking, slot, terms, round_events(text, last)) == Phase::Stopped,
        key_verdict(text@, terms) == Some(false) ==> run(Phase::Checking, slot, terms, round_events(text, last)) == miss_actions(slot)
            && phase_after(Phase::Checking, slot, terms, round_events(text, last)) == Phase::Checking,
{
    let e = round_events(text, last);
    let e1 = e.drop_first();
    let e2 = e1.drop_first();
    let e3 = e2.drop_first();
    let e4 = e3.drop_first();
    assert(e1 =~= seq![Event::Generated, Event::PublicKeyRead(text), last]);
    assert(e2 =~= seq![Event::PublicKeyRead(text), last]);
    assert(e3 =~= seq![last]);
    assert(e4 =~= Seq::<Event>::empty());
    let p3 = if key_verdict(text@, terms) == Some(true) {
        Phase::Claiming
    } else {
        Phase::Reporting
    };
    assert(run(phase_after(p3, slot, terms, e3), slot, terms, e4) == Seq::<Action>::empty());
    assert(phase_after(next(p3, slot, terms, last).0, slot, terms, e4) == next(p3, slot, terms, last).0);
    let r3 = run(p3, slot, terms, e3);
    assert(r3 =~= seq![next(p3, slot, terms, last).1]);
    let r2 = run(Phase::Testing, slot, terms, e2);
    assert(r2 =~= seq![next(Phase::Testing, slot, terms, e2[0]).1] + r3);
    let r1 = run(Phase::Generating, slot, terms, e1);
    assert(r1 =~= seq![Action::ReadPublicKey(slot)] + r2);
    let r0 = run(Phase::Checking, slot, terms, e);
    assert(r0 =~= seq![Action::Generate(slot)] + r1);
    let end = next(p3, slot, terms, last).0;
    assert(phase_after(p3, slot, terms, e3) == end);
    assert(phase_after(Phase::Testing, slot, terms, e2) == end);
    assert(phase_after(Phase::Generating, slot, terms, e1) == end);
    assert(phase_after(Phase::Checking, slot, terms, e) == end);
    if key_verdict(text@, terms) == Some(true) {
        assert(r0 =~= hit_actions(slot));
    } else {
        assert(r0 =~= miss_actions(slot));
    }
}

/// A worker whose generator yields key texts `misses`, none matching, and then `hit`,
/// which matches, with the signal unset throughout and its claim winning: it runs the
/// generator `misses.len() + 1` times, discards and records each miss once, and
/// delivers its own slot.
pub proof fn lemma_search_run(slot: usize, terms: Seq<String>, misses: Seq<String>, hit: String)
    requires
        forall|i: int| 0 <= i < misses.len() ==> key_verdict((#[trigger] misses[i])@, terms) == Some(false),
        key_verdict(hit@, terms) == Some(true),
    ensures
        run(Phase::Checking, slot, terms, miss_events(misses) + round_events(hit, Event::Claimed(true)))
            == repeated(miss_actions(slot), misses.len()) + hit_actions(slot),
    decreases misses.len(),
{
    lemma_round(slot, terms, hit, Event::Claimed(true));
    if misses.len() == 0 {
        assert(miss_events(misses) + round_events(hit, Event::Claimed(true)) =~= round_events(hit, Event::Claimed(true)));
        assert(repeated(miss_actions(slot), 0) + hit_actions(slot) =~= hit_actions(slot));
    } else {
        let rest = misses.drop_first();
        assert forall|i: int| 0 <= i < rest.len() implies key_verdict((#[trigger] rest[i])@, terms) == Some(false) by {
            assert(rest[i] == misses[i + 1]);
        }
        lemma_search_run(slot, terms, rest, hit);
        assert(key_verdict(misses[0]@, terms) == Some(false));
        lemma_round(slot, terms, misses[0], Event::Recorded);
        let first = round_events(misses[0], Event::Recorded);
        let tail = miss_events(rest) + round_events(hit, Event::Claimed(true));
        assert(miss_events(misses) + round_events(hit, Event::Claimed(true)) =~= first + tail);
        lemma_run_append(Phase::Checking, slot, terms, first, tail);
        assert(repeated(miss_actions(slot), misses.len()) + hit_actions(slot) =~= miss_actions(slot) + (repeated(miss_actions(slot), rest.len()) + hit_actions(slot)));
    }
}

/// A stopped worker asks for nothing but to stay stopped.
pub proof fn lemma_stopped_stays_stopped(slot: usize, terms: Seq<String>, events: Seq<Event>)
    ensures
        run(Phase::Stopped, slot, terms, events) == Seq::new(events.len(), |i: int| Action::Stop),
    decreases events.len(),
{
    if events.len() > 0 {
        lemma_stopped_stays_stopped(slot, terms, events.drop_first());
        assert(run(Phase::Stopped, slot, terms, events) =~= Seq::new(
            events.len(),
            |i: int| Action::Stop,
        ));
    }
}

/// A worker whose public key matches claims the signal, and delivers its own slot
/// when the claim wins.
pub proof fn lemma_match_is_delivered(slot: usize, terms: Seq<String>, text: String)
    requires
        key_verdict(text@, terms) == Some(true),
    ensures
        run(Phase::Testing, slot, terms, seq![Event::PublicKeyRead(text), Event::Claimed(true)])
            == seq![Action::Claim(slot), Action::Deliver(slot)],
{
    let events = seq![Event::PublicKeyRead(text), Event::Claimed(true)];
    assert(events.drop_first() =~= seq![Event::Claimed(true)]);
    assert(events.drop_first().drop_first() =~= Seq::<Event>::empty());
    assert(events[0] == Event::PublicKeyRead(text));
    let tail = run(Phase::Claiming, slot, terms, events.drop_first());
    assert(run(Phase::Stopped, slot, terms, Seq::<Event>::empty()) == Seq::<Action>::empty());
    assert(tail =~= seq![Action::Deliver(slot)]);
    assert(run(Phase::Testing, slot, terms, events) =~= seq![Action::Claim(slot), Action::Deliver(slot)]);
}

} // verus!

use vstd::prelude::*;

verus! {

/// The termination signal: unset until the first worker with a match claims it.
/// Only that first claimant is the winner; later claims change nothing.
#[derive(Clone, Copy, Debug, PartialEq, Eq, Structural)]
pub struct TerminationSignal {
    pub winner: Option<usize>,
}

/// The signal after `slot` claims it, and whether that claim won.
pub open spec fn claim_outcome(winner: Option<usize>, slot: usize) -> (bool, Option<usize>) {
    if winner is None {
        (true, Some(slot))
    } else {
        (false, winner)
    }
}

/// The signal after the given slots claim it in turn.
pub open spec fn after_claims(winner: Option<usize>, slots: Seq<usize>) -> Option<usize>
    decreases slots.len(),
{
    if slots.len() == 0 {
        winner
    } else {
        after_claims(claim_outcome(winner, slots[0]).1, slots.drop_first())
    }
}

/// How many of the claims by the given slots, made in turn, win.
pub open spec fn winning_claims(winner: Option<usize>, slots: Seq<usize>) -> nat
    decreases slots.len(),
{
    if slots.len() == 0 {
        0
    } else {
        let (won, next) = claim_outcome(winner, slots[0]);
        winning_claims(next, slots.drop_first()) + if won {
            1nat
        } else {
            0nat
        }
    }
}

impl TerminationSignal {
    pub fn new() -> (r: TerminationSignal)
        ensures
            r.winner is None,
    {
        TerminationSignal { winner: None }
    }

    /// Whether the search has concluded.
    pub fn is_set(&self) -> (r: bool)
        ensures
            r == self.winner is Some,
    {
        self.winner.is_some()
    }

    /// Claims the signal for `slot`: true exactly when no one had claimed it before.
    /// Once set, the signal stays set with the same winner.
    pub fn claim(&mut self, slot: usize) -> (won: bool)
        ensures
            (won, final(self).winner) == claim_outcome(old(self).winner, slot),
    {
        if self.winner.is_none() {
            self.winner = Some(slot);
            true
        } else {
            false
        }
    }
}

/// Of any sequence of claims on an unset signal, exactly one wins: the first, whose
/// slot the signal then holds for good.
pub proof fn lemma_single_winner(slots: Seq<usize>)
    requires
        slots.len() > 0,
    ensures
        winning_claims(None, slots) == 1,
        after_claims(None, slots) == Some(slots[0]),
{
    lemma_set_stays(slots[0], slots.drop_first());
}

/// A set signal stays set, with the same winner, whoever claims it after.
pub proof fn lemma_set_stays(winner: usize, slots: Seq<usize>)
    ensures
        winning_claims(Some(winner), slots) == 0,
        after_claims(Some(winner), slots) == Some(winner),
    decreases slots.len(),
{
    if slots.len() > 0 {
        lemma_set_stays(winner, slots.drop_first());
    }
}

} // verus!

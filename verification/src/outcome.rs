//! How a round can end, and what each ending does to the balance.

use vstd::prelude::*;

verus! {

/// The stake of every round.
pub const BET: i64 = 25;

/// Who takes the stake.
#[derive(Clone, Copy, Debug, PartialEq, Eq, Hash, Structural)]
pub enum Outcome {
    PlayerWins,
    DealerWins,
    Push,
}

/// The way a round came to its end.
#[derive(Clone, Copy, Debug, PartialEq, Eq, Hash, Structural)]
pub enum Ending {
    /// Both opening hands count twenty-one.
    BothBlackjack,
    /// Only the dealer's opening hand counts twenty-one.
    DealerBlackjack,
    /// Only the player's opening hand counts twenty-one.
    PlayerBlackjack,
    /// The player took a card and went over twenty-one.
    PlayerBust,
    /// The dealer drew and went over twenty-one.
    DealerBust,
    /// Both stood and the player holds more.
    PlayerHigher,
    /// Both stood and the dealer holds more.
    DealerHigher,
    /// Both stood on the same count.
    Tie,
}

impl Outcome {
    /// Change of the balance: the stake won, the stake lost, or nothing.
    /// Every win pays the stake once, a blackjack like any other.
    pub open spec fn delta(self) -> int {
        match self {
            Outcome::PlayerWins => BET as int,
            Outcome::DealerWins => -(BET as int),
            Outcome::Push => 0,
        }
    }

    /// The tag that announces the outcome.
    pub open spec fn spec_tag(self) -> Seq<char> {
        match self {
            Outcome::PlayerWins => "[You win]"@,
            Outcome::DealerWins => "[Dealer wins]"@,
            Outcome::Push => "[Push]"@,
        }
    }

    pub fn tag(self) -> (text: &'static str)
        ensures
            text@ == self.spec_tag(),
    {
        match self {
            Outcome::PlayerWins => "[You win]",
            Outcome::DealerWins => "[Dealer wins]",
            Outcome::Push => "[Push]",
        }
    }
}

impl Ending {
    pub open spec fn spec_outcome(self) -> Outcome {
        match self {
            Ending::BothBlackjack => Outcome::Push,
            Ending::DealerBlackjack => Outcome::DealerWins,
            Ending::PlayerBlackjack => Outcome::PlayerWins,
            Ending::PlayerBust => Outcome::DealerWins,
            Ending::DealerBust => Outcome::PlayerWins,
            Ending::PlayerHigher => Outcome::PlayerWins,
            Ending::DealerHigher => Outcome::DealerWins,
            Ending::Tie => Outcome::Push,
        }
    }

    /// Whether the round ended on a blackjack at the deal.
    pub open spec fn is_blackjack(self) -> bool {
        self == Ending::BothBlackjack || self == Ending::DealerBlackjack || self
            == Ending::PlayerBlackjack
    }

    pub fn outcome(self) -> (outcome: Outcome)
        ensures
            outcome == self.spec_outcome(),
    {
        match self {
            Ending::BothBlackjack | Ending::Tie => Outcome::Push,
            Ending::DealerBlackjack | Ending::PlayerBust | Ending::DealerHigher => {
                Outcome::DealerWins
            },
            Ending::PlayerBlackjack | Ending::DealerBust | Ending::PlayerHigher => {
                Outcome::PlayerWins
            },
        }
    }
}

/// The balance once an outcome is paid.
pub open spec fn settled(balance: int, outcome: Outcome) -> int {
    balance + outcome.delta()
}

/// Whether a balance allows another round.
pub open spec fn funds_left(balance: int) -> bool {
    balance > 0
}

/// The balance after a run of outcomes, paid one after the other.
pub open spec fn settled_all(balance: int, outcomes: Seq<Outcome>) -> int
    decreases outcomes.len(),
{
    if outcomes.len() == 0 {
        balance
    } else {
        settled(settled_all(balance, outcomes.drop_last()), outcomes.last())
    }
}

/// A win adds the stake, a loss takes it, a push changes nothing; no
/// ending pays anything else.
pub proof fn lemma_flat_stakes(balance: int, ending: Ending)
    ensures
        ending.spec_outcome() == Outcome::PlayerWins ==> settled(balance, ending.spec_outcome())
            == balance + 25,
        ending.spec_outcome() == Outcome::DealerWins ==> settled(balance, ending.spec_outcome())
            == balance - 25,
        ending.spec_outcome() == Outcome::Push ==> settled(balance, ending.spec_outcome())
            == balance,
        ending == Ending::PlayerBlackjack ==> settled(balance, ending.spec_outcome()) == balance
            + 25,
{
}

/// A run of losses takes the stake once for each, and the funds are gone
/// exactly when the stakes lost add up to the balance or more. A round
/// that began with funds never leaves more than one stake of debt.
pub proof fn lemma_losses_exhaust_funds(balance: int, outcomes: Seq<Outcome>)
    requires
        forall|i: int| 0 <= i < outcomes.len() ==> outcomes[i] == Outcome::DealerWins,
    ensures
        settled_all(balance, outcomes) == balance - 25 * outcomes.len(),
        funds_left(settled_all(balance, outcomes)) <==> 25 * outcomes.len() < balance,
        outcomes.len() > 0 && funds_left(settled_all(balance, outcomes.drop_last()))
            ==> settled_all(balance, outcomes) > -25,
    decreases outcomes.len(),
{
    if outcomes.len() > 0 {
        lemma_losses_exhaust_funds(balance, outcomes.drop_last());
    }
}

} // verus!

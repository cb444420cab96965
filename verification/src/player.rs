//! The player: a name and a balance that lasts across rounds.

use crate::outcome::{funds_left, settled, Outcome, BET};
use vstd::prelude::*;
use vstd::string::*;

verus! {

/// The balance a player starts a session with.
pub const STARTING_BALANCE: i64 = 100;

/// What a player is: the characters of the name, and the balance.
pub struct PlayerView {
    pub name: Seq<char>,
    pub balance: int,
}

/// The player. The balance is signed: a round that began with funds may
/// leave a debt of less than one stake.
#[derive(Debug)]
pub struct Player {
    name: String,
    balance: i64,
}

impl View for Player {
    type V = PlayerView;

    closed spec fn view(&self) -> PlayerView {
        PlayerView { name: self.name@, balance: self.balance as int }
    }
}

/// Whether paying any outcome keeps the balance within the machine's range.
pub open spec fn can_settle(balance: int) -> bool {
    i64::MIN + BET <= balance <= i64::MAX - BET
}

impl Player {
    pub fn new(name: String, balance: i64) -> (player: Player)
        ensures
            player@ == (PlayerView { name: name@, balance: balance as int }),
    {
        Self { name, balance }
    }

    pub fn name(&self) -> (name: &str)
        ensures
            name@ == self@.name,
    {
        self.name.as_str()
    }

    pub fn balance(&self) -> (balance: i64)
        ensures
            balance == self@.balance,
    {
        self.balance
    }

    /// Whether the balance allows another round.
    pub fn has_funds(&self) -> (yes: bool)
        ensures
            yes == funds_left(self@.balance),
    {
        self.balance > 0
    }

    /// Pays the outcome of a round: the stake won, the stake lost, or
    /// nothing.
    pub fn settle(&mut self, outcome: Outcome)
        requires
            can_settle(old(self)@.balance),
        ensures
            final(self)@.name == old(self)@.name,
            final(self)@.balance == settled(old(self)@.balance, outcome),
    {
        match outcome {
            Outcome::PlayerWins => {
                self.balance += BET;
            },
            Outcome::DealerWins => {
                self.balance -= BET;
            },
            Outcome::Push => {},
        }
    }
}

} // verus!

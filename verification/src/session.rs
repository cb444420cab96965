//! The session: one deck, one player, and the count of hands played.

use crate::card::Card;
use crate::deck::{lemma_distinct_cards_fit, standard_deck, Deck};
use crate::outcome::{funds_left, settled, Outcome};
use crate::player::{can_settle, Player, PlayerView, STARTING_BALANCE};
use vstd::prelude::*;

verus! {

/// What a session is: the cards left in the deck (the top last), the
/// player, and the number of hands dealt so far.
pub struct SessionView {
    pub deck: Seq<Card>,
    pub player: PlayerView,
    pub hands: nat,
}

impl SessionView {
    /// No card is in the deck twice, and the deck has given four cards to
    /// every hand dealt so far: it is never filled up again.
    pub open spec fn valid(self) -> bool {
        &&& self.deck.no_duplicates()
        &&& 4 * self.hands + self.deck.len() <= 52
    }

    /// The session with the top `n` cards gone from the deck.
    pub open spec fn without_top(self, n: int) -> SessionView {
        SessionView { deck: self.deck.take(self.deck.len() - n), ..self }
    }

    /// The session with an outcome paid.
    pub open spec fn paid(self, outcome: Outcome) -> SessionView {
        SessionView {
            player: PlayerView { balance: settled(self.player.balance, outcome), ..self.player },
            ..self
        }
    }

    /// The session with one more hand counted.
    pub open spec fn counted(self) -> SessionView {
        SessionView { hands: self.hands + 1, ..self }
    }
}

/// The state that outlives a round. It is handed to each step of a round.
#[derive(Debug)]
pub struct Session {
    deck: Deck,
    player: Player,
    hand_count: u16,
}

impl View for Session {
    type V = SessionView;

    closed spec fn view(&self) -> SessionView {
        SessionView { deck: self.deck@, player: self.player@, hands: self.hand_count as nat }
    }
}

impl Session {
    pub open spec fn wf(&self) -> bool {
        self@.valid()
    }

    /// A session of the given player at the given deck, with no hand dealt.
    pub fn new(player: Player, deck: Deck) -> (session: Session)
        requires
            deck.wf(),
        ensures
            session.wf(),
            session@ == (SessionView { deck: deck@, player: player@, hands: 0 }),
    {
        proof {
            lemma_distinct_cards_fit(deck@);
        }
        Self { deck, player, hand_count: 0 }
    }

    /// A session as play begins: a freshly shuffled full deck, and the
    /// named player with the starting balance.
    pub fn begin(name: String) -> (session: Session)
        ensures
            session.wf(),
            session@.player == (PlayerView { name: name@, balance: STARTING_BALANCE as int }),
            session@.hands == 0,
            session@.deck.len() == 52,
            session@.deck.to_multiset() == standard_deck().to_multiset(),
    {
        Self::new(Player::new(name, STARTING_BALANCE), Deck::new())
    }

    pub fn player(&self) -> (player: &Player)
        ensures
            player@ == self@.player,
    {
        &self.player
    }

    pub fn balance(&self) -> (balance: i64)
        ensures
            balance == self@.player.balance,
    {
        self.player.balance()
    }

    /// Number of hands dealt so far.
    pub fn hand_count(&self) -> (count: u16)
        ensures
            count == self@.hands,
    {
        self.hand_count
    }

    /// Number of cards left in the deck.
    pub fn cards_left(&self) -> (count: usize)
        ensures
            count == self@.deck.len(),
    {
        self.deck.len()
    }

    /// Whether the player can pay for another round.
    pub fn has_funds(&self) -> (yes: bool)
        ensures
            yes == funds_left(self@.player.balance),
    {
        self.player.has_funds()
    }

    /// Takes the top card off the deck, if there is one.
    pub(crate) fn draw(&mut self) -> (card: Option<Card>)
        requires
            old(self).wf(),
        ensures
            final(self).wf(),
            old(self)@.deck.len() == 0 ==> card is None && final(self)@ == old(self)@,
            old(self)@.deck.len() > 0 ==> card == Some(old(self)@.deck.last()) && final(self)@
                == old(self)@.without_top(1),
    {
        let card = self.deck.draw();
        proof {
            let before = old(self)@.deck;
            if before.len() > 0 {
                assert(before.drop_last() =~= before.take(before.len() - 1));
            }
        }
        card
    }

    /// Pays the outcome of a round to the player.
    pub(crate) fn settle(&mut self, outcome: Outcome)
        requires
            old(self).wf(),
            can_settle(old(self)@.player.balance),
        ensures
            final(self).wf(),
            final(self)@ == old(self)@.paid(outcome),
    {
        self.player.settle(outcome);
    }

    /// Counts a hand for which four cards have left the deck.
    pub(crate) fn count_hand(&mut self)
        requires
            old(self).wf(),
            4 * (old(self)@.hands + 1) + old(self)@.deck.len() <= 52,
        ensures
            final(self).wf(),
            final(self)@ == old(self)@.counted(),
    {
        self.hand_count += 1;
    }
}

} // verus!

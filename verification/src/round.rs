//! One round: the deal, the blackjack check, the player's moves, the
//! dealer's fixed policy, and the payout.

use crate::card::Card;
use crate::hand::{hand_value, lemma_raw_sum_push, lemma_value_bounds, raw_sum, Hand};
use crate::outcome::{funds_left, settled, Ending, Outcome, BET};
use crate::session::{Session, SessionView};
use vstd::prelude::*;

verus! {

/// The count over which a hand is bust, and which makes a two-card hand a
/// blackjack.
pub const TWENTY_ONE: u16 = 21;

/// The count from which the dealer draws no more.
pub const DEALER_STANDS_AT: u16 = 17;

/// A move of the player.
#[derive(Clone, Copy, Debug, PartialEq, Eq, Hash, Structural)]
pub enum Choice {
    Hit,
    Stand,
}

/// Where a round stands.
#[derive(Clone, Copy, Debug, PartialEq, Eq, Hash, Structural)]
pub enum Phase {
    /// The player is to move.
    PlayerTurn,
    /// The round is over and paid.
    Done(Ending),
}

/// Why a step of a round was refused.
#[derive(Clone, Copy, Debug, PartialEq, Eq, Hash, Structural)]
pub enum GameError {
    /// The player has no funds: no round is dealt.
    OutOfFunds,
    /// The deck has no card left where one was needed.
    DeckExhausted,
    /// The round is over: there is no move to make.
    RoundOver,
}

/// What a round is: the two hands in the order dealt, and the phase.
pub struct RoundView {
    pub dealer: Seq<Card>,
    pub player: Seq<Card>,
    pub phase: Phase,
}

/// What the opening hands decide before anyone moves: a hand of
/// twenty-one ends the round at once.
pub open spec fn opening(dealer: Seq<Card>, player: Seq<Card>) -> Phase {
    if hand_value(dealer) == TWENTY_ONE {
        if hand_value(player) == TWENTY_ONE {
            Phase::Done(Ending::BothBlackjack)
        } else {
            Phase::Done(Ending::DealerBlackjack)
        }
    } else if hand_value(player) == TWENTY_ONE {
        Phase::Done(Ending::PlayerBlackjack)
    } else {
        Phase::PlayerTurn
    }
}

/// How the hands compare once the dealer has drawn.
pub open spec fn showdown(dealer: Seq<Card>, player: Seq<Card>) -> Ending {
    if hand_value(dealer) > TWENTY_ONE {
        Ending::DealerBust
    } else if hand_value(player) > hand_value(dealer) {
        Ending::PlayerHigher
    } else if hand_value(player) < hand_value(dealer) {
        Ending::DealerHigher
    } else {
        Ending::Tie
    }
}

/// The dealer's policy: as long as the hand counts under seventeen and
/// the deck has a card, take the top card. Gives the hand and the deck as
/// the dealer leaves them.
pub open spec fn dealer_plays(hand: Seq<Card>, deck: Seq<Card>) -> (Seq<Card>, Seq<Card>)
    decreases deck.len(),
{
    if hand_value(hand) >= DEALER_STANDS_AT || deck.len() == 0 {
        (hand, deck)
    } else {
        dealer_plays(hand.push(deck.last()), deck.drop_last())
    }
}

/// The session once a round has reached the given phase: an ending is
/// paid, a round in play is not.
pub open spec fn paid_for(table: SessionView, phase: Phase) -> SessionView {
    match phase {
        Phase::PlayerTurn => table,
        Phase::Done(ending) => table.paid(ending.spec_outcome()),
    }
}

/// The deal: two cards to the dealer, two to the player, the top of the deck
/// first, and the blackjack check. No round is dealt to a player without
/// funds, nor from a deck of fewer than four cards.
pub open spec fn deal(table: SessionView) -> (SessionView, Result<RoundView, GameError>) {
    let n = table.deck.len() as int;
    if !funds_left(table.player.balance) {
        (table, Err(GameError::OutOfFunds))
    } else if n < 4 {
        (table, Err(GameError::DeckExhausted))
    } else {
        let dealer = seq![table.deck[n - 1], table.deck[n - 2]];
        let player = seq![table.deck[n - 3], table.deck[n - 4]];
        let phase = opening(dealer, player);
        (
            paid_for(table.without_top(4).counted(), phase),
            Ok(RoundView { dealer, player, phase }),
        )
    }
}

/// The player takes the top card and is bust over twenty-one; at
/// twenty-one or under the round stays in play.
pub open spec fn hit(table: SessionView, round: RoundView) -> (
    SessionView,
    RoundView,
    Result<(), GameError>,
) {
    if round.phase != Phase::PlayerTurn {
        (table, round, Err(GameError::RoundOver))
    } else if !funds_left(table.player.balance) {
        (table, round, Err(GameError::OutOfFunds))
    } else if table.deck.len() == 0 {
        (table, round, Err(GameError::DeckExhausted))
    } else {
        let player = round.player.push(table.deck.last());
        let phase = if hand_value(player) > TWENTY_ONE {
            Phase::Done(Ending::PlayerBust)
        } else {
            Phase::PlayerTurn
        };
        (paid_for(table.without_top(1), phase), RoundView { player, phase, ..round }, Ok(()))
    }
}

/// The player stands: the dealer plays, the hands are compared and the
/// round is paid. Where the deck runs out under the dealer, the cards
/// drawn stay drawn and the round stays unpaid.
pub open spec fn stand(table: SessionView, round: RoundView) -> (
    SessionView,
    RoundView,
    Result<(), GameError>,
) {
    if round.phase != Phase::PlayerTurn {
        (table, round, Err(GameError::RoundOver))
    } else if !funds_left(table.player.balance) {
        (table, round, Err(GameError::OutOfFunds))
    } else {
        let (dealer, deck) = dealer_plays(round.dealer, table.deck);
        let drawn = SessionView { deck, ..table };
        if hand_value(dealer) < DEALER_STANDS_AT {
            (drawn, RoundView { dealer, ..round }, Err(GameError::DeckExhausted))
        } else {
            let phase = Phase::Done(showdown(dealer, round.player));
            (paid_for(drawn, phase), RoundView { dealer, phase, ..round }, Ok(()))
        }
    }
}

/// One move of the player.
pub open spec fn play(table: SessionView, round: RoundView, choice: Choice) -> (
    SessionView,
    RoundView,
    Result<(), GameError>,
) {
    match choice {
        Choice::Hit => hit(table, round),
        Choice::Stand => stand(table, round),
    }
}

impl RoundView {
    /// The phase fits the hands: a round in play has a player who is not
    /// bust; a blackjack ending is what two-card opening hands decided;
    /// a bust player holds over twenty-one; any other ending is the
    /// showdown of a player who is not bust with a dealer who has drawn to
    /// seventeen or more.
    pub open spec fn valid(self) -> bool {
        match self.phase {
            Phase::PlayerTurn => hand_value(self.player) <= TWENTY_ONE,
            Phase::Done(ending) => if ending.is_blackjack() {
                &&& self.dealer.len() == 2
                &&& self.player.len() == 2
                &&& opening(self.dealer, self.player) == self.phase
            } else if ending == Ending::PlayerBust {
                hand_value(self.player) > TWENTY_ONE
            } else {
                &&& hand_value(self.player) <= TWENTY_ONE
                &&& hand_value(self.dealer) >= DEALER_STANDS_AT
                &&& showdown(self.dealer, self.player) == ending
            },
        }
    }
}

/// The hands and the phase of a round in progress or just over.
#[derive(Debug)]
pub struct Round {
    dealer_hand: Hand,
    player_hand: Hand,
    phase: Phase,
}

impl View for Round {
    type V = RoundView;

    closed spec fn view(&self) -> RoundView {
        RoundView { dealer: self.dealer_hand@, player: self.player_hand@, phase: self.phase }
    }
}

/// Two cards never count over twenty-one.
proof fn lemma_two_cards(cards: Seq<Card>)
    requires
        cards.len() == 2,
    ensures
        hand_value(cards) <= TWENTY_ONE,
{
    let first = seq![cards[0]];
    assert(first.drop_last() =~= Seq::<Card>::empty());
    assert(cards =~= first.push(cards[1]));
    lemma_raw_sum_push(Seq::<Card>::empty(), cards[0]);
    assert(Seq::<Card>::empty().push(cards[0]) =~= first);
    lemma_raw_sum_push(first, cards[1]);
    if raw_sum(cards) > 21 {
        assert(cards[0].is_ace());
    }
}

impl Round {
    /// Both hands carry their true worth.
    pub closed spec fn hands_wf(&self) -> bool {
        self.dealer_hand.wf() && self.player_hand.wf()
    }

    pub open spec fn wf(&self) -> bool {
        self.hands_wf() && self@.valid()
    }

    pub fn dealer_hand(&self) -> (hand: &Hand)
        requires
            self.wf(),
        ensures
            hand.wf(),
            hand@ == self@.dealer,
    {
        &self.dealer_hand
    }

    pub fn player_hand(&self) -> (hand: &Hand)
        requires
            self.wf(),
        ensures
            hand.wf(),
            hand@ == self@.player,
    {
        &self.player_hand
    }

    pub fn phase(&self) -> (phase: Phase)
        ensures
            phase == self@.phase,
    {
        self.phase
    }
}

/// Deals the top card of the deck to `hand`, if there is one.
fn deal_card(session: &mut Session, hand: &mut Hand) -> (dealt: bool)
    requires
        old(session).wf(),
        old(hand).wf(),
        raw_sum(old(hand)@) + 11 <= u16::MAX,
    ensures
        final(session).wf(),
        final(hand).wf(),
        dealt == (old(session)@.deck.len() > 0),
        dealt ==> final(hand)@ == old(hand)@.push(old(session)@.deck.last()) && final(session)@
            == old(session)@.without_top(1),
        !dealt ==> final(hand)@ == old(hand)@ && final(session)@ == old(session)@,
{
    match session.draw() {
        Some(card) => {
            hand.add_card(card);
            true
        },
        None => false,
    }
}

/// Starts a round: deals two cards to the dealer and two to the player,
/// and ends the round at once on a blackjack.
pub fn start_hand(session: &mut Session) -> (result: Result<Round, GameError>)
    requires
        old(session).wf(),
        old(session)@.player.balance <= i64::MAX - BET,
    ensures
        final(session).wf(),
        match deal(old(session)@) {
            (table, Ok(opened)) => final(session)@ == table && (result matches Ok(round)
                && round@ == opened && round.wf()),
            (table, Err(error)) => final(session)@ == table && result == Err::<Round, GameError>(
                error,
            ),
        },
{
    if !session.has_funds() {
        return Err(GameError::OutOfFunds);
    }
    if session.cards_left() < 4 {
        return Err(GameError::DeckExhausted);
    }
    let ghost deck = session@.deck;
    let ghost n = deck.len() as int;
    let mut dealer_hand = Hand::new();
    let mut player_hand = Hand::new();
    proof {
        lemma_value_bounds(dealer_hand@);
    }
    deal_card(session, &mut dealer_hand);
    proof {
        lemma_value_bounds(dealer_hand@);
    }
    deal_card(session, &mut dealer_hand);
    deal_card(session, &mut player_hand);
    proof {
        lemma_value_bounds(player_hand@);
    }
    deal_card(session, &mut player_hand);
    proof {
        assert(dealer_hand@ =~= seq![deck[n - 1], deck[n - 2]]);
        assert(player_hand@ =~= seq![deck[n - 3], deck[n - 4]]);
        assert(session@.deck =~= deck.take(n - 4));
        lemma_two_cards(dealer_hand@);
        lemma_two_cards(player_hand@);
    }
    session.count_hand();
    let phase = if dealer_hand.value() == TWENTY_ONE {
        if player_hand.value() == TWENTY_ONE {
            Phase::Done(Ending::BothBlackjack)
        } else {
            Phase::Done(Ending::DealerBlackjack)
        }
    } else if player_hand.value() == TWENTY_ONE {
        Phase::Done(Ending::PlayerBlackjack)
    } else {
        Phase::PlayerTurn
    };
    match phase {
        Phase::Done(ending) => {
            session.settle(ending.outcome());
        },
        Phase::PlayerTurn => {},
    }
    Ok(Round { dealer_hand, player_hand, phase })
}

/// Makes one move of the player: a hit deals one card and ends the round
/// where the player is bust; a stand hands the round to the dealer.
pub fn player_turn(session: &mut Session, round: &mut Round, choice: Choice) -> (result: Result<
    (),
    GameError,
>)
    requires
        old(session).wf(),
        old(round).wf(),
        old(session)@.player.balance <= i64::MAX - BET,
    ensures
        final(session).wf(),
        final(round).wf(),
        (final(session)@, final(round)@, result) == play(old(session)@, old(round)@, choice),
{
    match choice {
        Choice::Stand => finalize_hand(session, round),
        Choice::Hit => {
            match round.phase {
                Phase::Done(_) => {
                    return Err(GameError::RoundOver);
                },
                Phase::PlayerTurn => {},
            }
            if !session.has_funds() {
                return Err(GameError::OutOfFunds);
            }
            proof {
                lemma_value_bounds(round.player_hand@);
            }
            if !deal_card(session, &mut round.player_hand) {
                return Err(GameError::DeckExhausted);
            }
            if round.player_hand.value() > TWENTY_ONE {
                session.settle(Outcome::DealerWins);
                round.phase = Phase::Done(Ending::PlayerBust);
            }
            Ok(())
        },
    }
}

/// Plays the dealer's hand and settles the round: the dealer draws until
/// the hand counts seventeen or more, and the hands are compared.
pub fn finalize_hand(session: &mut Session, round: &mut Round) -> (result: Result<(), GameError>)
    requires
        old(session).wf(),
        old(round).wf(),
        old(session)@.player.balance <= i64::MAX - BET,
    ensures
        final(session).wf(),
        final(round).wf(),
        (final(session)@, final(round)@, result) == stand(old(session)@, old(round)@),
{
    match round.phase {
        Phase::Done(_) => {
            return Err(GameError::RoundOver);
        },
        Phase::PlayerTurn => {},
    }
    if !session.has_funds() {
        return Err(GameError::OutOfFunds);
    }
    while round.dealer_hand.value() < DEALER_STANDS_AT
        invariant
            session.wf(),
            round.hands_wf(),
            round@.player == old(round)@.player,
            round@.phase == Phase::PlayerTurn,
            old(round)@.phase == Phase::PlayerTurn,
            hand_value(round@.player) <= TWENTY_ONE,
            session@.player == old(session)@.player,
            funds_left(session@.player.balance),
            session@.player.balance <= i64::MAX - BET,
            session@.hands == old(session)@.hands,
            dealer_plays(round@.dealer, session@.deck) == dealer_plays(
                old(round)@.dealer,
                old(session)@.deck,
            ),
        decreases session@.deck.len(),
    {
        proof {
            lemma_value_bounds(round.dealer_hand@);
            let deck = session@.deck;
            if deck.len() > 0 {
                assert(deck.drop_last() =~= deck.take(deck.len() - 1));
            }
        }
        if !deal_card(session, &mut round.dealer_hand) {
            return Err(GameError::DeckExhausted);
        }
    }
    let dealer = round.dealer_hand.value();
    let player = round.player_hand.value();
    let ending = if dealer > TWENTY_ONE {
        Ending::DealerBust
    } else if player > dealer {
        Ending::PlayerHigher
    } else if player < dealer {
        Ending::DealerHigher
    } else {
        Ending::Tie
    };
    session.settle(ending.outcome());
    round.phase = Phase::Done(ending);
    Ok(())
}

/// The dealer draws exactly until the hand counts seventeen or more: the
/// cards drawn are the top cards of the deck in their order, each was drawn
/// on a count under seventeen, and the dealer stops on seventeen or more,
/// or on an empty deck. A dealer at seventeen or more draws nothing; one
/// under seventeen with a card to draw draws at least one.
pub proof fn lemma_dealer_draws_to_seventeen(hand: Seq<Card>, deck: Seq<Card>)
    ensures
        ({
            let (end_hand, end_deck) = dealer_plays(hand, deck);
            let drawn = end_hand.len() - hand.len();
            &&& hand_value(end_hand) >= DEALER_STANDS_AT || end_deck.len() == 0
            &&& 0 <= drawn <= deck.len()
            &&& end_deck == deck.take(deck.len() - drawn)
            &&& end_hand.take(hand.len() as int) == hand
            &&& forall|k: int|
                0 <= k < drawn ==> #[trigger] end_hand[hand.len() + k] == deck[deck.len() - 1 - k]
            &&& forall|k: int|
                0 <= k < drawn ==> hand_value(#[trigger] end_hand.take(hand.len() + k))
                    < DEALER_STANDS_AT
            &&& hand_value(hand) >= DEALER_STANDS_AT ==> drawn == 0
            &&& hand_value(hand) < DEALER_STANDS_AT && deck.len() > 0 ==> drawn >= 1
        }),
    decreases deck.len(),
{
    let (end_hand, end_deck) = dealer_plays(hand, deck);
    if hand_value(hand) >= DEALER_STANDS_AT || deck.len() == 0 {
        assert(deck.take(deck.len() as int) =~= deck);
        assert(hand.take(hand.len() as int) =~= hand);
    } else {
        let next_hand = hand.push(deck.last());
        let next_deck = deck.drop_last();
        lemma_dealer_draws_to_seventeen(next_hand, next_deck);
        let drawn = end_hand.len() - hand.len();
        assert(end_deck =~= deck.take(deck.len() - drawn));
        assert(end_hand.take(next_hand.len() as int) == next_hand);
        assert(end_hand.take(hand.len() as int) =~= hand) by {
            assert(end_hand.take(hand.len() as int) =~= end_hand.take(next_hand.len() as int).take(
                hand.len() as int,
            ));
            assert(next_hand.take(hand.len() as int) =~= hand);
        }
        assert forall|k: int| 0 <= k < drawn implies #[trigger] end_hand[hand.len() + k]
            == deck[deck.len() - 1 - k] by {
            if k == 0 {
                assert(end_hand[hand.len() as int] == end_hand.take(next_hand.len() as int)[hand.len() as int]);
            } else {
                assert(end_hand[next_hand.len() + (k - 1)] == next_deck[next_deck.len() - 1 - (k
                    - 1)]);
            }
        }
        assert forall|k: int| 0 <= k < drawn implies hand_value(
            #[trigger] end_hand.take(hand.len() + k),
        ) < DEALER_STANDS_AT by {
            if k > 0 {
                assert(end_hand.take(hand.len() + k) == end_hand.take(next_hand.len() + (k - 1)));
            }
        }
    }
}

/// A round ends on a blackjack at the deal and nowhere else. The deal ends
/// the round exactly when one of the two-card hands counts twenty-one, and
/// on a blackjack ending. No move ends a round in play on a blackjack:
/// twenty-one reached by a hit keeps the round in play, to be settled at
/// the showdown like any other count. So a round that ended on a
/// blackjack holds two cards in each hand.
pub proof fn lemma_blackjack_only_at_deal(table: SessionView, round: RoundView, choice: Choice)
    requires
        round.valid(),
    ensures
        deal(table).1 matches Ok(opened) ==> {
            &&& opened.valid()
            &&& opened.dealer.len() == 2
            &&& opened.player.len() == 2
            &&& opened.phase is Done <==> hand_value(opened.dealer) == TWENTY_ONE || hand_value(
                opened.player,
            ) == TWENTY_ONE
            &&& opened.phase matches Phase::Done(ending) ==> ending.is_blackjack()
        },
        round.phase == Phase::PlayerTurn ==> {
            &&& play(table, round, choice).1.valid()
            &&& play(table, round, choice).1.phase matches Phase::Done(ending)
                ==> !ending.is_blackjack()
        },
        hit(table, round).2 is Ok && hand_value(hit(table, round).1.player) == TWENTY_ONE ==> hit(
            table,
            round,
        ).1.phase == Phase::PlayerTurn,
        round.phase matches Phase::Done(ending) && ending.is_blackjack() ==> round.dealer.len()
            == 2 && round.player.len() == 2,
        round.phase matches Phase::Done(_) ==> play(table, round, choice) == (
            table,
            round,
            Err::<(), GameError>(GameError::RoundOver),
        ),
{
    if deal(table).1 is Ok {
        let opened = deal(table).1->Ok_0;
        lemma_two_cards(opened.dealer);
        lemma_two_cards(opened.player);
    }
    if round.phase == Phase::PlayerTurn {
        lemma_dealer_draws_to_seventeen(round.dealer, table.deck);
    }
}

/// Every step pays the stake once or not at all: the balance moves by what
/// the ending of the round is worth when the step ends the round, and
/// stays as it is otherwise; the name, and in a move the count of hands,
/// stay. A step never starts from a balance without funds, so the balance
/// never falls to a whole stake of debt.
pub proof fn lemma_steps_pay_the_stake(table: SessionView, round: RoundView, choice: Choice)
    ensures
        deal(table).0.player.name == table.player.name,
        deal(table).0.player.balance == match deal(table).1 {
            Ok(opened) => match opened.phase {
                Phase::Done(ending) => settled(table.player.balance, ending.spec_outcome()),
                Phase::PlayerTurn => table.player.balance,
            },
            Err(_) => table.player.balance,
        },
        !funds_left(table.player.balance) ==> deal(table) == (
            table,
            Err::<RoundView, GameError>(GameError::OutOfFunds),
        ),
        play(table, round, choice).0.player.name == table.player.name,
        play(table, round, choice).0.hands == table.hands,
        play(table, round, choice).0.player.balance == match play(table, round, choice).1.phase {
            Phase::Done(ending) if round.phase == Phase::PlayerTurn => settled(
                table.player.balance,
                ending.spec_outcome(),
            ),
            _ => table.player.balance,
        },
        funds_left(table.player.balance) ==> deal(table).0.player.balance > -BET && play(
            table,
            round,
            choice,
        ).0.player.balance > -BET,
{
}

} // verus!

use blackjack::card::{Card, Rank, Suit};
use blackjack::hand::Hand;

fn hand_of(cards: &[Card]) -> Hand {
    let mut hand = Hand::new();
    for card in cards {
        hand.add_card(*card);
    }
    hand
}

#[test]
fn an_empty_hand_counts_nothing() {
    let hand = Hand::new();
    assert_eq!(hand.len(), 0);
    assert_eq!(hand.value(), 0);
    assert_eq!(hand.display_hand(false), "[]");
}

#[test]
fn ace_and_king_count_twenty_one() {
    let hand = hand_of(&[Card::new(Rank::Ace, Suit::Hearts), Card::new(Rank::King, Suit::Spades)]);
    assert_eq!(hand.value(), 21);
}

#[test]
fn ace_nine_five_count_fifteen() {
    let hand = hand_of(&[
        Card::new(Rank::Ace, Suit::Hearts),
        Card::new(Rank::Nine, Suit::Clubs),
        Card::new(Rank::Five, Suit::Diamonds),
    ]);
    assert_eq!(hand.value(), 15);
}

#[test]
fn the_worth_follows_each_card_added() {
    let mut hand = Hand::new();
    hand.add_card(Card::new(Rank::Nine, Suit::Clubs));
    assert_eq!(hand.value(), 9);
    hand.add_card(Card::new(Rank::Ace, Suit::Clubs));
    assert_eq!(hand.value(), 20);
    hand.add_card(Card::new(Rank::Five, Suit::Clubs));
    assert_eq!(hand.value(), 15);
    hand.add_card(Card::new(Rank::Seven, Suit::Clubs));
    assert_eq!(hand.value(), 22);
    assert_eq!(hand.len(), 4);
}

#[test]
fn without_an_ace_nothing_is_taken_off() {
    let hand = hand_of(&[
        Card::new(Rank::King, Suit::Hearts),
        Card::new(Rank::Queen, Suit::Clubs),
        Card::new(Rank::Five, Suit::Diamonds),
    ]);
    assert_eq!(hand.value(), 25);
}

#[test]
fn an_ace_at_twenty_one_or_under_stays_eleven() {
    let hand = hand_of(&[
        Card::new(Rank::Ace, Suit::Hearts),
        Card::new(Rank::Four, Suit::Clubs),
        Card::new(Rank::Six, Suit::Diamonds),
    ]);
    assert_eq!(hand.value(), 21);
}

#[test]
fn only_one_ace_is_ever_lowered() {
    let two = hand_of(&[Card::new(Rank::Ace, Suit::Hearts), Card::new(Rank::Ace, Suit::Spades)]);
    assert_eq!(two.value(), 12);
    let three = hand_of(&[
        Card::new(Rank::Ace, Suit::Hearts),
        Card::new(Rank::Ace, Suit::Spades),
        Card::new(Rank::King, Suit::Spades),
    ]);
    assert_eq!(three.value(), 22);
}

#[test]
fn the_cards_stay_in_the_order_added() {
    let cards = [
        Card::new(Rank::Ten, Suit::Spades),
        Card::new(Rank::Ace, Suit::Hearts),
        Card::new(Rank::Three, Suit::Clubs),
    ];
    let hand = hand_of(&cards);
    assert_eq!(hand.len(), 3);
    for i in 0..3 {
        assert_eq!(hand.card(i), cards[i]);
    }
}

#[test]
fn a_player_hand_shows_every_card() {
    let hand = hand_of(&[Card::new(Rank::Ten, Suit::Spades), Card::new(Rank::Ace, Suit::Hearts)]);
    assert_eq!(hand.display_hand(false), "[10♠, A♥]");
}

#[test]
fn a_dealer_hand_hides_the_first_card() {
    let hand = hand_of(&[Card::new(Rank::Ten, Suit::Spades), Card::new(Rank::Ace, Suit::Hearts)]);
    assert_eq!(hand.display_hand(true), "[A♥]");
    let longer = hand_of(&[
        Card::new(Rank::Ten, Suit::Spades),
        Card::new(Rank::Two, Suit::Hearts),
        Card::new(Rank::Jack, Suit::Diamonds),
    ]);
    assert_eq!(longer.display_hand(true), "[2♥, J♦]");
    assert_eq!(longer.display_hand(false), "[10♠, 2♥, J♦]");
}

#[test]
fn a_dealer_hand_of_one_card_shows_nothing() {
    let hand = hand_of(&[Card::new(Rank::Ten, Suit::Spades)]);
    assert_eq!(hand.display_hand(true), "[]");
    assert_eq!(hand.display_hand(false), "[10♠]");
}

#[test]
fn a_full_deck_in_one_hand_counts_all_its_points() {
    let mut hand = Hand::new();
    for suit in Suit::all() {
        for rank in Rank::all() {
            hand.add_card(Card::new(rank, suit));
        }
    }
    assert_eq!(hand.len(), 52);
    assert_eq!(hand.value(), 4 * 95 - 10);
}

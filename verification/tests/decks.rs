use blackjack::card::{Card, Rank, Suit};
use blackjack::deck::Deck;

fn drain(mut deck: Deck) -> Vec<Card> {
    let mut cards = Vec::new();
    while let Some(card) = deck.draw() {
        cards.push(card);
    }
    cards
}

#[test]
fn a_new_deck_holds_every_card_once() {
    let deck = Deck::new();
    assert_eq!(deck.len(), 52);
    let cards = drain(deck);
    assert_eq!(cards.len(), 52);
    for suit in Suit::all() {
        for rank in Rank::all() {
            let wanted = Card::new(rank, suit);
            let found = cards.iter().filter(|card| **card == wanted).count();
            assert_eq!(found, 1);
        }
    }
}

#[test]
fn a_new_deck_counts_the_points_of_a_full_deck() {
    let cards = drain(Deck::new());
    let total: u32 = cards.iter().map(|card| u32::from(card.value())).sum();
    // per suit: 2 + .. + 10 is 54, three face cards 30, the ace 11
    assert_eq!(total, 4 * 95);
    let aces = cards.iter().filter(|card| card.value() == 11).count();
    assert_eq!(aces, 4);
    let tens = cards.iter().filter(|card| card.value() == 10).count();
    assert_eq!(tens, 16);
}

#[test]
fn a_hundred_new_decks_are_not_all_in_one_order() {
    let first = drain(Deck::new());
    let mut differing = 0;
    for _ in 0..99 {
        let next = drain(Deck::new());
        assert_eq!(next.len(), 52);
        if next != first {
            differing += 1;
        }
    }
    assert!(differing > 0);
}

#[test]
fn a_new_deck_is_not_in_the_order_of_its_layout() {
    // the chance of a shuffle that changes nothing, five times running, is nil
    let mut laid_out = Vec::new();
    for suit in Suit::all() {
        for rank in Rank::all() {
            laid_out.push(Card::new(rank, suit));
        }
    }
    laid_out.reverse();
    let mut moved = false;
    for _ in 0..5 {
        if drain(Deck::new()) != laid_out {
            moved = true;
        }
    }
    assert!(moved);
}

#[test]
fn drawing_takes_the_last_card_given() {
    let cards = vec![
        Card::new(Rank::Two, Suit::Hearts),
        Card::new(Rank::King, Suit::Clubs),
        Card::new(Rank::Ace, Suit::Spades),
    ];
    let mut deck = Deck::from_cards(cards).unwrap();
    assert_eq!(deck.len(), 3);
    assert_eq!(deck.draw(), Some(Card::new(Rank::Ace, Suit::Spades)));
    assert_eq!(deck.len(), 2);
    assert_eq!(deck.draw(), Some(Card::new(Rank::King, Suit::Clubs)));
    assert_eq!(deck.len(), 1);
    assert_eq!(deck.draw(), Some(Card::new(Rank::Two, Suit::Hearts)));
    assert_eq!(deck.len(), 0);
}

#[test]
fn an_empty_deck_gives_no_card() {
    let mut deck = Deck::from_cards(Vec::new()).unwrap();
    assert_eq!(deck.len(), 0);
    assert_eq!(deck.draw(), None);
    assert_eq!(deck.draw(), None);
    assert_eq!(deck.len(), 0);
}

#[test]
fn a_new_deck_is_empty_after_fifty_two_draws() {
    let mut deck = Deck::new();
    for left in (0..52).rev() {
        assert!(deck.draw().is_some());
        assert_eq!(deck.len(), left);
    }
    assert_eq!(deck.draw(), None);
}

#[test]
fn a_card_given_twice_makes_no_deck() {
    let cards = vec![
        Card::new(Rank::Two, Suit::Hearts),
        Card::new(Rank::King, Suit::Clubs),
        Card::new(Rank::Two, Suit::Hearts),
    ];
    assert!(Deck::from_cards(cards).is_none());
    let twins = vec![Card::new(Rank::Ace, Suit::Spades), Card::new(Rank::Ace, Suit::Spades)];
    assert!(Deck::from_cards(twins).is_none());
}

#[test]
fn cards_of_one_rank_in_different_suits_make_a_deck() {
    let cards = vec![
        Card::new(Rank::Two, Suit::Hearts),
        Card::new(Rank::Two, Suit::Clubs),
        Card::new(Rank::Three, Suit::Hearts),
    ];
    assert!(Deck::from_cards(cards).is_some());
}

#[test]
fn fifty_three_cards_make_no_deck() {
    let mut cards = Vec::new();
    for suit in Suit::all() {
        for rank in Rank::all() {
            cards.push(Card::new(rank, suit));
        }
    }
    assert!(Deck::from_cards(cards.clone()).is_some());
    cards.push(Card::new(Rank::Five, Suit::Diamonds));
    assert!(Deck::from_cards(cards).is_none());
}

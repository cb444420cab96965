use blackjack::card::{Card, Rank, Suit};

#[test]
fn pip_cards_count_their_number() {
    let expected: [(Rank, u16); 9] = [
        (Rank::Two, 2),
        (Rank::Three, 3),
        (Rank::Four, 4),
        (Rank::Five, 5),
        (Rank::Six, 6),
        (Rank::Seven, 7),
        (Rank::Eight, 8),
        (Rank::Nine, 9),
        (Rank::Ten, 10),
    ];
    for (rank, points) in expected {
        assert_eq!(rank.value(), points);
        assert_eq!(Card::new(rank, Suit::Clubs).value(), points);
    }
}

#[test]
fn face_cards_count_ten_and_the_ace_eleven() {
    assert_eq!(Rank::Jack.value(), 10);
    assert_eq!(Rank::Queen.value(), 10);
    assert_eq!(Rank::King.value(), 10);
    assert_eq!(Rank::Ace.value(), 11);
    for suit in Suit::all() {
        assert_eq!(Card::new(Rank::King, suit).value(), 10);
        assert_eq!(Card::new(Rank::Ace, suit).value(), 11);
    }
}

#[test]
fn there_are_four_suits_and_thirteen_ranks() {
    let suits = Suit::all();
    let ranks = Rank::all();
    assert_eq!(suits.len(), 4);
    assert_eq!(ranks.len(), 13);
    for i in 0..suits.len() {
        for j in 0..i {
            assert_ne!(suits[i], suits[j]);
        }
    }
    for i in 0..ranks.len() {
        for j in 0..i {
            assert_ne!(ranks[i], ranks[j]);
        }
    }
    assert_eq!(suits, [Suit::Hearts, Suit::Diamonds, Suit::Clubs, Suit::Spades]);
    assert_eq!(ranks[0], Rank::Two);
    assert_eq!(ranks[8], Rank::Ten);
    assert_eq!(ranks[12], Rank::Ace);
}

#[test]
fn labels_are_digits_or_one_letter() {
    let labels: Vec<&str> = Rank::all().iter().map(|rank| rank.label()).collect();
    assert_eq!(
        labels,
        vec!["2", "3", "4", "5", "6", "7", "8", "9", "10", "J", "Q", "K", "A"]
    );
}

#[test]
fn symbols_are_the_four_suit_signs() {
    assert_eq!(Suit::Hearts.symbol(), "♥");
    assert_eq!(Suit::Diamonds.symbol(), "♦");
    assert_eq!(Suit::Clubs.symbol(), "♣");
    assert_eq!(Suit::Spades.symbol(), "♠");
}

#[test]
fn a_name_is_the_label_and_the_symbol() {
    assert_eq!(Card::new(Rank::Ten, Suit::Spades).name(), "10♠");
    assert_eq!(Card::new(Rank::Ace, Suit::Hearts).name(), "A♥");
    assert_eq!(Card::new(Rank::Two, Suit::Diamonds).name(), "2♦");
    assert_eq!(Card::new(Rank::Queen, Suit::Clubs).name(), "Q♣");
}

#[test]
fn a_card_keeps_its_rank_and_suit() {
    let card = Card::new(Rank::Seven, Suit::Clubs);
    assert_eq!(card.rank, Rank::Seven);
    assert_eq!(card.suit, Suit::Clubs);
    assert_eq!(card, Card { rank: Rank::Seven, suit: Suit::Clubs });
    assert_ne!(card, Card::new(Rank::Seven, Suit::Spades));
}

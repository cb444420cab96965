//! The deck: fifty-two distinct cards in a random order, dealt from the top.

use crate::card::{Card, Rank, Suit};
use crate::shuffle::shuffle;
use vstd::prelude::*;
use vstd::seq_lib::*;
use vstd::set_lib::*;

verus! {

/// The fifty-two cards as a fresh deck is laid out: suit after suit, and
/// within a suit from the two up to the ace.
pub open spec fn standard_deck() -> Seq<Card> {
    Seq::new(
        52,
        |k: int| Card { rank: Rank::spec_all()[k % 13], suit: Suit::spec_all()[k / 13] },
    )
}

/// Position of a card in the standard deck.
pub open spec fn position(card: Card) -> int {
    13 * card.suit.index() + card.rank.index()
}

/// Each rank and each suit sits in the listing at its own index.
proof fn lemma_listing_positions()
    ensures
        Rank::spec_all().len() == 13,
        Suit::spec_all().len() == 4,
        forall|r: int| 0 <= r < 13 ==> (#[trigger] Rank::spec_all()[r]).index() == r,
        forall|s: int| 0 <= s < 4 ==> (#[trigger] Suit::spec_all()[s]).index() == s,
        forall|rank: Rank| #[trigger] Rank::spec_all()[rank.index()] == rank,
        forall|suit: Suit| #[trigger] Suit::spec_all()[suit.index()] == suit,
{
    let ranks = Rank::spec_all();
    assert(ranks[0] == Rank::Two && ranks[1] == Rank::Three && ranks[2] == Rank::Four);
    assert(ranks[3] == Rank::Five && ranks[4] == Rank::Six && ranks[5] == Rank::Seven);
    assert(ranks[6] == Rank::Eight && ranks[7] == Rank::Nine && ranks[8] == Rank::Ten);
    assert(ranks[9] == Rank::Jack && ranks[10] == Rank::Queen && ranks[11] == Rank::King);
    assert(ranks[12] == Rank::Ace);
    let suits = Suit::spec_all();
    assert(suits[0] == Suit::Hearts && suits[1] == Suit::Diamonds);
    assert(suits[2] == Suit::Clubs && suits[3] == Suit::Spades);
}

/// The standard deck holds every card exactly once: it has fifty-two
/// cards, four suits of thirteen ranks, each card at its own position and
/// nowhere else.
pub proof fn lemma_standard_deck()
    ensures
        standard_deck().len() == 52,
        standard_deck().no_duplicates(),
        forall|card: Card|
            0 <= #[trigger] position(card) < 52 && standard_deck()[position(card)] == card,
        forall|card: Card| #[trigger] standard_deck().contains(card),
        forall|k: int| 0 <= k < 52 ==> position(#[trigger] standard_deck()[k]) == k,
{
    lemma_listing_positions();
    let deck = standard_deck();
    assert forall|k: int| 0 <= k < 52 implies position(#[trigger] deck[k]) == k by {
        assert(0 <= k % 13 < 13 && 0 <= k / 13 < 4);
    }
    assert forall|card: Card|
        0 <= #[trigger] position(card) < 52 && deck[position(card)] == card by {
        let k = position(card);
        assert(k % 13 == card.rank.index() && k / 13 == card.suit.index());
    }
    assert forall|card: Card| #[trigger] deck.contains(card) by {
        assert(deck[position(card)] == card);
    }
    assert forall|i: int, j: int| 0 <= i < deck.len() && 0 <= j < deck.len() && i != j implies deck[i]
        != deck[j] by {
        assert(position(deck[i]) == i && position(deck[j]) == j);
    }
}

/// Cards that are all different are at most fifty-two.
pub proof fn lemma_distinct_cards_fit(cards: Seq<Card>)
    requires
        cards.no_duplicates(),
    ensures
        cards.len() <= 52,
{
    let places = cards.map_values(|card: Card| position(card));
    assert forall|i: int, j: int| 0 <= i < places.len() && 0 <= j < places.len() && i != j implies places[i]
        != places[j] by {
        lemma_listing_positions();
        let a = cards[i];
        let b = cards[j];
        if position(a) == position(b) {
            assert(a.rank.index() == b.rank.index() && a.suit.index() == b.suit.index());
            assert(Rank::spec_all()[a.rank.index()] == Rank::spec_all()[b.rank.index()]);
            assert(Suit::spec_all()[a.suit.index()] == Suit::spec_all()[b.suit.index()]);
            assert(a == b);
        }
    }
    places.unique_seq_to_set();
    lemma_int_range(0, 52);
    assert(places.to_set().subset_of(set_int_range(0, 52))) by {
        assert forall|p: int| places.to_set().contains(p) implies set_int_range(0, 52).contains(
            p,
        ) by {
            let i = choose|i: int| 0 <= i < places.len() && places[i] == p;
            assert(p == position(cards[i]));
        }
    }
    lemma_len_subset(places.to_set(), set_int_range(0, 52));
}

/// A rearrangement of the standard deck is a full deck: fifty-two cards,
/// none twice, every card among them.
pub proof fn lemma_full_deck(cards: Seq<Card>)
    requires
        cards.to_multiset() == standard_deck().to_multiset(),
    ensures
        cards.len() == 52,
        cards.no_duplicates(),
        forall|card: Card| #[trigger] cards.contains(card),
{
    lemma_standard_deck();
    let full = standard_deck();
    to_multiset_len(cards);
    to_multiset_len(full);
    full.lemma_multiset_has_no_duplicates();
    cards.lemma_multiset_has_no_duplicates_conv();
    assert forall|card: Card| #[trigger] cards.contains(card) by {
        assert(full.contains(card));
        to_multiset_contains(full, card);
        to_multiset_contains(cards, card);
    }
}

/// The cards that are left to deal. The top of the deck is the last card
/// of the view.
#[derive(Debug)]
pub struct Deck {
    cards: Vec<Card>,
}

impl View for Deck {
    type V = Seq<Card>;

    closed spec fn view(&self) -> Seq<Card> {
        self.cards@
    }
}

impl Deck {
    /// No card is in the deck twice.
    pub open spec fn wf(&self) -> bool {
        self@.no_duplicates()
    }

    /// The standard deck in the order of its layout.
    fn laid_out() -> (cards: Vec<Card>)
        ensures
            cards@ == standard_deck(),
    {
        let suits = Suit::all();
        let ranks = Rank::all();
        let mut cards: Vec<Card> = Vec::new();
        let mut s: usize = 0;
        while s < 4
            invariant
                s <= 4,
                suits@ == Suit::spec_all(),
                ranks@ == Rank::spec_all(),
                cards@ == standard_deck().take(13 * s),
            decreases 4 - s,
        {
            let mut r: usize = 0;
            while r < 13
                invariant
                    s < 4,
                    r <= 13,
                    suits@ == Suit::spec_all(),
                    ranks@ == Rank::spec_all(),
                    cards@ == standard_deck().take(13 * s + r),
                decreases 13 - r,
            {
                let ghost k = 13 * s + r;
                assert(k % 13 == r && k / 13 == s);
                assert(standard_deck().take(k + 1) =~= standard_deck().take(k).push(
                    standard_deck()[k],
                ));
                cards.push(Card { rank: ranks[r], suit: suits[s] });
                r += 1;
            }
            s += 1;
        }
        assert(standard_deck().take(52) =~= standard_deck());
        cards
    }

    /// A full deck in a random order.
    pub fn new() -> (deck: Deck)
        ensures
            deck.wf(),
            deck@.len() == 52,
            deck@.to_multiset() == standard_deck().to_multiset(),
    {
        let mut cards = Self::laid_out();
        let mut rng = rand::thread_rng();
        shuffle(&mut cards, &mut rng);
        proof {
            lemma_full_deck(cards@);
        }
        Self { cards }
    }

    /// A deck that deals the given cards, the last one first. There is
    /// such a deck exactly when no card is given twice.
    pub fn from_cards(cards: Vec<Card>) -> (deck: Option<Deck>)
        ensures
            deck is Some <==> cards@.no_duplicates(),
            deck matches Some(d) ==> d@ == cards@ && d.wf(),
    {
        let mut i: usize = 0;
        while i < cards.len()
            invariant
                i <= cards@.len(),
                forall|a: int, b: int| 0 <= a < b < i ==> cards@[a] != cards@[b],
            decreases cards@.len() - i,
        {
            let mut j: usize = 0;
            while j < i
                invariant
                    j <= i < cards@.len(),
                    forall|a: int| 0 <= a < j ==> cards@[a] != cards@[i as int],
                decreases i - j,
            {
                if cards[j] == cards[i] {
                    return None;
                }
                j += 1;
            }
            i += 1;
        }
        Some(Self { cards })
    }

    /// Takes the top card off the deck, if there is one.
    pub fn draw(&mut self) -> (card: Option<Card>)
        ensures
            old(self)@.len() == 0 ==> card is None && final(self)@ == old(self)@,
            old(self)@.len() > 0 ==> card == Some(old(self)@.last()) && final(self)@ == old(
                self,
            )@.drop_last(),
            old(self).wf() ==> final(self).wf(),
    {
        self.cards.pop()
    }

    pub fn len(&self) -> (count: usize)
        ensures
            count == self@.len(),
    {
        self.cards.len()
    }
}

} // verus!

//! A hand of cards and its worth under the soft-ace rule.

use crate::card::Card;
use crate::text::{join, joined};
use vstd::prelude::*;
use vstd::string::*;

verus! {

/// Sum of the points of all cards, every ace counted as eleven.
pub open spec fn raw_sum(cards: Seq<Card>) -> int
    decreases cards.len(),
{
    if cards.len() == 0 {
        0
    } else {
        raw_sum(cards.drop_last()) + cards.last().spec_value()
    }
}

/// Whether at least one card is an ace.
pub open spec fn has_ace(cards: Seq<Card>) -> bool {
    exists|i: int| 0 <= i < cards.len() && (#[trigger] cards[i]).is_ace()
}

/// Number of aces among the cards.
pub open spec fn ace_count(cards: Seq<Card>) -> nat
    decreases cards.len(),
{
    if cards.len() == 0 {
        0
    } else {
        ace_count(cards.drop_last()) + if cards.last().is_ace() {
            1nat
        } else {
            0nat
        }
    }
}

/// Worth of a hand: the raw sum, lowered by ten, once, when the hand holds
/// an ace and the raw sum is over twenty-one. A second ace is never
/// lowered: two aces count twelve, and two aces with a king twenty-two.
pub open spec fn hand_value(cards: Seq<Card>) -> int {
    if has_ace(cards) && raw_sum(cards) > 21 {
        raw_sum(cards) - 10
    } else {
        raw_sum(cards)
    }
}

/// The cards that are shown: all of them, or all but the first where the
/// dealer's hole card stays hidden.
pub open spec fn shown_cards(cards: Seq<Card>, is_dealer: bool) -> Seq<Card> {
    if is_dealer {
        cards.skip(1)
    } else {
        cards
    }
}

/// The listing of a hand: the names of the shown cards, separated by a comma
/// and a space, in square brackets.
pub open spec fn display_text(cards: Seq<Card>, is_dealer: bool) -> Seq<char> {
    seq!['['] + joined(
        shown_cards(cards, is_dealer).map_values(|card: Card| card.spec_name()),
        seq![',', ' '],
    ) + seq![']']
}

/// Adding a card adds its points to the raw sum.
pub proof fn lemma_raw_sum_push(cards: Seq<Card>, card: Card)
    ensures
        raw_sum(cards.push(card)) == raw_sum(cards) + card.spec_value(),
        has_ace(cards.push(card)) <==> has_ace(cards) || card.is_ace(),
        ace_count(cards.push(card)) == ace_count(cards) + if card.is_ace() {
            1nat
        } else {
            0nat
        },
{
    let more = cards.push(card);
    assert(more.drop_last() =~= cards);
    assert(more.last() == card);
    if has_ace(cards) {
        let i = choose|i: int| 0 <= i < cards.len() && (#[trigger] cards[i]).is_ace();
        assert(more[i].is_ace());
    }
    if card.is_ace() {
        assert(more[cards.len() as int].is_ace());
    }
    if has_ace(more) {
        let i = choose|i: int| 0 <= i < more.len() && (#[trigger] more[i]).is_ace();
        if i < cards.len() {
            assert(cards[i].is_ace());
        }
    }
}

/// Every card counts between two and eleven, so the raw sum lies between
/// twice and eleven times the number of cards, and never shrinks as cards
/// are added.
pub proof fn lemma_raw_sum_bounds(cards: Seq<Card>, n: int)
    requires
        0 <= n <= cards.len(),
    ensures
        2 * n <= raw_sum(cards.take(n)) <= 11 * n,
        raw_sum(cards.take(n)) <= raw_sum(cards),
    decreases cards.len() - n,
{
    lemma_raw_sum_prefix(cards, n);
    if n < cards.len() {
        lemma_raw_sum_bounds(cards, n + 1);
        assert(cards.take(n + 1) =~= cards.take(n).push(cards[n]));
        lemma_raw_sum_push(cards.take(n), cards[n]);
    } else {
        assert(cards.take(n) =~= cards);
    }
}

proof fn lemma_raw_sum_prefix(cards: Seq<Card>, n: int)
    requires
        0 <= n <= cards.len(),
    ensures
        2 * n <= raw_sum(cards.take(n)) <= 11 * n,
    decreases n,
{
    if n > 0 {
        lemma_raw_sum_prefix(cards, n - 1);
        assert(cards.take(n) =~= cards.take(n - 1).push(cards[n - 1]));
        lemma_raw_sum_push(cards.take(n - 1), cards[n - 1]);
    } else {
        assert(cards.take(0) =~= Seq::<Card>::empty());
    }
}

/// A hand holds an ace exactly when it counts at least one.
pub proof fn lemma_has_ace_counts(cards: Seq<Card>)
    ensures
        has_ace(cards) <==> ace_count(cards) >= 1,
    decreases cards.len(),
{
    if cards.len() > 0 {
        let rest = cards.drop_last();
        lemma_has_ace_counts(rest);
        assert(cards =~= rest.push(cards.last()));
        lemma_raw_sum_push(rest, cards.last());
    }
}

/// With at most one ace in the hand, or a raw sum of at most twenty-one,
/// the worth is the raw sum less ten where exactly one ace is held and
/// the raw sum is over twenty-one, and the raw sum otherwise.
pub proof fn lemma_value_with_one_ace(cards: Seq<Card>)
    requires
        ace_count(cards) <= 1 || raw_sum(cards) <= 21,
    ensures
        hand_value(cards) == if ace_count(cards) == 1 && raw_sum(cards) > 21 {
            raw_sum(cards) - 10
        } else {
            raw_sum(cards)
        },
{
    lemma_has_ace_counts(cards);
}

/// The worth of a hand is its raw sum or ten less, and at least twice the
/// number of its cards less ten.
pub proof fn lemma_value_bounds(cards: Seq<Card>)
    ensures
        raw_sum(cards) - 10 <= hand_value(cards) <= raw_sum(cards),
        2 * cards.len() <= raw_sum(cards) <= 11 * cards.len(),
{
    lemma_raw_sum_bounds(cards, cards.len() as int);
    assert(cards.take(cards.len() as int) =~= cards);
}

/// The cards of one party in the order they were dealt, with their worth.
#[derive(Debug)]
pub struct Hand {
    cards: Vec<Card>,
    value: u16,
}

impl View for Hand {
    type V = Seq<Card>;

    closed spec fn view(&self) -> Seq<Card> {
        self.cards@
    }
}

impl Hand {
    /// The stored worth is the worth of the cards held.
    pub closed spec fn wf(&self) -> bool {
        self.value == hand_value(self.cards@)
    }

    pub fn new() -> (hand: Hand)
        ensures
            hand.wf(),
            hand@ == Seq::<Card>::empty(),
    {
        Self { cards: Vec::new(), value: 0 }
    }

    /// Appends `card` and brings the worth up to date.
    pub fn add_card(&mut self, card: Card)
        requires
            old(self).wf(),
            raw_sum(old(self)@) + card.spec_value() <= u16::MAX,
        ensures
            final(self).wf(),
            final(self)@ == old(self)@.push(card),
    {
        proof {
            lemma_raw_sum_push(self.cards@, card);
        }
        self.cards.push(card);
        self.update_value();
    }

    /// Computes the worth of the cards held anew and stores it.
    fn update_value(&mut self)
        requires
            raw_sum(old(self).cards@) <= u16::MAX,
        ensures
            final(self).cards == old(self).cards,
            final(self).value == hand_value(final(self).cards@),
    {
        let mut temp_value: u16 = 0;
        let mut has_an_ace = false;
        let mut i: usize = 0;
        proof {
            lemma_raw_sum_bounds(self.cards@, 0);
        }
        while i < self.cards.len()
            invariant
                i <= self.cards@.len(),
                temp_value == raw_sum(self.cards@.take(i as int)),
                has_an_ace == has_ace(self.cards@.take(i as int)),
                raw_sum(self.cards@) <= u16::MAX,
            decreases self.cards@.len() - i,
        {
            let card = self.cards[i];
            proof {
                let before = self.cards@.take(i as int);
                assert(self.cards@.take(i + 1) =~= before.push(card));
                lemma_raw_sum_push(before, card);
                lemma_raw_sum_bounds(self.cards@, i + 1);
            }
            if card.value() == 11 {
                has_an_ace = true;
            }
            temp_value += card.value();
            i += 1;
        }
        assert(self.cards@.take(i as int) =~= self.cards@);
        if has_an_ace && temp_value > 21 {
            temp_value -= 10;
        }
        self.value = temp_value;
    }

    pub fn value(&self) -> (points: u16)
        requires
            self.wf(),
        ensures
            points == hand_value(self@),
    {
        self.value
    }

    pub fn len(&self) -> (count: usize)
        ensures
            count == self@.len(),
    {
        self.cards.len()
    }

    pub fn card(&self, i: usize) -> (card: Card)
        requires
            i < self@.len(),
        ensures
            card == self@[i as int],
    {
        self.cards[i]
    }

    /// The listing of the hand, with the first card left out for a dealer
    /// whose hole card is still face down.
    pub fn display_hand(&self, is_dealer: bool) -> (text: String)
        requires
            is_dealer ==> self@.len() >= 1,
        ensures
            text@ == display_text(self@, is_dealer),
    {
        let start: usize = if is_dealer {
            1
        } else {
            0
        };
        let ghost shown = shown_cards(self@, is_dealer);
        let mut names: Vec<String> = Vec::new();
        let mut i: usize = start;
        while i < self.cards.len()
            invariant
                start <= i <= self.cards@.len(),
                shown == self.cards@.skip(start as int),
                names@.len() == i - start,
                forall|k: int|
                    0 <= k < names@.len() ==> (#[trigger] names@[k])@ == shown[k].spec_name(),
            decreases self.cards@.len() - i,
        {
            names.push(self.cards[i].name());
            i += 1;
        }
        let inner = join(&names, ", ");
        proof {
            reveal_strlit(", ");
            reveal_strlit("[");
            reveal_strlit("]");
            assert(", "@ =~= seq![',', ' ']);
            assert("["@ =~= seq!['[']);
            assert("]"@ =~= seq![']']);
            assert(crate::text::texts(names@) =~= shown.map_values(|card: Card| card.spec_name()));
        }
        String::from_str("[").concat(inner.as_str()).concat("]")
    }
}

} // verus!

//! The foundation: a pile locked to one suit that grows from the ace up.

use crate::cards::{cards_drawn, cards_left, Card, Deck, Face, Suite};
use vstd::prelude::*;
use vstd::string::StringExecFns;

verus! {

/// Why a foundation refuses a card.
#[derive(Copy, Clone, Debug, PartialEq, Eq, Structural)]
pub enum KlondikeDeckError {
    /// The card is of another suit than the foundation.
    InvalidSuite,
    /// The card is not the next rank up from the foundation's top card, or
    /// not an ace where the foundation is empty.
    InvalidCardOrder,
}

/// Whether `cards`, read bottom to top, are the cards of `suite` in
/// ascending order without a gap, starting at the ace.
pub open spec fn is_run(suite: Suite, cards: Seq<Card>) -> bool {
    forall|i: int|
        0 <= i < cards.len() ==> (#[trigger] cards[i]).suite == suite && cards[i].face.spec_rank()
            == i
}

/// What a foundation of `suite` that holds `cards` answers when `card` is
/// offered to it.
pub open spec fn placement(suite: Suite, cards: Seq<Card>, card: Card) -> Result<
    (),
    KlondikeDeckError,
> {
    if card.suite != suite {
        Err(KlondikeDeckError::InvalidSuite)
    } else if cards.len() > 0 && cards.last().face.spec_rank() + 1 != card.face.spec_rank() {
        Err(KlondikeDeckError::InvalidCardOrder)
    } else if cards.len() == 0 && card.face != Face::Ace {
        Err(KlondikeDeckError::InvalidCardOrder)
    } else {
        Ok(())
    }
}

/// How many of the leading cards of `cards` a foundation of `suite` that
/// holds `held` accepts when they are offered one after the other: the
/// position of the first card that is refused, or the length of `cards`
/// where none is.
pub open spec fn accepted_count(suite: Suite, held: Seq<Card>, cards: Seq<Card>) -> nat
    decreases cards.len(),
{
    if cards.len() == 0 || placement(suite, held, cards.first()) is Err {
        0
    } else {
        1 + accepted_count(suite, held.push(cards.first()), cards.drop_first())
    }
}

/// The label of the deck that collects a suit.
pub open spec fn suite_label(suite: Suite) -> Seq<char> {
    match suite {
        Suite::Hearts => "Hearts"@,
        Suite::Diamonds => "Diamonds"@,
        Suite::Clubs => "Clubs"@,
        Suite::Spades => "Spades"@,
    }
}

/// A pile that collects one suit from the ace upwards.
pub struct Foundation {
    deck: Deck,
    suite: Suite,
}

impl View for Foundation {
    type V = Seq<Card>;

    /// The cards on the foundation, bottom first.
    closed spec fn view(&self) -> Seq<Card> {
        self.deck@
    }
}

impl Foundation {
    /// The suit that the foundation is locked to.
    pub closed spec fn spec_suite(&self) -> Suite {
        self.suite
    }

    /// The label of the foundation's deck.
    pub closed spec fn spec_name(&self) -> Seq<char> {
        self.deck.name@
    }

    /// A well-formed foundation holds a run of its suit and is labelled
    /// after it. Constructors establish this and every method keeps it.
    pub open spec fn wf(&self) -> bool {
        &&& is_run(self.spec_suite(), self@)
        &&& self.spec_name() == suite_label(self.spec_suite())
    }

    /// An empty foundation for `suite`.
    pub fn new(suite: Suite) -> (foundation: Foundation)
        ensures
            foundation@ == Seq::<Card>::empty(),
            foundation.spec_suite() == suite,
            foundation.wf(),
    {
        let mut deck = Deck::new_empty_deck();
        deck.name = match suite {
            Suite::Hearts => String::from_str("Hearts"),
            Suite::Diamonds => String::from_str("Diamonds"),
            Suite::Clubs => String::from_str("Clubs"),
            Suite::Spades => String::from_str("Spades"),
        };
        Foundation { deck, suite }
    }

    /// The suit that the foundation is locked to.
    pub fn suite(&self) -> (suite: Suite)
        ensures
            suite == self.spec_suite(),
    {
        self.suite
    }

    /// The deck that holds the foundation's cards.
    pub fn deck(&self) -> (deck: &Deck)
        ensures
            deck@ == self@,
            deck.name@ == self.spec_name(),
    {
        &self.deck
    }

    /// Removes up to `count` cards from the top and returns them in the order
    /// in which they lay, the former top card last. Removal is never
    /// refused.
    pub fn take_cards(&mut self, count: usize) -> (taken: Vec<Card>)
        requires
            old(self).wf(),
        ensures
            taken@ == cards_drawn(old(self)@, count as nat),
            final(self)@ == cards_left(old(self)@, count as nat),
            final(self)@ + taken@ == old(self)@,
            final(self).spec_suite() == old(self).spec_suite(),
            final(self).wf(),
    {
        self.deck.take_cards(count)
    }

    /// Offers `card` to the foundation. A card of another suit is refused
    /// with `InvalidSuite`; a card of the right suit that is not the next
    /// rank up, or not an ace on an empty foundation, with
    /// `InvalidCardOrder`. A refused card leaves the foundation as it was;
    /// an accepted card becomes its top card.
    pub fn add_card(&mut self, card: Card) -> (r: Result<(), KlondikeDeckError>)
        requires
            old(self).wf(),
        ensures
            r == placement(old(self).spec_suite(), old(self)@, card),
            r is Ok ==> final(self)@ == old(self)@.push(card),
            r is Err ==> final(self)@ == old(self)@,
            final(self).spec_suite() == old(self).spec_suite(),
            final(self).wf(),
    {
        if card.suite != self.suite {
            return Err(KlondikeDeckError::InvalidSuite);
        }
        let top_card = self.deck.cards.last();

        if let Some(top_card) = top_card {
            if top_card.face.rank() + 1 != card.face.rank() {
                return Err(KlondikeDeckError::InvalidCardOrder);
            }
        } else {
            if card.face != Face::Ace {
                return Err(KlondikeDeckError::InvalidCardOrder);
            }
        }

        self.deck.add_cards(vec![card]);

        Ok(())
    }

    /// Offers `cards` one after the other, first to last, and stops at the
    /// first that is refused, reporting why. The cards accepted before it
    /// stay on the foundation; there is no rollback.
    pub fn add_cards(&mut self, cards: Vec<Card>) -> (r: Result<(), KlondikeDeckError>)
        requires
            old(self).wf(),
        ensures
            ({
                let n = accepted_count(old(self).spec_suite(), old(self)@, cards@) as int;
                &&& final(self)@ == old(self)@ + cards@.take(n)
                &&& r is Ok <==> n == cards@.len()
                &&& n < cards@.len() ==> r == placement(
                    old(self).spec_suite(),
                    final(self)@,
                    cards@[n],
                )
            }),
            final(self).spec_suite() == old(self).spec_suite(),
            final(self).wf(),
    {
        let ghost suite = self.spec_suite();
        let ghost all = cards@;
        proof {
            assert(all.skip(0) =~= all);
        }
        for card in iter: cards
            invariant
                iter.seq() == all,
                self.wf(),
                self.spec_suite() == suite,
                suite == old(self).spec_suite(),
                self@ == old(self)@ + all.take(iter.index() as int),
                accepted_count(suite, old(self)@, all) == iter.index() + accepted_count(
                    suite,
                    self@,
                    all.skip(iter.index() as int),
                ),
        {
            let ghost i = iter.index() as int;
            proof {
                assert(all.skip(i).first() == all[i]);
                assert(all.skip(i).drop_first() =~= all.skip(i + 1));
                assert(all.take(i + 1) =~= all.take(i).push(all[i]));
            }
            match self.add_card(card) {
                Ok(()) => {
                    proof {
                        assert(self@ =~= old(self)@ + all.take(i + 1));
                    }
                },
                Err(e) => {
                    return Err(e);
                },
            }
        }
        proof {
            assert(all.take(all.len() as int) =~= all);
            assert(all.skip(all.len() as int).len() == 0);
        }
        Ok(())
    }
}

/// On a run of `suite`, the one card that is accepted is the card of that
/// suit whose rank is the number of cards held, and it extends the run. A
/// run of thirteen cards ends in the king and accepts nothing: the order of
/// the faces does not wrap.
pub proof fn lemma_placement_on_run(suite: Suite, cards: Seq<Card>, card: Card)
    requires
        is_run(suite, cards),
    ensures
        cards.len() <= 13,
        placement(suite, cards, card) is Ok <==> card.suite == suite && card.face.spec_rank()
            == cards.len(),
        placement(suite, cards, card) is Ok ==> is_run(suite, cards.push(card)),
        cards.len() == 13 ==> placement(suite, cards, card) is Err,
{
    if cards.len() > 0 {
        let top = cards.len() - 1;
        assert(cards[top].face.spec_rank() == top);
    }
}

/// What is left of a run after a draw is a run.
pub proof fn lemma_draw_from_run(suite: Suite, cards: Seq<Card>, count: nat)
    requires
        is_run(suite, cards),
    ensures
        is_run(suite, cards_left(cards, count)),
{
}

} // verus!

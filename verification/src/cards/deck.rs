//! The deck: an ordered pile of cards whose last card is its top.

use crate::cards::card::{Card, Face, Suite};
use crate::random::shuffle_cards;
use vstd::prelude::*;

verus! {

/// The card at position `i` of the canonical order: all ranks of one suit,
/// lowest first, then the next suit, every card face down.
pub open spec fn standard_card(i: int) -> Card {
    Card { suite: Suite::at(i / 13), face: Face::at(i % 13), face_up: false }
}

/// The 52 cards of a standard pack in canonical order, bottom first.
pub open spec fn standard_cards() -> Seq<Card> {
    Seq::new(52, |i: int| standard_card(i))
}

/// How many cards a draw of `count` takes from `cards`: `count`, or all of
/// them where the deck holds fewer.
pub open spec fn drawn_len(cards: Seq<Card>, count: nat) -> nat {
    if count <= cards.len() {
        count
    } else {
        cards.len()
    }
}

/// What stays in a deck of `cards` after a draw of `count`: everything
/// below the drawn cards, in place.
pub open spec fn cards_left(cards: Seq<Card>, count: nat) -> Seq<Card> {
    cards.take(cards.len() - drawn_len(cards, count))
}

/// What a draw of `count` takes from a deck of `cards`: its top cards, in
/// the order in which they lay in the deck, the former top card last.
pub open spec fn cards_drawn(cards: Seq<Card>, count: nat) -> Seq<Card> {
    cards.skip(cards.len() - drawn_len(cards, count))
}

/// A deck of `cards` with its top `count` cards turned over, or all of them
/// where it holds fewer.
pub open spec fn top_flipped(cards: Seq<Card>, count: nat) -> Seq<Card> {
    Seq::new(
        cards.len(),
        |i: int|
            if i >= cards.len() - drawn_len(cards, count) {
                cards[i].flipped()
            } else {
                cards[i]
            },
    )
}

/// A deck of `cards` with every card turned over.
pub open spec fn all_flipped(cards: Seq<Card>) -> Seq<Card> {
    Seq::new(cards.len(), |i: int| cards[i].flipped())
}

/// An ordered pile of cards. The last card of `cards` is the top of the
/// deck, where cards are drawn and flipped; `name` is a label for display
/// and plays no part in any rule.
pub struct Deck {
    pub name: String,
    pub cards: Vec<Card>,
}

impl View for Deck {
    type V = Seq<Card>;

    /// The cards of the deck, bottom first.
    open spec fn view(&self) -> Seq<Card> {
        self.cards@
    }
}

impl Deck {
    /// A deck without cards and with an empty label.
    pub fn new_empty_deck() -> (deck: Deck)
        ensures
            deck@ == Seq::<Card>::empty(),
            deck.name@ == Seq::<char>::empty(),
    {
        Deck { name: String::new(), cards: Vec::new() }
    }

    /// The standard pack: one card of each suit and face, all face down, in
    /// canonical order.
    pub fn new_standard_deck() -> (deck: Deck)
        ensures
            deck@ == standard_cards(),
            deck.name@ == Seq::<char>::empty(),
            deck@.len() == 52,
            forall|i: int| 0 <= i < 52 ==> !(#[trigger] deck@[i]).face_up,
            forall|i: int, j: int|
                0 <= i < 52 && 0 <= j < 52 && i != j ==> !(#[trigger] deck@[i]).same_card(
                    #[trigger] deck@[j],
                ),
    {
        let suites = vec![Suite::Hearts, Suite::Diamonds, Suite::Clubs, Suite::Spades];
        let faces = vec![
            Face::Ace,
            Face::Two,
            Face::Three,
            Face::Four,
            Face::Five,
            Face::Six,
            Face::Seven,
            Face::Eight,
            Face::Nine,
            Face::Ten,
            Face::Jack,
            Face::Queen,
            Face::King,
        ];
        let mut cards: Vec<Card> = Vec::new();
        let mut s: usize = 0;
        while s < 4
            invariant
                s <= 4,
                suites@.len() == 4,
                faces@.len() == 13,
                forall|k: int| 0 <= k < 4 ==> suites@[k] == Suite::at(k),
                forall|k: int| 0 <= k < 13 ==> faces@[k] == Face::at(k),
                cards@ == standard_cards().take(13 * s),
            decreases 4 - s,
        {
            let mut f: usize = 0;
            while f < 13
                invariant
                    s < 4,
                    f <= 13,
                    suites@.len() == 4,
                    faces@.len() == 13,
                    forall|k: int| 0 <= k < 4 ==> suites@[k] == Suite::at(k),
                    forall|k: int| 0 <= k < 13 ==> faces@[k] == Face::at(k),
                    cards@ == standard_cards().take(13 * s + f),
                decreases 13 - f,
            {
                cards.push(Card { suite: suites[s], face: faces[f], face_up: false });
                f += 1;
            }
            s += 1;
        }
        proof {
            lemma_standard_cards_distinct();
        }
        Deck { name: String::new(), cards }
    }

    /// Puts the cards in a random order. Whatever the order, the deck holds
    /// the same cards as before, each as often and the same way up.
    pub fn shuffle(&mut self)
        ensures
            final(self)@.to_multiset() == old(self)@.to_multiset(),
            final(self)@.len() == old(self)@.len(),
            final(self).name == old(self).name,
    {
        let mut rng = rand::thread_rng();
        shuffle_cards(&mut self.cards, &mut rng);
        proof {
            old(self)@.to_multiset_ensures();
            self@.to_multiset_ensures();
        }
    }

    /// Removes up to `count` cards from the top and returns them in the order
    /// in which they lay in the deck, the former top card last, so that
    /// adding them back restores the deck. A deck with fewer cards gives all
    /// it has; an empty deck gives nothing.
    pub fn take_cards(&mut self, count: usize) -> (taken: Vec<Card>)
        ensures
            taken@ == cards_drawn(old(self)@, count as nat),
            final(self)@ == cards_left(old(self)@, count as nat),
            final(self)@ + taken@ == old(self)@,
            taken@.len() == drawn_len(old(self)@, count as nat),
            final(self)@.len() == old(self)@.len() - drawn_len(old(self)@, count as nat),
            final(self).name == old(self).name,
    {
        let len = self.cards.len();
        let kept = if count <= len {
            len - count
        } else {
            0
        };
        let taken = self.cards.split_off(kept);
        proof {
            lemma_draw_splits(old(self)@, count as nat);
        }
        taken
    }

    /// Puts `cards` on top of the deck in the order given: the last of them
    /// becomes the new top card.
    pub fn add_cards(&mut self, cards: Vec<Card>)
        ensures
            final(self)@ == old(self)@ + cards@,
            final(self)@.len() == old(self)@.len() + cards@.len(),
            final(self).name == old(self).name,
    {
        let mut cards = cards;
        self.cards.append(&mut cards);
    }

    /// Turns the top card over, as `flip_top_cards` does with a count of
    /// one. An empty deck stays as it is, and a deck of one card has every
    /// card turned.
    pub fn flip_top_card(&mut self)
        ensures
            final(self)@ == top_flipped(old(self)@, 1),
            final(self)@.len() == old(self)@.len(),
            old(self)@.len() <= 1 ==> final(self)@ == all_flipped(old(self)@),
            final(self).name == old(self).name,
    {
        if let Some(card) = self.cards.last_mut() {
            card.flip();
        }
    }

    /// Turns over the top `count` cards, each where it lies. A deck with
    /// fewer cards has all of them turned, whatever the count.
    pub fn flip_top_cards(&mut self, count: usize)
        ensures
            final(self)@ == top_flipped(old(self)@, count as nat),
            final(self)@.len() == old(self)@.len(),
            count >= old(self)@.len() ==> final(self)@ == all_flipped(old(self)@),
            final(self).name == old(self).name,
    {
        let len = self.cards.len();
        let first = if count <= len {
            len - count
        } else {
            0
        };
        let mut i: usize = first;
        while i < len
            invariant
                first <= i <= len,
                len == old(self)@.len(),
                first == len - drawn_len(old(self)@, count as nat),
                self.cards@.len() == len,
                forall|k: int|
                    0 <= k < len ==> self.cards@[k] == if first <= k < i {
                        old(self)@[k].flipped()
                    } else {
                        old(self)@[k]
                    },
                self.name == old(self).name,
            decreases len - i,
        {
            self.cards[i].flip();
            i += 1;
        }
    }
}

/// The standard pack holds 52 cards, all face down, no card twice, and every
/// pair of suit and face at the position that the canonical order gives it.
pub proof fn lemma_standard_cards_distinct()
    ensures
        standard_cards().len() == 52,
        forall|i: int| 0 <= i < 52 ==> !(#[trigger] standard_cards()[i]).face_up,
        forall|i: int, j: int|
            0 <= i < 52 && 0 <= j < 52 && i != j ==> !(#[trigger] standard_cards()[i]).same_card(
                #[trigger] standard_cards()[j],
            ),
        forall|suite: Suite, face: Face|
            #![trigger suite.spec_index(), face.spec_rank()]
            standard_cards()[suite.spec_index() * 13 + face.spec_rank()] == (Card {
                suite,
                face,
                face_up: false,
            }),
{
}

/// A draw of `count` takes `count` cards, or all of them where the deck
/// holds fewer, and the deck shrinks by exactly that many.
pub proof fn lemma_draw_splits(cards: Seq<Card>, count: nat)
    ensures
        drawn_len(cards, count) <= count,
        drawn_len(cards, count) <= cards.len(),
        drawn_len(cards, count) == count || drawn_len(cards, count) == cards.len(),
        cards_drawn(cards, count).len() == drawn_len(cards, count),
        cards_left(cards, count).len() == cards.len() - drawn_len(cards, count),
{
}

/// Drawn cards that are added back as they came restore the deck, whatever
/// the count: the same cards in the same order, each the same way up.
pub proof fn lemma_draw_then_add_restores(cards: Seq<Card>, count: nat)
    ensures
        cards_left(cards, count) + cards_drawn(cards, count) == cards,
{
    assert(cards_left(cards, count) + cards_drawn(cards, count) =~= cards);
}

/// On a deck with no more than `count` cards, turning the top `count` over
/// turns every card over.
pub proof fn lemma_flip_short_deck(cards: Seq<Card>, count: nat)
    requires
        cards.len() <= count,
    ensures
        top_flipped(cards, count) == all_flipped(cards),
{
    assert(top_flipped(cards, count) =~= all_flipped(cards));
}

/// Turning the same cards over twice puts each back the way it lay.
pub proof fn lemma_flip_twice(cards: Seq<Card>, count: nat)
    ensures
        top_flipped(top_flipped(cards, count), count) == cards,
        all_flipped(all_flipped(cards)) == cards,
{
    assert(top_flipped(top_flipped(cards, count), count) =~= cards);
    assert(all_flipped(all_flipped(cards)) =~= cards);
}

} // verus!

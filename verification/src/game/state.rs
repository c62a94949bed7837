//! The game itself: how it is set up and what a key press does to it.

use crate::cards::{
    all_flipped, identities, lemma_pack_flip, standard_cards, top_flipped, Card, Deck, Suite,
};
use crate::game::foundation::Foundation;
use crate::game::layout::{
    dealt, dealt_pile, freshly_dealt, laid_out, lemma_deal_shape, lemma_deal_wf,
    lemma_laid_out_wf, lemma_stock_swap, stock_after_piles, GameView,
};
use crate::game::mode::GameMode;
use crate::random::random_index;
use crate::ui::UIInput;
use vstd::prelude::*;
use vstd::string::StringExecFns;

verus! {

/// A game in play or under inspection. Its state changes only through
/// `send_input` and the flips that `send_input` is made of.
pub struct KlondikeGame {
    game_mode: GameMode,
    stock: Deck,
    waste: Deck,
    /// Empty in the inspection mode; in play one foundation per suit, at the
    /// position of its suit.
    foundations: Vec<Foundation>,
    piles: [Deck; 7],
}

impl View for KlondikeGame {
    type V = GameView;

    closed spec fn view(&self) -> GameView {
        GameView {
            mode: self.game_mode,
            stock: self.stock@,
            waste: self.waste@,
            foundations: Map::new(
                |suite: Suite| self.foundations@.len() == 4,
                |suite: Suite| self.foundations@[suite.spec_index()]@,
            ),
            piles: Seq::new(7, |i: int| self.piles@[i]@),
        }
    }
}

/// Whether a game in `mode` knows the key. A game in play knows none yet;
/// under inspection `f` turns the whole stock over, `g` its top three cards
/// and `r` one card picked at random.
pub open spec fn key_recognized(mode: GameMode, key: char) -> bool {
    mode == GameMode::RenderCards && (key == 'f' || key == 'g' || key == 'r')
}

impl KlondikeGame {
    /// The decks carry their labels and each foundation stands at the
    /// position of its suit.
    pub closed spec fn labelled(&self) -> bool {
        &&& self.stock.name@ == "Stock"@
        &&& self.waste.name@ == "Waste"@
        &&& forall|i: int| 0 <= i < 7 ==> (#[trigger] self.piles@[i]).name@ == Seq::<char>::empty()
        &&& (self.foundations@.len() == 0 || self.foundations@.len() == 4)
        &&& forall|i: int|
            0 <= i < self.foundations@.len() ==> (#[trigger] self.foundations@[i]).wf()
                && self.foundations@[i].spec_suite() == Suite::at(i)
    }

    /// A well-formed game is labelled and in a valid state. Constructors
    /// establish this and every method keeps it.
    pub open spec fn wf(&self) -> bool {
        self.labelled() && self@.wf()
    }

    /// Deals a game in play from `stock`, the shuffled pack: pile `i`,
    /// counted from zero, gets the top `i + 1` cards of the stock in the
    /// order in which they lay there, and has its top card turned face up.
    pub fn deal(stock: Deck) -> (game: KlondikeGame)
        requires
            stock@.to_multiset() == standard_cards().to_multiset(),
        ensures
            game@ == dealt(stock@),
            freshly_dealt(game@),
            game.wf(),
    {
        let ghost pack = stock@;
        let mut stock = stock;
        stock.name = String::from_str("Stock");

        let mut waste = Deck::new_empty_deck();
        waste.name = String::from_str("Waste");

        let mut foundations: Vec<Foundation> = Vec::new();
        foundations.push(Foundation::new(Suite::Hearts));
        foundations.push(Foundation::new(Suite::Diamonds));
        foundations.push(Foundation::new(Suite::Clubs));
        foundations.push(Foundation::new(Suite::Spades));

        let mut piles: [Deck; 7] = [
            Deck::new_empty_deck(),
            Deck::new_empty_deck(),
            Deck::new_empty_deck(),
            Deck::new_empty_deck(),
            Deck::new_empty_deck(),
            Deck::new_empty_deck(),
            Deck::new_empty_deck(),
        ];

        let mut i: usize = 0;
        while i < 7
            invariant
                i <= 7,
                stock@ == stock_after_piles(pack, i as nat),
                stock.name@ == "Stock"@,
                forall|k: int| 0 <= k < i ==> (#[trigger] piles@[k])@ == dealt_pile(pack, k as nat),
                forall|k: int| i <= k < 7 ==> (#[trigger] piles@[k])@ == Seq::<Card>::empty(),
                forall|k: int| 0 <= k < 7 ==> (#[trigger] piles@[k]).name@ == Seq::<char>::empty(),
            decreases 7 - i,
        {
            let cards = stock.take_cards(i + 1);
            piles[i].add_cards(cards);
            piles[i].flip_top_cards(1);
            i += 1;
        }

        let game = KlondikeGame { game_mode: GameMode::Game, stock, waste, foundations, piles };
        proof {
            lemma_deal_shape(pack);
            lemma_deal_wf(pack);
            assert(game@.piles =~= dealt(pack).piles);
            assert(game@.foundations =~= dealt(pack).foundations);
        }
        game
    }

    /// Sets up a game. In play the standard pack is shuffled and dealt; for
    /// inspection it is laid out on the stock in canonical order, and the
    /// game has no foundations and deals no piles.
    pub fn new(game_mode: GameMode) -> (game: KlondikeGame)
        ensures
            game.wf(),
            game@.mode == game_mode,
            game_mode == GameMode::RenderCards ==> game@ == laid_out(),
            game_mode == GameMode::Game ==> freshly_dealt(game@),
            game_mode == GameMode::Game ==> exists|shuffled: Seq<Card>|
                shuffled.to_multiset() == standard_cards().to_multiset() && game@ == dealt(
                    shuffled,
                ),
    {
        let mut stock = Deck::new_standard_deck();
        match game_mode {
            GameMode::Game => {
                stock.shuffle();
                KlondikeGame::deal(stock)
            },
            GameMode::RenderCards => {
                stock.name = String::from_str("Stock");

                let mut waste = Deck::new_empty_deck();
                waste.name = String::from_str("Waste");

                let piles: [Deck; 7] = [
                    Deck::new_empty_deck(),
                    Deck::new_empty_deck(),
                    Deck::new_empty_deck(),
                    Deck::new_empty_deck(),
                    Deck::new_empty_deck(),
                    Deck::new_empty_deck(),
                    Deck::new_empty_deck(),
                ];
                let game = KlondikeGame {
                    game_mode,
                    stock,
                    waste,
                    foundations: Vec::new(),
                    piles,
                };
                proof {
                    lemma_laid_out_wf();
                    assert(game@.piles =~= laid_out().piles);
                    assert(game@.foundations =~= laid_out().foundations);
                }
                game
            },
        }
    }

    /// The mode that the game was set up in.
    pub fn game_mode(&self) -> (mode: GameMode)
        ensures
            mode == self@.mode,
    {
        self.game_mode
    }

    /// The stock.
    pub fn stock(&self) -> (deck: &Deck)
        ensures
            deck@ == self@.stock,
            self.wf() ==> deck.name@ == "Stock"@,
    {
        &self.stock
    }

    /// The waste.
    pub fn waste(&self) -> (deck: &Deck)
        ensures
            deck@ == self@.waste,
            self.wf() ==> deck.name@ == "Waste"@,
    {
        &self.waste
    }

    /// The foundation of `suite`, or none in a game without foundations.
    pub fn foundation(&self, suite: Suite) -> (found: Option<&Foundation>)
        ensures
            found is Some <==> self@.foundations.dom().contains(suite),
            found is Some ==> found->Some_0@ == self@.foundations[suite],
            self.wf() && found is Some ==> found->Some_0.wf() && found->Some_0.spec_suite()
                == suite,
    {
        if self.foundations.len() == 4 {
            Some(&self.foundations[suite.index()])
        } else {
            None
        }
    }

    /// The seven tableau piles, leftmost first.
    pub fn piles(&self) -> (piles: &[Deck; 7])
        ensures
            forall|i: int| 0 <= i < 7 ==> (#[trigger] piles@[i])@ == self@.piles[i],
            self.wf() ==> forall|i: int|
                0 <= i < 7 ==> (#[trigger] piles@[i]).name@ == Seq::<char>::empty(),
    {
        &self.piles
    }

    /// Handles one key press and says whether the game knew the key. A game
    /// in play knows no key yet. Under inspection `f` turns every card of
    /// the stock over, `g` the top three, and `r` one card at a position
    /// picked at random. An unknown key changes nothing.
    pub fn send_input(&mut self, input: &UIInput) -> (recognized: bool)
        requires
            old(self).wf(),
        ensures
            final(self).wf(),
            recognized == key_recognized(old(self)@.mode, input.key),
            !recognized ==> final(self)@ == old(self)@,
            recognized && input.key == 'f' ==> final(self)@ == old(self)@.with_stock(
                all_flipped(old(self)@.stock),
            ),
            recognized && input.key == 'g' ==> final(self)@ == old(self)@.with_stock(
                top_flipped(old(self)@.stock, 3),
            ),
            recognized && input.key == 'r' ==> exists|i: int|
                0 <= i < old(self)@.stock.len() && final(self)@ == old(self)@.with_stock(
                    old(self)@.stock.update(i, old(self)@.stock[i].flipped()),
                ),
    {
        match self.game_mode {
            GameMode::Game => false,
            GameMode::RenderCards => {
                if input.key == 'f' {
                    self.flip_stock();
                    true
                } else if input.key == 'g' {
                    proof {
                        lemma_pack_flip(self.stock@, 3, 0);
                        lemma_stock_swap(old(self)@, top_flipped(self.stock@, 3));
                    }
                    self.stock.flip_top_cards(3);
                    assert(self@ == old(self)@.with_stock(top_flipped(old(self)@.stock, 3)));
                    true
                } else if input.key == 'r' {
                    // one random card...
                    assert(self.stock@.len() == 52) by {
                        assert(identities(self.stock@).len() == self.stock@.len());
                        assert(identities(standard_cards()).len() == 52);
                    }
                    let mut rng = rand::thread_rng();
                    let i = random_index(&mut rng, self.stock.cards.len());
                    self.flip_stock_card(i);
                    true
                } else {
                    false
                }
            },
        }
    }

    /// Turns over the card at position `index` of the stock, counted from
    /// the bottom. A position past the top changes nothing.
    pub fn flip_stock_card(&mut self, index: usize)
        requires
            old(self).wf(),
        ensures
            final(self).wf(),
            index < old(self)@.stock.len() ==> final(self)@ == old(self)@.with_stock(
                old(self)@.stock.update(index as int, old(self)@.stock[index as int].flipped()),
            ),
            index >= old(self)@.stock.len() ==> final(self)@ == old(self)@,
    {
        if index < self.stock.cards.len() {
            proof {
                lemma_pack_flip(self.stock@, 0, index as int);
                lemma_stock_swap(
                    old(self)@,
                    self.stock@.update(index as int, self.stock@[index as int].flipped()),
                );
            }
            self.stock.cards[index].flip();
            assert(self.stock@ =~= old(self).stock@.update(
                index as int,
                old(self).stock@[index as int].flipped(),
            ));
            assert(self@ == old(self)@.with_stock(self.stock@));
        }
    }

    /// Turns over every card of the stock.
    fn flip_stock(&mut self)
        requires
            old(self).wf(),
        ensures
            final(self).wf(),
            final(self)@ == old(self)@.with_stock(all_flipped(old(self)@.stock)),
    {
        proof {
            lemma_pack_flip(self.stock@, 0, 0);
            lemma_stock_swap(old(self)@, all_flipped(self.stock@));
        }
        let len = self.stock.cards.len();
        let mut i: usize = 0;
        while i < len
            invariant
                i <= len,
                len == old(self).stock@.len(),
                self.stock@.len() == len,
                forall|k: int|
                    0 <= k < len ==> self.stock@[k] == if k < i {
                        old(self).stock@[k].flipped()
                    } else {
                        old(self).stock@[k]
                    },
                self.stock.name == old(self).stock.name,
                self.game_mode == old(self).game_mode,
                self.waste == old(self).waste,
                self.foundations == old(self).foundations,
                self.piles == old(self).piles,
            decreases len - i,
        {
            self.stock.cards[i].flip();
            i += 1;
        }
        assert(self.stock@ =~= all_flipped(old(self).stock@));
        assert(self@ == old(self)@.with_stock(self.stock@));
    }
}

} // verus!

//! The state of a game as the rules see it, what holds of every state, and
//! the two layouts a game starts from.

use crate::cards::{
    cards_drawn, cards_left, identities, lemma_pack_concat, lemma_pack_draw, lemma_pack_flip,
    lemma_pack_permutation, pack, standard_cards, top_flipped, Card, Suite,
};
use crate::game::foundation::is_run;
use crate::game::mode::GameMode;
use vstd::prelude::*;

verus! {

/// The state of a game as the rules see it: the cards of every deck, bottom
/// first.
pub struct GameView {
    pub mode: GameMode,
    pub stock: Seq<Card>,
    pub waste: Seq<Card>,
    /// One entry per suit in play; none in the inspection mode.
    pub foundations: Map<Suite, Seq<Card>>,
    pub piles: Seq<Seq<Card>>,
}

impl GameView {
    /// The cards on the foundation of `suite`; none where the game has no
    /// such foundation.
    pub open spec fn foundation(self, suite: Suite) -> Seq<Card> {
        if self.foundations.dom().contains(suite) {
            self.foundations[suite]
        } else {
            Seq::empty()
        }
    }

    /// Every card of the game: stock, waste, the foundations and the piles,
    /// one after the other.
    pub open spec fn all_cards(self) -> Seq<Card> {
        self.stock + self.waste + self.foundation(Suite::Hearts) + self.foundation(
            Suite::Diamonds,
        ) + self.foundation(Suite::Clubs) + self.foundation(Suite::Spades) + self.piles.flatten()
    }

    /// This state with another stock.
    pub open spec fn with_stock(self, stock: Seq<Card>) -> GameView {
        GameView { stock, ..self }
    }

    /// What holds of every state of a game. There are seven piles. The cards
    /// of all decks together are the standard pack: none is lost and none
    /// occurs twice. Each foundation holds a run of its suit. In play every
    /// suit has its foundation. Under inspection there is no foundation,
    /// waste and piles are empty, and the stock holds the pack in canonical
    /// order.
    pub open spec fn wf(self) -> bool {
        &&& self.piles.len() == 7
        &&& pack(self.all_cards()) == pack(standard_cards())
        &&& forall|suite: Suite| #[trigger]
            self.foundations.dom().contains(suite) ==> is_run(suite, self.foundations[suite])
        &&& match self.mode {
            GameMode::Game => forall|suite: Suite| #[trigger]
                self.foundations.dom().contains(suite),
            GameMode::RenderCards => {
                &&& forall|suite: Suite| !#[trigger] self.foundations.dom().contains(suite)
                &&& self.waste.len() == 0
                &&& forall|i: int| 0 <= i < 7 ==> (#[trigger] self.piles[i]).len() == 0
                &&& identities(self.stock) == identities(standard_cards())
            },
        }
    }
}

/// The stock after the first `n` piles were dealt from `stock`: pile `i`,
/// counted from zero, takes `i + 1` cards from the top.
pub open spec fn stock_after_piles(stock: Seq<Card>, n: nat) -> Seq<Card>
    decreases n,
{
    if n == 0 {
        stock
    } else {
        cards_left(stock_after_piles(stock, (n - 1) as nat), n)
    }
}

/// Pile `i` of the deal from `stock`: the cards that it takes, in the order
/// in which they lay on the stock, the topmost of them turned over.
pub open spec fn dealt_pile(stock: Seq<Card>, i: nat) -> Seq<Card> {
    top_flipped(cards_drawn(stock_after_piles(stock, i), i + 1), 1)
}

/// The first `n` piles of the deal from `stock`.
pub open spec fn dealt_piles(stock: Seq<Card>, n: nat) -> Seq<Seq<Card>> {
    Seq::new(n, |i: int| dealt_pile(stock, i as nat))
}

/// The game that is dealt from `stock`: seven piles, the rest of the stock,
/// nothing on the waste and an empty foundation for every suit.
pub open spec fn dealt(stock: Seq<Card>) -> GameView {
    GameView {
        mode: GameMode::Game,
        stock: stock_after_piles(stock, 7),
        waste: Seq::empty(),
        foundations: Map::new(|suite: Suite| true, |suite: Suite| Seq::empty()),
        piles: dealt_piles(stock, 7),
    }
}

/// The layout for inspection: the whole pack on the stock in canonical
/// order, face down, and nothing anywhere else.
pub open spec fn laid_out() -> GameView {
    GameView {
        mode: GameMode::RenderCards,
        stock: standard_cards(),
        waste: Seq::empty(),
        foundations: Map::empty(),
        piles: Seq::new(7, |i: int| Seq::empty()),
    }
}

/// What a deal looks like. Pile `i`, counted from zero, holds `i + 1`
/// cards of which exactly the topmost is face up. The stock keeps 24 cards,
/// all face down. The waste is empty, and so is the foundation of every
/// suit.
pub open spec fn freshly_dealt(view: GameView) -> bool {
    &&& view.mode == GameMode::Game
    &&& view.piles.len() == 7
    &&& forall|i: int| 0 <= i < 7 ==> (#[trigger] view.piles[i]).len() == i + 1
    &&& forall|i: int| 0 <= i < 7 ==> (#[trigger] view.piles[i])[i].face_up
    &&& forall|i: int, j: int| 0 <= j < i < 7 ==> !(#[trigger] view.piles[i][j]).face_up
    &&& view.stock.len() == 24
    &&& forall|k: int| 0 <= k < 24 ==> !(#[trigger] view.stock[k]).face_up
    &&& view.waste.len() == 0
    &&& forall|suite: Suite| #[trigger]
        view.foundations.dom().contains(suite) && view.foundations[suite].len() == 0
}

/// A sequence that holds the cards of the standard pack, in whatever order,
/// has 52 cards, all of them face down.
pub proof fn lemma_shuffled_pack(stock: Seq<Card>)
    requires
        stock.to_multiset() == standard_cards().to_multiset(),
    ensures
        stock.len() == 52,
        forall|k: int| 0 <= k < 52 ==> !(#[trigger] stock[k]).face_up,
        pack(stock) == pack(standard_cards()),
{
    stock.to_multiset_ensures();
    standard_cards().to_multiset_ensures();
    lemma_pack_permutation(stock, standard_cards());
    assert forall|k: int| 0 <= k < 52 implies !(#[trigger] stock[k]).face_up by {
        assert(stock.contains(stock[k]));
        assert(stock.to_multiset().count(stock[k]) > 0);
        assert(standard_cards().contains(stock[k]));
    }
}

/// How many cards the piles before pile `i` get between them: one for the
/// first, two for the second and so on.
pub open spec fn dealt_before(i: int) -> int {
    i * (i + 1) / 2
}

/// Where each card of a pack of 52 goes in the deal. The bottom 24 cards
/// stay on the stock in place. Pile `i`, counted from zero, gets the top
/// `i + 1` cards of what the piles before it left, in the order in which
/// they lay on the stock, and the topmost of them is turned over.
pub proof fn lemma_deal_positions(stock: Seq<Card>)
    requires
        stock.len() == 52,
    ensures
        dealt(stock).stock == stock.take(24),
        dealt(stock).piles.len() == 7,
        forall|i: int|
            0 <= i < 7 ==> #[trigger] dealt(stock).piles[i] == top_flipped(
                stock.subrange(52 - dealt_before(i + 1), 52 - dealt_before(i)),
                1,
            ),
        forall|i: int| 0 <= i < 7 ==> (#[trigger] dealt(stock).piles[i]).len() == i + 1,
        forall|i: int, j: int|
            0 <= j < i < 7 ==> #[trigger] dealt(stock).piles[i][j] == stock[52 - dealt_before(
                i + 1,
            ) + j],
        forall|i: int|
            0 <= i < 7 ==> (#[trigger] dealt(stock).piles[i])[i] == stock[52 - dealt_before(i + 1)
                + i].flipped(),
{
    lemma_stock_after_piles(stock, 7);
    lemma_dealt_values();
    assert forall|i: int| 0 <= i < 7 implies {
        let pile = #[trigger] dealt(stock).piles[i];
        let first = 52 - dealt_before(i + 1);
        &&& pile == top_flipped(stock.subrange(first, 52 - dealt_before(i)), 1)
        &&& pile.len() == i + 1
        &&& pile[i] == stock[first + i].flipped()
        &&& forall|j: int| 0 <= j < i ==> pile[j] == stock[first + j]
    } by {
        lemma_stock_after_piles(stock, i as nat);
        let before = stock.take(52 - dealt_before(i));
        assert(cards_drawn(before, (i + 1) as nat) =~= stock.subrange(
            52 - dealt_before(i + 1),
            52 - dealt_before(i),
        ));
    }
}

/// The piles before pile `i` get between them 0, 1, 3, 6, 10, 15, 21 and 28
/// cards.
proof fn lemma_dealt_values()
    ensures
        dealt_before(0) == 0,
        dealt_before(1) == 1,
        dealt_before(2) == 3,
        dealt_before(3) == 6,
        dealt_before(4) == 10,
        dealt_before(5) == 15,
        dealt_before(6) == 21,
        dealt_before(7) == 28,
{
}

/// After `n` piles a stock of 52 cards keeps its bottom cards in place: all
/// but those that the piles took.
proof fn lemma_stock_after_piles(stock: Seq<Card>, n: nat)
    requires
        stock.len() == 52,
        n <= 7,
    ensures
        stock_after_piles(stock, n) == stock.take(52 - dealt_before(n as int)),
    decreases n,
{
    lemma_dealt_values();
    if n == 0 {
        assert(stock.take(52) =~= stock);
    } else {
        lemma_stock_after_piles(stock, (n - 1) as nat);
        assert(stock_after_piles(stock, n) =~= stock.take(52 - dealt_before(n as int)));
    }
}

/// The deal from the shuffled pack has the shape of a fresh deal.
pub proof fn lemma_deal_shape(stock: Seq<Card>)
    requires
        stock.to_multiset() == standard_cards().to_multiset(),
    ensures
        freshly_dealt(dealt(stock)),
{
    lemma_shuffled_pack(stock);
    lemma_deal_positions(stock);
    lemma_dealt_values();
}

/// Dealing loses no card and makes none: stock and piles of the deal hold
/// together what the stock held before.
pub proof fn lemma_deal_conserves(stock: Seq<Card>, n: nat)
    ensures
        pack(stock_after_piles(stock, n) + dealt_piles(stock, n).flatten()) == pack(stock),
    decreases n,
{
    if n == 0 {
        assert(dealt_piles(stock, 0) =~= Seq::<Seq<Card>>::empty());
        assert(dealt_piles(stock, 0).flatten() =~= Seq::<Card>::empty());
        assert(stock_after_piles(stock, 0) + Seq::<Card>::empty() =~= stock);
    } else {
        let m = (n - 1) as nat;
        let before = stock_after_piles(stock, m);
        let after = stock_after_piles(stock, n);
        let drawn = cards_drawn(before, n);
        let pile = dealt_pile(stock, m);
        let piles_before = dealt_piles(stock, m);
        lemma_deal_conserves(stock, m);
        assert(dealt_piles(stock, n) =~= piles_before.push(pile));
        piles_before.lemma_flatten_push(pile);
        lemma_pack_flip(drawn, 1, 0);
        lemma_pack_draw(before, n);
        lemma_pack_concat(before, piles_before.flatten());
        lemma_pack_concat(piles_before.flatten(), pile);
        lemma_pack_concat(after, piles_before.flatten() + pile);
    }
}

/// The deal from the shuffled pack is a valid state of a game.
pub proof fn lemma_deal_wf(stock: Seq<Card>)
    requires
        stock.to_multiset() == standard_cards().to_multiset(),
    ensures
        dealt(stock).wf(),
{
    let view = dealt(stock);
    lemma_shuffled_pack(stock);
    lemma_deal_conserves(stock, 7);
    assert(view.all_cards() =~= view.stock + view.piles.flatten());
}

/// The layout for inspection is a valid state of a game.
pub proof fn lemma_laid_out_wf()
    ensures
        laid_out().wf(),
{
    let view = laid_out();
    lemma_flatten_empties(view.piles);
    assert(view.all_cards() =~= standard_cards());
}

/// A valid state stays valid when its stock is replaced by one that holds
/// the same cards at the same positions, whichever way up.
pub proof fn lemma_stock_swap(view: GameView, stock: Seq<Card>)
    requires
        view.wf(),
        identities(stock) == identities(view.stock),
    ensures
        view.with_stock(stock).wf(),
{
    let after = view.with_stock(stock);
    let rest = view.waste + view.foundation(Suite::Hearts) + view.foundation(Suite::Diamonds)
        + view.foundation(Suite::Clubs) + view.foundation(Suite::Spades) + view.piles.flatten();
    assert(view.all_cards() =~= view.stock + rest);
    assert(after.all_cards() =~= stock + rest);
    lemma_pack_concat(view.stock, rest);
    lemma_pack_concat(stock, rest);
}

/// Piles without cards hold no cards between them.
proof fn lemma_flatten_empties(piles: Seq<Seq<Card>>)
    requires
        forall|i: int| 0 <= i < piles.len() ==> (#[trigger] piles[i]).len() == 0,
    ensures
        piles.flatten() == Seq::<Card>::empty(),
    decreases piles.len(),
{
    if piles.len() > 0 {
        lemma_flatten_empties(piles.drop_first());
        assert(piles.first() =~= Seq::<Card>::empty());
    }
}

} // verus!

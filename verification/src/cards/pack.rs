//! Which cards a sequence holds, apart from their order and from the way up
//! each lies, and the laws by which the deck operations keep it.

use crate::cards::card::{Card, Face, Suite};
use crate::cards::deck::{
    all_flipped, cards_drawn, cards_left, lemma_draw_then_add_restores,
    lemma_standard_cards_distinct, standard_cards, top_flipped,
};
use vstd::multiset::Multiset;
use vstd::prelude::*;
use vstd::seq_lib::{lemma_multiset_commutative, to_multiset_insert, to_multiset_remove};

verus! {

/// Suit and face of each card, in the order of `cards`.
pub open spec fn identities(cards: Seq<Card>) -> Seq<(Suite, Face)> {
    cards.map_values(|card: Card| (card.suite, card.face))
}

/// The cards of a sequence as a collection: each suit and face as often as
/// it occurs, without regard to order or to the way up.
pub open spec fn pack(cards: Seq<Card>) -> Multiset<(Suite, Face)> {
    identities(cards).to_multiset()
}

/// Putting one sequence on top of another joins their packs.
pub proof fn lemma_pack_concat(below: Seq<Card>, above: Seq<Card>)
    ensures
        pack(below + above) == pack(below).add(pack(above)),
{
    assert(identities(below + above) =~= identities(below) + identities(above));
    lemma_multiset_commutative(identities(below), identities(above));
}

/// Turning cards over changes no identity: the pack stays, and so does the
/// identity at every position.
pub proof fn lemma_pack_flip(cards: Seq<Card>, count: nat, i: int)
    ensures
        identities(top_flipped(cards, count)) == identities(cards),
        identities(all_flipped(cards)) == identities(cards),
        0 <= i < cards.len() ==> identities(cards.update(i, cards[i].flipped())) == identities(
            cards,
        ),
{
    assert(identities(top_flipped(cards, count)) =~= identities(cards));
    assert(identities(all_flipped(cards)) =~= identities(cards));
    if 0 <= i < cards.len() {
        assert(identities(cards.update(i, cards[i].flipped())) =~= identities(cards));
    }
}

/// A draw drops no card and makes none: what is left and what was drawn
/// are together the pack that was there.
pub proof fn lemma_pack_draw(cards: Seq<Card>, count: nat)
    ensures
        pack(cards_left(cards, count)).add(pack(cards_drawn(cards, count))) == pack(cards),
{
    lemma_draw_then_add_restores(cards, count);
    lemma_pack_concat(cards_left(cards, count), cards_drawn(cards, count));
}

/// Two sequences that hold the same cards the same way up, in whatever
/// order, have the same pack.
pub proof fn lemma_pack_permutation(a: Seq<Card>, b: Seq<Card>)
    requires
        a.to_multiset() == b.to_multiset(),
    ensures
        pack(a) == pack(b),
    decreases a.len(),
{
    a.to_multiset_ensures();
    b.to_multiset_ensures();
    if a.len() == 0 {
        assert(identities(a) =~= identities(b));
    } else {
        let top = a.last();
        let rest = a.drop_last();
        assert(a =~= rest.push(top));
        rest.to_multiset_ensures();
        assert(b.to_multiset().count(top) > 0);
        let j = choose|j: int| 0 <= j < b.len() && b[j] == top;
        let others = b.remove(j);
        to_multiset_remove(b, j);
        assert(rest.to_multiset() =~= a.to_multiset().remove(top));
        lemma_pack_permutation(rest, others);
        let id = (top.suite, top.face);
        assert(identities(a) =~= identities(rest).push(id));
        identities(rest).to_multiset_ensures();
        assert(identities(b) =~= identities(others).insert(j, id));
        to_multiset_insert(identities(others), j, id);
    }
}

/// Whether the card of `suite` and `face` is among `cards`, whichever way
/// up.
pub open spec fn holds_card(cards: Seq<Card>, suite: Suite, face: Face) -> bool {
    exists|i: int| 0 <= i < cards.len() && (#[trigger] cards[i]).suite == suite && cards[i].face
        == face
}

/// Cards that make up the standard pack are 52, no two of them the same
/// card, and every suit and face is among them.
pub proof fn lemma_full_pack(cards: Seq<Card>)
    requires
        pack(cards) == pack(standard_cards()),
    ensures
        cards.len() == 52,
        forall|i: int, j: int|
            0 <= i < 52 && 0 <= j < 52 && i != j ==> !(#[trigger] cards[i]).same_card(
                #[trigger] cards[j],
            ),
        forall|suite: Suite, face: Face| #[trigger] holds_card(cards, suite, face),
{
    let ids = identities(cards);
    let all = identities(standard_cards());
    lemma_standard_cards_distinct();
    ids.to_multiset_ensures();
    all.to_multiset_ensures();
    assert(all.no_duplicates()) by {
        assert forall|i: int, j: int|
            0 <= i < all.len() && 0 <= j < all.len() && i != j implies all[i] != all[j] by {
            assert(!standard_cards()[i].same_card(standard_cards()[j]));
        }
    }
    all.lemma_multiset_has_no_duplicates();
    ids.lemma_multiset_has_no_duplicates_conv();
    assert forall|i: int, j: int|
        0 <= i < 52 && 0 <= j < 52 && i != j implies !(#[trigger] cards[i]).same_card(
        #[trigger] cards[j],
    ) by {
        assert(ids[i] != ids[j]);
    }
    assert forall|suite: Suite, face: Face| #[trigger] holds_card(cards, suite, face) by {
        let k = suite.spec_index() * 13 + face.spec_rank();
        assert(standard_cards()[k] == Card { suite, face, face_up: false });
        assert(all[k] == (suite, face));
        assert(all.contains((suite, face)));
        assert(ids.to_multiset().count((suite, face)) > 0);
        assert(ids.contains((suite, face)));
        let i = choose|i: int| 0 <= i < ids.len() && ids[i] == (suite, face);
        assert(cards[i].suite == suite && cards[i].face == face);
    }
}

} // verus!

//! Playing cards and the ordered decks that hold them.

mod card;
mod deck;
mod pack;

pub use card::{Card, Face, Suite};
pub use deck::{
    all_flipped, cards_drawn, cards_left, drawn_len, lemma_draw_splits,
    lemma_draw_then_add_restores, lemma_flip_short_deck, lemma_flip_twice,
    lemma_standard_cards_distinct, standard_card, standard_cards, top_flipped, Deck,
};
pub use pack::{
    holds_card, identities, lemma_full_pack, lemma_pack_concat, lemma_pack_draw, lemma_pack_flip,
    lemma_pack_permutation, pack,
};

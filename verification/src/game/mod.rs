//! The state of a game: its mode, the foundations and the deal.

mod foundation;
mod layout;
mod mode;
mod state;

pub use foundation::{
    accepted_count, is_run, lemma_draw_from_run, lemma_placement_on_run, placement, suite_label,
    Foundation, KlondikeDeckError,
};
pub use layout::{
    dealt, dealt_before, dealt_pile, dealt_piles, freshly_dealt, laid_out, lemma_deal_conserves,
    lemma_deal_positions, lemma_deal_shape, lemma_deal_wf, lemma_laid_out_wf,
    lemma_shuffled_pack, lemma_stock_swap, stock_after_piles, GameView,
};
pub use mode::GameMode;
pub use state::{key_recognized, KlondikeGame};

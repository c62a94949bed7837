//! Rules engine for Klondike solitaire: the cards, the decks that hold them,
//! the suit-locked foundations and the state of a game, with what a front
//! end needs to show a game and to feed it key presses.

pub mod cards;
pub mod game;
mod random;
pub mod screen;
pub mod ui;

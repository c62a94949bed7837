//! What a front end exchanges with a game: key presses in, a view of the
//! state out. The front end itself lives outside this crate.

use crate::game::KlondikeGame;
use vstd::prelude::*;

verus! {

/// Why a front end could not do what was asked of it.
#[derive(Debug)]
pub enum UIError {
    /// The display could not be set up; the text says why.
    UnableToCreateUI(String),
    /// No key was pressed since the last poll.
    NoInput,
    /// Anything else.
    Generic,
}

/// One key press.
pub struct UIInput {
    pub key: char,
}

impl UIInput {
    /// Whether the key asks to leave: `q` does, after the game has seen it.
    pub fn is_quit(&self) -> (quit: bool)
        ensures
            quit == (self.key == 'q'),
    {
        self.key == 'q'
    }
}

/// A front end for a game. It reads the state and never changes it.
pub trait RendersKlondikeUI {
    /// The next key press, or `NoInput` where none is waiting.
    fn poll_for_input(&self) -> Result<UIInput, UIError>;

    /// Draws a game in play.
    fn render_game(&mut self, game: &KlondikeGame) -> Result<(), UIError>;

    /// Draws every card of the stock, for inspection.
    fn render_cards(&mut self, game: &KlondikeGame) -> Result<(), UIError>;

    /// Gives the display back.
    fn shutdown(&self);
}

} // verus!

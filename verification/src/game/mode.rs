//! The mode of a game and the name that selects it.

use vstd::prelude::*;
use vstd::string::StringExecFns;
use vstd::utf8::{encode_utf8, encode_utf8_decode_utf8};

verus! {

/// How a game runs: `Game` is play, `RenderCards` lays out the whole pack
/// for inspection.
#[derive(Copy, Clone, Debug, PartialEq, Eq, Structural)]
pub enum GameMode {
    Game,
    RenderCards,
}

/// Whether two strings hold the same characters.
fn same_text(a: &str, b: &str) -> (same: bool)
    ensures
        same == (a@ == b@),
{
    let x = a.as_bytes();
    let y = b.as_bytes();
    if x.len() != y.len() {
        return false;
    }
    let mut i: usize = 0;
    while i < x.len()
        invariant
            i <= x@.len(),
            x@.len() == y@.len(),
            x@ == encode_utf8(a@),
            y@ == encode_utf8(b@),
            forall|k: int| 0 <= k < i ==> x@[k] == y@[k],
        decreases x@.len() - i,
    {
        if x[i] != y[i] {
            return false;
        }
        i += 1;
    }
    proof {
        assert(x@ =~= y@);
        encode_utf8_decode_utf8(a@);
        encode_utf8_decode_utf8(b@);
    }
    true
}

impl GameMode {
    /// The text that an unknown mode name is refused with.
    pub open spec fn invalid_mode_message(mode: Seq<char>) -> Seq<char> {
        "Invalid run mode: "@ + mode
    }

    /// The mode that a name selects, or none for a name that selects nothing.
    pub open spec fn spec_from_string(mode: Seq<char>) -> Option<GameMode> {
        if mode == "game"@ {
            Some(GameMode::Game)
        } else if mode == "render_cards"@ {
            Some(GameMode::RenderCards)
        } else {
            None
        }
    }

    /// Resolves a mode name: `"game"` is play, `"render_cards"` the
    /// inspection mode. Any other name is refused with a message that
    /// repeats it.
    pub fn from_string(mode: &str) -> (r: Result<GameMode, String>)
        ensures
            match GameMode::spec_from_string(mode@) {
                Some(m) => r == Ok::<GameMode, String>(m),
                None => r is Err && r->Err_0@ == GameMode::invalid_mode_message(mode@),
            },
    {
        if same_text(mode, "game") {
            Ok(GameMode::Game)
        } else if same_text(mode, "render_cards") {
            Ok(GameMode::RenderCards)
        } else {
            Err(String::from_str("Invalid run mode: ").concat(mode))
        }
    }
}

} // verus!

//! Where cards and decks go on a screen of character cells. Nothing here
//! draws: a front end asks for positions and areas and paints them.

use crate::cards::{Card, Deck};
use vstd::arithmetic::div_mod::lemma_fundamental_div_mod_converse;
use vstd::prelude::*;
use vstd::string::StringExecFns;

verus! {

/// A position on the screen, or a size, in cells.
#[derive(Copy, Clone, Debug, PartialEq, Eq, Structural)]
pub struct Vector {
    pub x: i32,
    pub y: i32,
}

/// A rectangle of cells.
#[derive(Copy, Clone, Debug, PartialEq, Eq, Structural)]
pub struct Area {
    pub x: u16,
    pub y: u16,
    pub width: u16,
    pub height: u16,
}

/// Width of a card, in cells.
pub const CARD_WIDTH: i32 = 8;

/// Height of a card, in cells.
pub const CARD_HEIGHT: i32 = 7;

/// Width of the frame round a deck: a card and a border cell on either side.
pub const DECK_WIDTH: i32 = 10;

/// Height of the frame round a deck.
pub const DECK_HEIGHT: i32 = 9;

/// The smaller of two numbers.
pub open spec fn smaller(a: int, b: int) -> int {
    if a <= b {
        a
    } else {
        b
    }
}

/// The cells that a card at `position` covers on a screen of the given
/// size: the card's own size, cut off at the right and bottom edges. A card
/// whose corner lies off the screen covers nothing.
pub open spec fn spec_card_area(position: Vector, width: u16, height: u16) -> Option<Area> {
    if 0 <= position.x <= width && 0 <= position.y <= height {
        Some(
            Area {
                x: position.x as u16,
                y: position.y as u16,
                width: smaller(CARD_WIDTH as int, width - position.x) as u16,
                height: smaller(CARD_HEIGHT as int, height - position.y) as u16,
            },
        )
    } else {
        None
    }
}

/// The cells that a card at `position` covers on a screen of `width` by
/// `height` cells.
pub fn card_area(position: Vector, width: u16, height: u16) -> (area: Option<Area>)
    ensures
        area == spec_card_area(position, width, height),
        area is Some ==> area->Some_0.x + area->Some_0.width <= width && area->Some_0.y
            + area->Some_0.height <= height,
{
    if position.x < 0 || position.y < 0 || position.x > width as i32 || position.y
        > height as i32 {
        return None;
    }
    let x = position.x as u16;
    let y = position.y as u16;

    let mut card_width = CARD_WIDTH as u16;
    let mut card_height = CARD_HEIGHT as u16;

    if card_width > width - x {
        card_width = width - x;
    }
    if card_height > height - y {
        card_height = height - y;
    }
    Some(Area { x, y, width: card_width, height: card_height })
}

/// How many cards fit side by side on a screen `width` cells wide. A screen
/// too narrow for one card still shows one per row, cut off.
pub open spec fn grid_columns(width: u16) -> int {
    if width as int / CARD_WIDTH as int >= 1 {
        width as int / CARD_WIDTH as int
    } else {
        1
    }
}

/// How many rows of whole cards fit on a screen `height` cells high.
pub open spec fn grid_rows(height: u16) -> int {
    height as int / CARD_HEIGHT as int
}

/// The corner of cell `i` of the grid, counted row by row from the top
/// left.
pub open spec fn grid_cell(i: int, width: u16) -> Vector {
    Vector {
        x: (CARD_WIDTH * (i % grid_columns(width))) as i32,
        y: (CARD_HEIGHT * (i / grid_columns(width))) as i32,
    }
}

/// How many of `count` cards the grid shows: as many as fit in whole rows,
/// and the first card in any case.
pub open spec fn grid_shown(count: nat, width: u16, height: u16) -> nat {
    let room = grid_columns(width) * grid_rows(height);
    if count == 0 {
        0
    } else if room < 1 {
        1
    } else {
        smaller(count as int, room) as nat
    }
}

/// Cards laid out row by row.
pub struct CardGrid {
    /// The corner of each card that is shown, first card first.
    pub cells: Vec<Vector>,
    /// The corner of the cell after the last card shown.
    pub cursor: Vector,
}

/// Lays `count` cards out on a screen of `width` by `height` cells, row by
/// row from the top left, and stops when the next row would not fit.
pub fn card_grid(count: usize, width: u16, height: u16) -> (grid: CardGrid)
    ensures
        grid.cells@.len() == grid_shown(count as nat, width, height),
        forall|i: int| 0 <= i < grid.cells@.len() ==> grid.cells@[i] == grid_cell(i, width),
        grid.cursor == grid_cell(grid.cells@.len() as int, width),
{
    let ghost cols = grid_columns(width);
    let ghost rows = grid_rows(height);
    let ghost col: int = 0;
    let ghost row: int = 0;
    let mut cells: Vec<Vector> = Vec::new();
    let mut x: i32 = 0;
    let mut y: i32 = 0;
    let mut i: usize = 0;
    proof {
        assert(0 * cols == 0) by (nonlinear_arith);
    }
    while i < count
        invariant_except_break
            i == 0 || row < rows,
        invariant
            cols == grid_columns(width),
            rows == grid_rows(height),
            i <= count,
            cells@.len() == i,
            0 <= col < cols,
            0 <= row,
            i == row * cols + col,
            x == CARD_WIDTH * col,
            y == CARD_HEIGHT * row,
            x <= width,
            i == 0 || i <= cols * rows || i == 1,
            forall|k: int| 0 <= k < i ==> cells@[k] == grid_cell(k, width),
        ensures
            i == grid_shown(count as nat, width, height),
        decreases count - i,
    {
        proof {
            lemma_fundamental_div_mod_converse(i as int, cols, row, col);
        }
        cells.push(Vector { x, y });
        x += CARD_WIDTH;
        proof {
            col = col + 1;
        }
        // Wrap to next line...
        if x + CARD_WIDTH > width as i32 {
            x = 0;
            y += CARD_HEIGHT;
            proof {
                assert((row + 1) * cols == row * cols + cols) by (nonlinear_arith);
                col = 0;
                row = row + 1;
            }
        }
        proof {
            if i != 0 {
                assert(row * cols + col <= cols * rows) by (nonlinear_arith)
                    requires
                        0 <= col < cols,
                        0 <= row,
                        row < rows || (col == 0 && row == rows),
                ;
            }
            assert(row >= rows ==> row * cols + col >= cols * rows) by (nonlinear_arith)
                requires
                    0 <= col < cols,
                    0 <= rows,
            ;
        }
        i += 1;
        // No more space, bail...
        if y + CARD_HEIGHT > height as i32 {
            break;
        }
        proof {
            assert(row < rows ==> row * cols + col < cols * rows) by (nonlinear_arith)
                requires
                    0 <= col < cols,
                    0 <= row,
            ;
        }
    }
    proof {
        lemma_fundamental_div_mod_converse(i as int, cols, row, col);
    }
    CardGrid { cells, cursor: Vector { x, y } }
}

/// The colour that a card is painted in.
#[derive(Copy, Clone, Debug, PartialEq, Eq, Structural)]
pub enum Ink {
    /// The back of a card.
    Blue,
    /// The face of a heart or a diamond.
    Red,
    /// The face of a club or a spade.
    Black,
}

/// The colour of a card as it lies: its back is blue, its face has the
/// colour of its suit.
pub open spec fn spec_card_ink(card: Card) -> Ink {
    if !card.face_up {
        Ink::Blue
    } else if card.suite.spec_is_red() {
        Ink::Red
    } else {
        Ink::Black
    }
}

/// The colour of a card as it lies.
pub fn card_ink(card: &Card) -> (ink: Ink)
    ensures
        ink == spec_card_ink(*card),
{
    if !card.face_up {
        Ink::Blue
    } else if card.suite.is_red() {
        Ink::Red
    } else {
        Ink::Black
    }
}

/// What is written on the face of a card: its face, then the pip of its
/// suit.
pub fn card_caption(card: &Card) -> (caption: String)
    ensures
        caption@ == card.face.spec_label() + card.suite.spec_symbol(),
{
    String::from_str(card.face.label()).concat(card.suite.symbol())
}

/// The frame round a deck whose corner is at `position`, or none where the
/// corner lies outside the range of screen coordinates.
pub open spec fn spec_deck_area(position: Vector) -> Option<Area> {
    if 0 <= position.x <= u16::MAX && 0 <= position.y <= u16::MAX {
        Some(
            Area {
                x: position.x as u16,
                y: position.y as u16,
                width: DECK_WIDTH as u16,
                height: DECK_HEIGHT as u16,
            },
        )
    } else {
        None
    }
}

/// The frame round a deck whose corner is at `position`.
pub fn deck_area(position: Vector) -> (area: Option<Area>)
    ensures
        area == spec_deck_area(position),
{
    if position.x < 0 || position.y < 0 || position.x > u16::MAX as i32 || position.y
        > u16::MAX as i32 {
        return None;
    }
    Some(
        Area {
            x: position.x as u16,
            y: position.y as u16,
            width: DECK_WIDTH as u16,
            height: DECK_HEIGHT as u16,
        },
    )
}

/// Where the next deck goes after one at `position` on a screen `width`
/// cells wide: to its right, or at the start of the next row of cards where
/// the screen has no room for it there.
pub open spec fn spec_deck_cell_after(position: Vector, width: u16) -> Vector {
    if position.x + DECK_WIDTH + DECK_WIDTH > width {
        Vector { x: 0, y: (position.y + CARD_HEIGHT) as i32 }
    } else {
        Vector { x: (position.x + DECK_WIDTH) as i32, y: position.y }
    }
}

/// Where the next deck goes after one at `position`.
pub fn deck_cell_after(position: Vector, width: u16) -> (next: Vector)
    requires
        position.x + DECK_WIDTH + DECK_WIDTH <= i32::MAX,
        position.y + CARD_HEIGHT <= i32::MAX,
    ensures
        next == spec_deck_cell_after(position, width),
{
    let mut x = position.x;
    let mut y = position.y;
    x += DECK_WIDTH;
    if x + DECK_WIDTH > width as i32 {
        x = 0;
        y += CARD_HEIGHT;
    }
    Vector { x, y }
}

/// How far the card after card `i` of a stack sits below it. A face-up
/// card leaves two rows for its caption. A face-down card leaves one row
/// where the next card is face up, so that it shows from under it, and none
/// otherwise.
pub open spec fn stack_step(cards: Seq<Card>, i: int) -> int {
    if cards[i].face_up {
        2
    } else if i + 1 < cards.len() && cards[i + 1].face_up {
        1
    } else {
        0
    }
}

/// How far card `i` of a stack sits below the first: the steps of all
/// cards under it.
pub open spec fn stack_offset(cards: Seq<Card>, i: int) -> int
    decreases i,
{
    if i <= 0 {
        0
    } else {
        stack_offset(cards, i - 1) + stack_step(cards, i - 1)
    }
}

/// No card of a stack sits more than two rows below the one before it.
pub proof fn lemma_stack_offset_bounds(cards: Seq<Card>, i: int)
    requires
        0 <= i <= cards.len(),
    ensures
        0 <= stack_offset(cards, i) <= 2 * i,
    decreases i,
{
    if i > 0 {
        lemma_stack_offset_bounds(cards, i - 1);
    }
}

/// The corner of each card of `deck` when the deck is drawn as a stack
/// inside its frame at `position`, bottom card first: one cell in from the
/// frame's corner, each card below the one before it by its step.
pub fn stack_cells(deck: &Deck, position: Vector) -> (cells: Vec<Vector>)
    requires
        position.x + 1 <= i32::MAX,
        position.y + 1 + 2 * deck@.len() <= i32::MAX,
    ensures
        cells@.len() == deck@.len(),
        forall|i: int|
            0 <= i < cells@.len() ==> cells@[i] == (Vector {
                x: (position.x + 1) as i32,
                y: (position.y + 1 + stack_offset(deck@, i)) as i32,
            }),
{
    let card_x = position.x + (DECK_WIDTH - CARD_WIDTH) / 2;
    let mut card_y = position.y + (DECK_HEIGHT - CARD_HEIGHT) / 2;
    let mut cells: Vec<Vector> = Vec::new();
    let mut i: usize = 0;
    while i < deck.cards.len()
        invariant
            i <= deck@.len(),
            cells@.len() == i,
            card_x == position.x + 1,
            card_y == position.y + 1 + stack_offset(deck@, i as int),
            position.y + 1 + 2 * deck@.len() <= i32::MAX,
            forall|k: int|
                0 <= k < i ==> cells@[k] == (Vector {
                    x: (position.x + 1) as i32,
                    y: (position.y + 1 + stack_offset(deck@, k)) as i32,
                }),
        decreases deck@.len() - i,
    {
        let card = &deck.cards[i];
        cells.push(Vector { x: card_x, y: card_y });
        proof {
            lemma_stack_offset_bounds(deck@, i as int);
        }
        // If this card is face up, give enough space for the caption.
        if card.face_up {
            card_y += 2;
        } else {
            // If it is not, and the next one is, give a bump so that the
            // cards under the next one show.
            let next_index = i + 1;
            if next_index < deck.cards.len() && deck.cards[next_index].face_up {
                card_y += 1;
            }
        }
        i += 1;
    }
    cells
}

} // verus!

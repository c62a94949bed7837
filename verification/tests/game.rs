use klondike::cards::{Deck, Face, Suite};
use klondike::game::{GameMode, KlondikeGame};
use klondike::ui::{RendersKlondikeUI, UIError, UIInput};

const ALL_SUITES: [Suite; 4] = [Suite::Hearts, Suite::Diamonds, Suite::Clubs, Suite::Spades];

fn cards_of(deck: &Deck) -> Vec<(Suite, Face, bool)> {
    deck.cards.iter().map(|c| (c.suite, c.face, c.face_up)).collect()
}

fn every_card(game: &KlondikeGame) -> Vec<(usize, u8)> {
    let mut all: Vec<(usize, u8)> = Vec::new();
    let mut decks: Vec<&Deck> = vec![game.stock(), game.waste()];
    for suite in ALL_SUITES {
        if let Some(foundation) = game.foundation(suite) {
            decks.push(foundation.deck());
        }
    }
    for pile in game.piles().iter() {
        decks.push(pile);
    }
    for deck in decks {
        for c in deck.cards.iter() {
            all.push((c.suite.index(), c.face.rank()));
        }
    }
    all.sort();
    all
}

fn whole_pack() -> Vec<(usize, u8)> {
    let mut all = Vec::new();
    for s in 0..4usize {
        for f in 0..13u8 {
            all.push((s, f));
        }
    }
    all
}

fn press(game: &mut KlondikeGame, key: char) -> bool {
    game.send_input(&UIInput { key })
}

fn face_up_flags(game: &KlondikeGame) -> Vec<bool> {
    game.stock().cards.iter().map(|c| c.face_up).collect()
}

#[test]
fn mode_names_are_resolved() {
    assert_eq!(GameMode::from_string("game"), Ok(GameMode::Game));
    assert_eq!(GameMode::from_string("render_cards"), Ok(GameMode::RenderCards));
}

#[test]
fn unknown_mode_names_are_refused_with_a_message() {
    assert_eq!(GameMode::from_string("demo"), Err(String::from("Invalid run mode: demo")));
    assert_eq!(GameMode::from_string(""), Err(String::from("Invalid run mode: ")));
    assert_eq!(GameMode::from_string("Game"), Err(String::from("Invalid run mode: Game")));
    assert_eq!(GameMode::from_string("game "), Err(String::from("Invalid run mode: game ")));
    assert_eq!(GameMode::from_string("gam"), Err(String::from("Invalid run mode: gam")));
    assert_eq!(
        GameMode::from_string("render-cards"),
        Err(String::from("Invalid run mode: render-cards"))
    );
    assert_eq!(
        GameMode::from_string("sp\u{e9}cial \u{2660}"),
        Err(String::from("Invalid run mode: sp\u{e9}cial \u{2660}"))
    );
}

#[test]
fn inspection_game_lays_the_pack_out_on_the_stock() {
    let game = KlondikeGame::new(GameMode::RenderCards);
    assert_eq!(game.game_mode(), GameMode::RenderCards);
    assert_eq!(cards_of(game.stock()), cards_of(&Deck::new_standard_deck()));
    assert_eq!(game.stock().cards.len(), 52);
    assert_eq!(game.stock().name, "Stock");
    assert!(game.waste().cards.is_empty());
    assert_eq!(game.waste().name, "Waste");
    for suite in ALL_SUITES {
        assert!(game.foundation(suite).is_none());
    }
    assert_eq!(game.piles().len(), 7);
    for pile in game.piles().iter() {
        assert!(pile.cards.is_empty());
    }
}

#[test]
fn inspection_games_always_start_the_same() {
    let a = KlondikeGame::new(GameMode::RenderCards);
    let b = KlondikeGame::new(GameMode::RenderCards);
    assert_eq!(cards_of(a.stock()), cards_of(b.stock()));
    assert_eq!(cards_of(a.stock())[0], (Suite::Hearts, Face::Ace, false));
    assert_eq!(cards_of(a.stock())[51], (Suite::Spades, Face::King, false));
}

#[test]
fn new_game_deals_the_triangle() {
    for _ in 0..10 {
        let game = KlondikeGame::new(GameMode::Game);
        assert_eq!(game.game_mode(), GameMode::Game);
        for (i, pile) in game.piles().iter().enumerate() {
            assert_eq!(pile.cards.len(), i + 1);
            for (j, c) in pile.cards.iter().enumerate() {
                assert_eq!(c.face_up, j == i, "pile {} card {}", i, j);
            }
        }
        assert_eq!(game.stock().cards.len(), 24);
        assert!(game.stock().cards.iter().all(|c| !c.face_up));
        assert!(game.waste().cards.is_empty());
        for suite in ALL_SUITES {
            let foundation = game.foundation(suite).expect("a game in play has every foundation");
            assert_eq!(foundation.suite(), suite);
            assert!(foundation.deck().cards.is_empty());
        }
    }
}

#[test]
fn new_game_holds_every_card_once() {
    let game = KlondikeGame::new(GameMode::Game);
    assert_eq!(every_card(&game), whole_pack());
    assert_eq!(every_card(&game).len(), 52);
}

#[test]
fn new_game_labels_its_decks() {
    let game = KlondikeGame::new(GameMode::Game);
    assert_eq!(game.stock().name, "Stock");
    assert_eq!(game.waste().name, "Waste");
    assert_eq!(game.foundation(Suite::Hearts).unwrap().deck().name, "Hearts");
    assert_eq!(game.foundation(Suite::Diamonds).unwrap().deck().name, "Diamonds");
    assert_eq!(game.foundation(Suite::Clubs).unwrap().deck().name, "Clubs");
    assert_eq!(game.foundation(Suite::Spades).unwrap().deck().name, "Spades");
    for pile in game.piles().iter() {
        assert_eq!(pile.name, "");
    }
}

#[test]
fn new_games_are_shuffled() {
    let first = KlondikeGame::new(GameMode::Game);
    let mut differs = false;
    for _ in 0..8 {
        let other = KlondikeGame::new(GameMode::Game);
        if cards_of(other.stock()) != cards_of(first.stock()) {
            differs = true;
        }
    }
    assert!(differs);
}

#[test]
fn deal_from_the_unshuffled_pack_is_exact() {
    let game = KlondikeGame::deal(Deck::new_standard_deck());
    assert_eq!(game.game_mode(), GameMode::Game);

    let pack = cards_of(&Deck::new_standard_deck());
    assert_eq!(cards_of(game.stock()), pack[..24].to_vec());
    assert_eq!(cards_of(game.stock())[23], (Suite::Diamonds, Face::Jack, false));

    let piles = game.piles();
    assert_eq!(cards_of(&piles[0]), vec![(Suite::Spades, Face::King, true)]);
    assert_eq!(
        cards_of(&piles[1]),
        vec![(Suite::Spades, Face::Jack, false), (Suite::Spades, Face::Queen, true)]
    );
    assert_eq!(
        cards_of(&piles[2]),
        vec![
            (Suite::Spades, Face::Eight, false),
            (Suite::Spades, Face::Nine, false),
            (Suite::Spades, Face::Ten, true)
        ]
    );
    assert_eq!(
        cards_of(&piles[6]),
        vec![
            (Suite::Diamonds, Face::Queen, false),
            (Suite::Diamonds, Face::King, false),
            (Suite::Clubs, Face::Ace, false),
            (Suite::Clubs, Face::Two, false),
            (Suite::Clubs, Face::Three, false),
            (Suite::Clubs, Face::Four, false),
            (Suite::Clubs, Face::Five, true)
        ]
    );

    let mut top = 52usize;
    for (i, pile) in piles.iter().enumerate() {
        let first = top - (i + 1);
        for (j, c) in cards_of(pile).into_iter().enumerate() {
            let from = pack[first + j];
            assert_eq!(c, (from.0, from.1, j == i));
        }
        top = first;
    }
    assert_eq!(top, 24);
    assert_eq!(every_card(&game), whole_pack());
}

#[test]
fn deal_follows_the_stock_it_is_given() {
    let mut stock = Deck::new_standard_deck();
    stock.shuffle();
    stock.name = String::from("anything");
    let order = cards_of(&stock);
    let game = KlondikeGame::deal(stock);
    assert_eq!(game.stock().name, "Stock");
    assert_eq!(cards_of(game.stock()), order[..24].to_vec());
    let mut top = 52usize;
    for (i, pile) in game.piles().iter().enumerate() {
        assert_eq!(pile.cards.len(), i + 1);
        let first = top - (i + 1);
        for (j, c) in cards_of(pile).into_iter().enumerate() {
            let from = order[first + j];
            assert_eq!(c, (from.0, from.1, j == i));
        }
        top = first;
    }
    assert_eq!(cards_of(&game.piles()[0])[0].0, order[51].0);
    assert_eq!(cards_of(&game.piles()[0])[0].1, order[51].1);
    assert!(game.waste().cards.is_empty());
    for suite in ALL_SUITES {
        assert!(game.foundation(suite).unwrap().deck().cards.is_empty());
    }
}

#[test]
fn game_in_play_knows_no_key() {
    let mut game = KlondikeGame::deal(Deck::new_standard_deck());
    let stock = cards_of(game.stock());
    let piles: Vec<_> = game.piles().iter().map(cards_of).collect();
    for key in ['f', 'g', 'r', 'q', ' ', 'F', '1', '\u{2665}'] {
        assert!(!press(&mut game, key));
    }
    assert_eq!(cards_of(game.stock()), stock);
    assert_eq!(game.piles().iter().map(cards_of).collect::<Vec<_>>(), piles);
    assert!(game.waste().cards.is_empty());
    assert_eq!(every_card(&game), whole_pack());
}

#[test]
fn key_f_turns_the_whole_stock_over() {
    let mut game = KlondikeGame::new(GameMode::RenderCards);
    assert!(press(&mut game, 'f'));
    assert_eq!(face_up_flags(&game), vec![true; 52]);
    assert!(press(&mut game, 'f'));
    assert_eq!(face_up_flags(&game), vec![false; 52]);
}

#[test]
fn key_g_turns_the_top_three_stock_cards_over() {
    let mut game = KlondikeGame::new(GameMode::RenderCards);
    assert!(press(&mut game, 'g'));
    let mut expected = vec![false; 52];
    expected[49] = true;
    expected[50] = true;
    expected[51] = true;
    assert_eq!(face_up_flags(&game), expected);

    assert!(press(&mut game, 'f'));
    let turned: Vec<bool> = expected.iter().map(|up| !up).collect();
    assert_eq!(face_up_flags(&game), turned);

    assert!(press(&mut game, 'g'));
    assert_eq!(face_up_flags(&game), vec![true; 52]);
}

#[test]
fn key_r_turns_exactly_one_stock_card_over() {
    let mut game = KlondikeGame::new(GameMode::RenderCards);
    for _ in 0..200 {
        let before = face_up_flags(&game);
        assert!(press(&mut game, 'r'));
        let after = face_up_flags(&game);
        let changed = before.iter().zip(after.iter()).filter(|(a, b)| a != b).count();
        assert_eq!(changed, 1);
    }
}

#[test]
fn key_r_reaches_more_than_one_position() {
    let mut game = KlondikeGame::new(GameMode::RenderCards);
    let mut seen = vec![false; 52];
    for _ in 0..400 {
        let before = face_up_flags(&game);
        press(&mut game, 'r');
        let after = face_up_flags(&game);
        let at = (0..52).find(|&i| before[i] != after[i]).unwrap();
        seen[at] = true;
    }
    assert!(seen.iter().filter(|s| **s).count() > 1);
}

#[test]
fn other_keys_are_ignored_under_inspection() {
    let mut game = KlondikeGame::new(GameMode::RenderCards);
    press(&mut game, 'g');
    let before = cards_of(game.stock());
    for key in ['q', 'F', 'G', 'R', ' ', 'x', '3', '\n', '\u{2660}'] {
        assert!(!press(&mut game, key));
    }
    assert_eq!(cards_of(game.stock()), before);
}

#[test]
fn inspection_never_moves_a_card() {
    let mut game = KlondikeGame::new(GameMode::RenderCards);
    let canonical: Vec<(Suite, Face)> =
        Deck::new_standard_deck().cards.iter().map(|c| (c.suite, c.face)).collect();
    for key in ['f', 'g', 'r', 'r', 'x', 'g', 'f', 'r'] {
        press(&mut game, key);
        let now: Vec<(Suite, Face)> =
            game.stock().cards.iter().map(|c| (c.suite, c.face)).collect();
        assert_eq!(now, canonical);
        assert!(game.waste().cards.is_empty());
        assert!(game.piles().iter().all(|p| p.cards.is_empty()));
        for suite in ALL_SUITES {
            assert!(game.foundation(suite).is_none());
        }
    }
}

#[test]
fn flip_stock_card_turns_the_card_at_the_index() {
    let mut game = KlondikeGame::new(GameMode::RenderCards);
    game.flip_stock_card(0);
    game.flip_stock_card(17);
    game.flip_stock_card(51);
    let mut expected = vec![false; 52];
    expected[0] = true;
    expected[17] = true;
    expected[51] = true;
    assert_eq!(face_up_flags(&game), expected);
    game.flip_stock_card(17);
    expected[17] = false;
    assert_eq!(face_up_flags(&game), expected);
}

#[test]
fn flip_stock_card_past_the_top_changes_nothing() {
    let mut game = KlondikeGame::new(GameMode::RenderCards);
    game.flip_stock_card(52);
    game.flip_stock_card(usize::MAX);
    assert_eq!(face_up_flags(&game), vec![false; 52]);

    let mut play = KlondikeGame::deal(Deck::new_standard_deck());
    play.flip_stock_card(24);
    assert!(play.stock().cards.iter().all(|c| !c.face_up));
    play.flip_stock_card(23);
    assert!(play.stock().cards[23].face_up);
    assert_eq!(every_card(&play), whole_pack());
}

struct Script {
    keys: Vec<char>,
    drawn: usize,
}

impl RendersKlondikeUI for Script {
    fn poll_for_input(&self) -> Result<UIInput, UIError> {
        match self.keys.get(self.drawn) {
            Some(key) => Ok(UIInput { key: *key }),
            None => Err(UIError::NoInput),
        }
    }

    fn render_game(&mut self, game: &KlondikeGame) -> Result<(), UIError> {
        if game.game_mode() == GameMode::Game {
            self.drawn += 1;
            Ok(())
        } else {
            Err(UIError::Generic)
        }
    }

    fn render_cards(&mut self, game: &KlondikeGame) -> Result<(), UIError> {
        if game.game_mode() == GameMode::RenderCards {
            self.drawn += 1;
            Ok(())
        } else {
            Err(UIError::UnableToCreateUI(String::from("not under inspection")))
        }
    }

    fn shutdown(&self) {}
}

#[test]
fn front_end_feeds_keys_and_reads_the_game() {
    let mut ui = Script { keys: vec!['g', 'x'], drawn: 0 };
    let mut game = KlondikeGame::new(GameMode::RenderCards);
    let mut known = Vec::new();
    loop {
        match ui.poll_for_input() {
            Ok(input) => known.push(game.send_input(&input)),
            Err(UIError::NoInput) => break,
            Err(other) => panic!("{:?}", other),
        }
        assert!(ui.render_cards(&game).is_ok());
    }
    assert_eq!(known, vec![true, false]);
    assert!(matches!(ui.render_game(&game), Err(UIError::Generic)));
    assert!(game.stock().cards[51].face_up);
    ui.shutdown();
}

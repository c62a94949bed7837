use klondike::cards::{Card, Face, Suite};
use klondike::game::{Foundation, KlondikeDeckError};

fn face_down(suite: Suite, face: Face) -> Card {
    Card { suite, face, face_up: false }
}

fn faces_on(foundation: &Foundation) -> Vec<Face> {
    foundation.deck().cards.iter().map(|c| c.face).collect()
}

#[test]
fn new_foundation_is_empty_and_labelled_after_its_suit() {
    let hearts = Foundation::new(Suite::Hearts);
    assert!(hearts.deck().cards.is_empty());
    assert_eq!(hearts.suite(), Suite::Hearts);
    assert_eq!(hearts.deck().name, "Hearts");
    assert_eq!(Foundation::new(Suite::Diamonds).deck().name, "Diamonds");
    assert_eq!(Foundation::new(Suite::Clubs).deck().name, "Clubs");
    assert_eq!(Foundation::new(Suite::Spades).deck().name, "Spades");
}

#[test]
fn foundation_accepts_only_the_next_rank_of_its_suit() {
    let mut spades = Foundation::new(Suite::Spades);
    assert_eq!(spades.add_card(face_down(Suite::Spades, Face::Ace)), Ok(()));
    assert_eq!(
        spades.add_card(face_down(Suite::Spades, Face::Three)),
        Err(KlondikeDeckError::InvalidCardOrder)
    );
    assert_eq!(spades.add_card(face_down(Suite::Spades, Face::Two)), Ok(()));
    assert_eq!(
        spades.add_card(face_down(Suite::Hearts, Face::Two)),
        Err(KlondikeDeckError::InvalidSuite)
    );
    assert_eq!(faces_on(&spades), vec![Face::Ace, Face::Two]);
}

#[test]
fn foundation_refuses_another_suit_whatever_its_top_card() {
    let mut spades = Foundation::new(Suite::Spades);
    assert_eq!(
        spades.add_card(face_down(Suite::Hearts, Face::Ace)),
        Err(KlondikeDeckError::InvalidSuite)
    );
    assert_eq!(
        spades.add_card(face_down(Suite::Hearts, Face::Two)),
        Err(KlondikeDeckError::InvalidSuite)
    );
    assert_eq!(spades.add_card(face_down(Suite::Spades, Face::Ace)), Ok(()));
    assert_eq!(
        spades.add_card(face_down(Suite::Clubs, Face::Two)),
        Err(KlondikeDeckError::InvalidSuite)
    );
    assert_eq!(faces_on(&spades), vec![Face::Ace]);
}

#[test]
fn empty_foundation_refuses_anything_but_the_ace() {
    let mut clubs = Foundation::new(Suite::Clubs);
    assert_eq!(
        clubs.add_card(face_down(Suite::Clubs, Face::Two)),
        Err(KlondikeDeckError::InvalidCardOrder)
    );
    assert_eq!(
        clubs.add_card(face_down(Suite::Clubs, Face::King)),
        Err(KlondikeDeckError::InvalidCardOrder)
    );
    assert!(clubs.deck().cards.is_empty());
}

#[test]
fn foundation_refuses_the_same_rank_and_lower_ranks() {
    let mut hearts = Foundation::new(Suite::Hearts);
    assert_eq!(hearts.add_card(face_down(Suite::Hearts, Face::Ace)), Ok(()));
    assert_eq!(hearts.add_card(face_down(Suite::Hearts, Face::Two)), Ok(()));
    assert_eq!(
        hearts.add_card(face_down(Suite::Hearts, Face::Two)),
        Err(KlondikeDeckError::InvalidCardOrder)
    );
    assert_eq!(
        hearts.add_card(face_down(Suite::Hearts, Face::Ace)),
        Err(KlondikeDeckError::InvalidCardOrder)
    );
    assert_eq!(faces_on(&hearts), vec![Face::Ace, Face::Two]);
}

#[test]
fn foundation_fills_from_ace_to_king_and_then_refuses() {
    let mut diamonds = Foundation::new(Suite::Diamonds);
    let faces = [
        Face::Ace,
        Face::Two,
        Face::Three,
        Face::Four,
        Face::Five,
        Face::Six,
        Face::Seven,
        Face::Eight,
        Face::Nine,
        Face::Ten,
        Face::Jack,
        Face::Queen,
        Face::King,
    ];
    for face in faces {
        assert_eq!(diamonds.add_card(face_down(Suite::Diamonds, face)), Ok(()));
    }
    assert_eq!(diamonds.deck().cards.len(), 13);
    assert_eq!(
        diamonds.add_card(face_down(Suite::Diamonds, Face::Ace)),
        Err(KlondikeDeckError::InvalidCardOrder)
    );
    assert_eq!(
        diamonds.add_card(face_down(Suite::Diamonds, Face::King)),
        Err(KlondikeDeckError::InvalidCardOrder)
    );
}

#[test]
fn accepted_card_keeps_its_way_up() {
    let mut hearts = Foundation::new(Suite::Hearts);
    assert_eq!(
        hearts.add_card(Card { suite: Suite::Hearts, face: Face::Ace, face_up: true }),
        Ok(())
    );
    assert!(hearts.deck().cards[0].face_up);
}

#[test]
fn add_cards_accepts_a_whole_run() {
    let mut spades = Foundation::new(Suite::Spades);
    let r = spades.add_cards(vec![
        face_down(Suite::Spades, Face::Ace),
        face_down(Suite::Spades, Face::Two),
        face_down(Suite::Spades, Face::Three),
    ]);
    assert_eq!(r, Ok(()));
    assert_eq!(faces_on(&spades), vec![Face::Ace, Face::Two, Face::Three]);
    assert_eq!(spades.add_cards(Vec::new()), Ok(()));
    assert_eq!(spades.deck().cards.len(), 3);
}

#[test]
fn add_cards_stops_at_the_first_refusal_and_keeps_what_it_took() {
    let mut spades = Foundation::new(Suite::Spades);
    let r = spades.add_cards(vec![
        face_down(Suite::Spades, Face::Ace),
        face_down(Suite::Spades, Face::Two),
        face_down(Suite::Spades, Face::Four),
        face_down(Suite::Spades, Face::Three),
    ]);
    assert_eq!(r, Err(KlondikeDeckError::InvalidCardOrder));
    assert_eq!(faces_on(&spades), vec![Face::Ace, Face::Two]);

    let r = spades.add_cards(vec![
        face_down(Suite::Spades, Face::Three),
        face_down(Suite::Hearts, Face::Four),
        face_down(Suite::Spades, Face::Four),
    ]);
    assert_eq!(r, Err(KlondikeDeckError::InvalidSuite));
    assert_eq!(faces_on(&spades), vec![Face::Ace, Face::Two, Face::Three]);
}

#[test]
fn add_cards_reports_the_first_of_two_failures() {
    let mut clubs = Foundation::new(Suite::Clubs);
    let r = clubs.add_cards(vec![
        face_down(Suite::Hearts, Face::Ace),
        face_down(Suite::Clubs, Face::Five),
    ]);
    assert_eq!(r, Err(KlondikeDeckError::InvalidSuite));
    let r = clubs.add_cards(vec![
        face_down(Suite::Clubs, Face::Five),
        face_down(Suite::Hearts, Face::Ace),
    ]);
    assert_eq!(r, Err(KlondikeDeckError::InvalidCardOrder));
    assert!(clubs.deck().cards.is_empty());
}

#[test]
fn foundation_take_cards_removes_from_the_top_unconditionally() {
    let mut hearts = Foundation::new(Suite::Hearts);
    assert_eq!(
        hearts.add_cards(vec![
            face_down(Suite::Hearts, Face::Ace),
            face_down(Suite::Hearts, Face::Two),
            face_down(Suite::Hearts, Face::Three),
        ]),
        Ok(())
    );
    let taken = hearts.take_cards(2);
    let faces: Vec<Face> = taken.iter().map(|c| c.face).collect();
    assert_eq!(faces, vec![Face::Two, Face::Three]);
    assert_eq!(faces_on(&hearts), vec![Face::Ace]);
    assert_eq!(hearts.add_card(face_down(Suite::Hearts, Face::Two)), Ok(()));
    assert_eq!(hearts.take_cards(9).len(), 2);
    assert!(hearts.take_cards(1).is_empty());
    assert_eq!(hearts.add_card(face_down(Suite::Hearts, Face::Ace)), Ok(()));
}

#[test]
fn cards_taken_from_a_foundation_are_accepted_back_as_they_came() {
    let mut clubs = Foundation::new(Suite::Clubs);
    assert_eq!(
        clubs.add_cards(vec![
            face_down(Suite::Clubs, Face::Ace),
            face_down(Suite::Clubs, Face::Two),
            face_down(Suite::Clubs, Face::Three),
            face_down(Suite::Clubs, Face::Four),
        ]),
        Ok(())
    );
    let taken = clubs.take_cards(3);
    assert_eq!(faces_on(&clubs), vec![Face::Ace]);
    assert_eq!(clubs.add_cards(taken), Ok(()));
    assert_eq!(faces_on(&clubs), vec![Face::Ace, Face::Two, Face::Three, Face::Four]);
}

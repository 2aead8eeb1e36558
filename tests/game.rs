use eins_lib::cards::{retrieve_card, CardReference, CardTypes, ColorSymbol, DrawAction};
use eins_lib::game::{
    possible_next_card, GameDirection, GameError, GameSession, GameSetup, Hand, HandState, Play,
    TurnState, INITIAL_HAND_CARDS,
};
use uuid::Uuid;

fn hands(n: usize) -> Vec<Hand> {
    (0..n).map(|_| Hand::default()).collect()
}

fn reference(i: usize) -> CardReference {
    CardReference::new(i).unwrap()
}

#[test]
fn rejects_too_few_and_too_many_players() {
    assert!(matches!(
        GameSession::<GameSetup>::new(hands(1)),
        Err(GameError::NotEnoughPlayers)
    ));
    assert!(matches!(
        GameSession::<GameSetup>::new(hands(0)),
        Err(GameError::NotEnoughPlayers)
    ));
    assert!(matches!(
        GameSession::<GameSetup>::new(hands(11)),
        Err(GameError::ToManyPlayers)
    ));
    assert!(GameSession::<GameSetup>::new(hands(2)).is_ok());
    assert!(GameSession::<GameSetup>::new(hands(10)).is_ok());
}

#[test]
fn dealing_gives_seven_cards_each() {
    for n in [2usize, 3, 10] {
        let session = GameSession::<GameSetup>::new(hands(n)).unwrap();
        assert_eq!(session.players().len(), n);
        for hand in session.players() {
            assert_eq!(hand.held_cards().len(), INITIAL_HAND_CARDS);
            assert_eq!(hand.status(), HandState::Playing);
        }
        assert_eq!(session.deck_len(), 108 - 1 - 7 * n);
        let top = retrieve_card(&session.top_of_stack());
        assert!(matches!(top, CardTypes::Normal(_)));
        assert_eq!(session.current_player(), 0);
        assert_eq!(session.direction_of_play(), GameDirection::Clockwise);
    }
}

#[test]
fn find_starting_card_skips_wild_cards() {
    let mut deck = vec![reference(0), reference(5), reference(20), reference(30)];
    let card = GameSession::<GameSetup>::find_starting_card(&mut deck).unwrap();
    assert_eq!(card.card_number(), 20);
    let left: Vec<usize> = deck.iter().map(|c| c.card_number()).collect();
    assert_eq!(left, vec![0, 5, 30]);

    let mut first = vec![reference(9), reference(1)];
    let card = GameSession::<GameSetup>::find_starting_card(&mut first).unwrap();
    assert_eq!(card.card_number(), 9);
    assert_eq!(first.len(), 1);
}

#[test]
fn find_starting_card_on_wild_only_deck_fails() {
    let mut deck = vec![reference(0), reference(4), reference(7)];
    let result = GameSession::<GameSetup>::find_starting_card(&mut deck);
    assert!(matches!(result, Err(GameError::EmptyDeck)));
    assert_eq!(deck.len(), 3);
    let mut empty: Vec<CardReference> = Vec::new();
    assert!(matches!(
        GameSession::<GameSetup>::find_starting_card(&mut empty),
        Err(GameError::EmptyDeck)
    ));
}

#[test]
fn turn_rotation_for_three_players() {
    let session = GameSession::<GameSetup>::new(hands(3)).unwrap();
    assert_eq!(session.current_player(), 0);
    let session = session.next_player();
    assert_eq!(session.current_player(), 1);
    let session = session.next_player();
    assert_eq!(session.current_player(), 2);
    let session = session.next_player();
    assert_eq!(session.current_player(), 0);

    let session = session.change_direction();
    assert_eq!(session.direction_of_play(), GameDirection::CounterClockwise);
    let session = session.next_player();
    assert_eq!(session.current_player(), 2);
    let session = session.next_player();
    assert_eq!(session.current_player(), 1);
    let session = session.next_player();
    assert_eq!(session.current_player(), 0);
}

#[test]
fn draw_two_and_draw_four_move_six_cards() {
    let session = GameSession::<GameSetup>::new(hands(2)).unwrap().start_game();
    let deck_before = session.deck_len();
    let current = session.current_player();
    let hand_before = session.players()[current].held_cards().len();
    let session = session.draw_cards(&vec![DrawAction::DrawTwo, DrawAction::DrawFour]);
    assert_eq!(session.deck_len(), deck_before - 6);
    assert_eq!(
        session.players()[current].held_cards().len(),
        hand_before + 6
    );
    assert_eq!(session.players()[1 - current].held_cards().len(), 7);
}

fn check_view(session: &GameSession<Play>) {
    let top = retrieve_card(&session.top_of_stack());
    let hand = session.players()[session.current_player()].held_cards();
    let wish = session.color_wish();
    let legal: Vec<usize> = hand
        .iter()
        .filter(|r| top.is_possible_next_card(&retrieve_card(r), wish))
        .map(|r| r.card_number())
        .collect();
    match session.current_play() {
        Play::PossibleCards { options } => {
            assert!(!options.is_empty());
            let offered: Vec<usize> = options.iter().map(|r| r.card_number()).collect();
            assert_eq!(offered, legal);
        }
        Play::DrawCards { draw_amount } => {
            assert!(legal.is_empty());
            assert_eq!(*draw_amount, DrawAction::DrawOne);
        }
    }
}

#[test]
fn two_player_game_starts_with_a_legal_view() {
    let session = GameSession::<GameSetup>::new(hands(2)).unwrap();
    let session = session.start_game();
    check_view(&session);
    assert_eq!(session.players()[0].held_cards().len(), 7);

    let game = eins_lib::test().unwrap();
    check_view(&game);
}

#[test]
fn possible_next_card_filters_the_hand() {
    // Red zero on top; hand: red one, blue two, blue zero, a choose-color.
    let top = reference(8);
    let hand = vec![reference(9), reference(35), reference(33), reference(0)];
    match possible_next_card(top, &hand, None) {
        Play::PossibleCards { options } => {
            let got: Vec<usize> = options.iter().map(|r| r.card_number()).collect();
            assert_eq!(got, vec![9, 33, 0]);
        }
        Play::DrawCards { .. } => panic!("expected options"),
    }
    let blue_only = vec![reference(35)];
    assert!(matches!(
        possible_next_card(top, &blue_only, None),
        Play::DrawCards {
            draw_amount: DrawAction::DrawOne
        }
    ));
    match possible_next_card(top, &blue_only, Some(eins_lib::cards::Color::Blue)) {
        Play::PossibleCards { options } => assert_eq!(options.len(), 1),
        Play::DrawCards { .. } => panic!("expected options"),
    }
}

#[test]
fn progress_plays_or_draws() {
    let mut session = GameSession::<GameSetup>::new(hands(3)).unwrap().start_game();
    for _ in 0..200 {
        if session.is_finished() {
            break;
        }
        check_view(&session);
        let current = session.current_player();
        let held = session.players()[current].held_cards().len();
        let choice = match session.current_play() {
            Play::PossibleCards { options } => Some(options[0]),
            Play::DrawCards { .. } => None,
        };
        let wish = Some(eins_lib::cards::Color::Green);
        let stack_top = session.top_of_stack();
        session = session.progress(choice, wish);
        if let Some(played) = choice {
            // Either the play went through or the phase was not a play phase.
            if session.top_of_stack() == played && stack_top != played {
                let after = session.players()[current].held_cards().len();
                assert_eq!(after + 1, held);
            }
        }
        let total: usize = session
            .players()
            .iter()
            .map(|h| h.held_cards().len())
            .sum::<usize>();
        assert!(total + session.deck_len() <= 107);
    }
}

#[test]
fn rejected_play_changes_nothing() {
    let session = GameSession::<GameSetup>::new(hands(2)).unwrap().start_game();
    let top = session.top_of_stack();
    let deck = session.deck_len();
    let current = session.current_player();
    let held = session.players()[current].held_cards().clone();
    let has_options = matches!(session.current_play(), Play::PossibleCards { .. });
    // The top of the stack is never in a hand, so it is never a legal play.
    let session = session.progress(Some(top), None);
    assert_eq!(session.top_of_stack(), top);
    assert_eq!(session.deck_len(), deck);
    assert_eq!(session.current_player(), current);
    if has_options {
        assert_eq!(session.players()[current].held_cards(), &held);
    } else {
        // With nothing to play, the player is sent to draw one card.
        let session = session.progress(None, None);
        assert_eq!(session.players()[current].held_cards().len(), held.len() + 1);
        assert_eq!(session.deck_len(), deck - 1);
    }
}

#[test]
fn number_card_passes_the_turn() {
    // Find a start where the first player can play a number card.
    for _ in 0..200 {
        let session = GameSession::<GameSetup>::new(hands(3)).unwrap().start_game();
        let number = match session.current_play() {
            Play::PossibleCards { options } => options.iter().copied().find(|r| {
                matches!(retrieve_card(r), CardTypes::Normal(c)
                    if !matches!(c.symbol, ColorSymbol::Skip | ColorSymbol::Reverse | ColorSymbol::DrawTwo))
            }),
            Play::DrawCards { .. } => None,
        };
        if let Some(card) = number {
            let session = session.progress(Some(card), None);
            assert_eq!(session.top_of_stack(), card);
            assert_eq!(session.players()[0].held_cards().len(), 6);
            assert_eq!(session.current_player(), 0);
            let session = session.progress(None, None);
            assert_eq!(session.current_player(), 1);
            check_view(&session);
            return;
        }
    }
    panic!("no playable number card in 200 deals");
}

#[test]
fn hand_and_phase_constructors() {
    let id = Uuid::new_v4();
    let hand = Hand::new(Some(id));
    assert_eq!(hand.player_id(), id);
    assert!(hand.held_cards().is_empty());
    assert_eq!(hand.status(), HandState::Playing);
    let other = Hand::new(None);
    assert_ne!(other.player_id(), id);
    assert_eq!(GameDirection::default(), GameDirection::Clockwise);
    assert!(matches!(TurnState::default(), TurnState::Init));
    match TurnState::new_default_draw().add_draw(DrawAction::DrawFour) {
        TurnState::Draw { draw_action } => {
            assert_eq!(draw_action, vec![DrawAction::DrawOne, DrawAction::DrawFour])
        }
        _ => panic!("expected a draw phase"),
    }
    match TurnState::new_draw(vec![DrawAction::DrawTwo]) {
        TurnState::Draw { draw_action } => assert_eq!(draw_action, vec![DrawAction::DrawTwo]),
        _ => panic!("expected a draw phase"),
    }
}

#[test]
fn session_ids_are_kept() {
    let session = GameSession::<GameSetup>::new(hands(2)).unwrap();
    let id = *session.id();
    let session = session.start_game();
    assert_eq!(*session.id(), id);
    assert_eq!(*session.get_session().get_game_id(), id);
}

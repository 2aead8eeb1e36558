use eins_lib::cards::{
    create_deck, init_deck, retrieve_card, CardAction, CardReference, CardTypes, Color,
    ColorCard, ColorSymbol, DrawAction, WildCard, WildSymbol, MAX_CARD_NUMBER,
};

#[test]
fn number_is_108() {
    assert_eq!(108, MAX_CARD_NUMBER);
}

#[test]
fn for_loop() {
    let mut current = 0;
    for _ in 0..4 {
        current = current + 1;
    }
    assert_eq!(4, current);
}

#[test]
fn check_deck() {
    let deck = init_deck();
    let first_card = CardTypes::Wild(WildCard {
        symbol: WildSymbol::ChooseColor,
    });
    let last_card = CardTypes::Normal(ColorCard {
        color: Color::Green,
        symbol: ColorSymbol::Reverse,
    });

    let first_deck_card = match deck.first() {
        Some(it) => it,
        _ => return,
    };
    assert_eq!(first_deck_card, &first_card);
    let last_deck_card = match deck.last() {
        Some(it) => it,
        _ => return,
    };
    assert_eq!(last_deck_card, &last_card);
}

#[test]
fn card_reference_creation() {
    let zero = CardReference::new(0);
    match zero {
        Some(card_ref) => assert_eq!(card_ref.card_number(), 0),
        None => return,
    }

    let invalid_card_ref = CardReference::new(MAX_CARD_NUMBER + 1);
    assert!(invalid_card_ref.is_none());
}

#[test]
fn card_reference_try_from_error() {
    let outside_max_range = MAX_CARD_NUMBER + 1;
    let card_ref_result: Result<CardReference, _> = outside_max_range.try_into();
    assert!(card_ref_result.is_err());
    assert_eq!(
        card_ref_result.unwrap_err().message(),
        "Card Reference 109 outside of allowed range of 0 - 108!"
    );
}

#[test]
fn same_color_possible_next_card() {
    let color = Color::Green;
    let first_card = CardTypes::Normal(ColorCard {
        color,
        symbol: ColorSymbol::Zero,
    });
    let second_card = CardTypes::Normal(ColorCard {
        color,
        symbol: ColorSymbol::One,
    });

    assert!(first_card.is_possible_next_card(&second_card, None));
}

#[test]
fn different_color_different_symbol_impossible_next_card() {
    let first_card = CardTypes::Normal(ColorCard {
        color: Color::Red,
        symbol: ColorSymbol::Zero,
    });
    let second_card = CardTypes::Normal(ColorCard {
        color: Color::Blue,
        symbol: ColorSymbol::One,
    });

    assert!(!first_card.is_possible_next_card(&second_card, None));
}

#[test]
fn different_color_same_symbol_possible_next_card() {
    let symbol = ColorSymbol::Zero;
    let first_card = CardTypes::Normal(ColorCard {
        color: Color::Red,
        symbol,
    });
    let second_card = CardTypes::Normal(ColorCard {
        color: Color::Blue,
        symbol,
    });

    assert!(first_card.is_possible_next_card(&second_card, None));
}

fn normal(color: Color, symbol: ColorSymbol) -> CardTypes {
    CardTypes::Normal(ColorCard { color, symbol })
}

fn wild(symbol: WildSymbol) -> CardTypes {
    CardTypes::Wild(WildCard { symbol })
}

#[test]
fn reference_at_catalog_size_is_rejected() {
    assert!(CardReference::new(MAX_CARD_NUMBER).is_none());
    assert_eq!(CardReference::new(107).map(|c| c.card_number()), Some(107));
    let result: Result<CardReference, _> = 108usize.try_into();
    let err = result.unwrap_err();
    assert_eq!(err.value, 108);
    assert_eq!(
        err.message(),
        "Card Reference 108 outside of allowed range of 0 - 108!"
    );
    let ok: Result<CardReference, _> = 0usize.try_into();
    assert_eq!(ok.unwrap().card_number(), 0);
}

#[test]
fn out_of_range_message_renders_large_values() {
    let result: Result<CardReference, _> = 4096usize.try_into();
    assert_eq!(
        result.unwrap_err().message(),
        "Card Reference 4096 outside of allowed range of 0 - 108!"
    );
}

#[test]
fn catalog_composition() {
    let deck = init_deck();
    assert_eq!(deck.len(), 108);
    let count = |card: CardTypes| deck.iter().filter(|c| **c == card).count();
    assert_eq!(count(wild(WildSymbol::ChooseColor)), 4);
    assert_eq!(count(wild(WildSymbol::DrawFour)), 4);
    let symbols = [
        ColorSymbol::Zero,
        ColorSymbol::One,
        ColorSymbol::Two,
        ColorSymbol::Three,
        ColorSymbol::Four,
        ColorSymbol::Five,
        ColorSymbol::Six,
        ColorSymbol::Seven,
        ColorSymbol::Eight,
        ColorSymbol::Nine,
        ColorSymbol::DrawTwo,
        ColorSymbol::Reverse,
        ColorSymbol::Skip,
    ];
    for color in [Color::Red, Color::Blue, Color::Orange, Color::Green] {
        let in_color = deck
            .iter()
            .filter(|c| matches!(c, CardTypes::Normal(n) if n.color == color))
            .count();
        assert_eq!(in_color, 25);
        for symbol in symbols {
            let expected = if symbol == ColorSymbol::Zero { 1 } else { 2 };
            assert_eq!(count(normal(color, symbol)), expected);
        }
    }
    assert_eq!(deck[8], normal(Color::Red, ColorSymbol::Zero));
    assert_eq!(deck[20], normal(Color::Red, ColorSymbol::Reverse));
    assert_eq!(deck[21], normal(Color::Red, ColorSymbol::One));
    assert_eq!(deck[33], normal(Color::Blue, ColorSymbol::Zero));
    assert_eq!(deck[58], normal(Color::Orange, ColorSymbol::Zero));
    assert_eq!(deck[83], normal(Color::Green, ColorSymbol::Zero));
}

#[test]
fn retrieve_card_follows_catalog() {
    let deck = init_deck();
    for i in 0..MAX_CARD_NUMBER {
        let r = CardReference::new(i).unwrap();
        assert_eq!(retrieve_card(&r), deck[i]);
        let index: usize = (&r).into();
        assert_eq!(index, i);
    }
}

#[test]
fn created_deck_is_a_shuffled_permutation() {
    let deck = create_deck();
    assert_eq!(deck.len(), 108);
    let mut indices: Vec<usize> = deck.iter().map(|c| c.card_number()).collect();
    let in_order: Vec<usize> = (0..108).collect();
    assert_ne!(indices, in_order);
    indices.sort();
    assert_eq!(indices, in_order);
}

#[test]
fn legality_with_wild_cards_and_wishes() {
    let red_five = normal(Color::Red, ColorSymbol::Five);
    let blue_five = normal(Color::Blue, ColorSymbol::Five);
    let blue_two = normal(Color::Blue, ColorSymbol::Two);
    let choose = wild(WildSymbol::ChooseColor);
    let four = wild(WildSymbol::DrawFour);
    assert!(red_five.is_possible_next_card(&choose, None));
    assert!(red_five.is_possible_next_card(&four, Some(Color::Green)));
    assert!(choose.is_possible_next_card(&blue_two, None));
    assert!(choose.is_possible_next_card(&four, None));
    assert!(!red_five.is_possible_next_card(&blue_five, Some(Color::Red)));
    assert!(red_five.is_possible_next_card(&blue_two, Some(Color::Blue)));
    assert!(choose.is_possible_next_card(&blue_two, Some(Color::Blue)));
    assert!(!choose.is_possible_next_card(&blue_two, Some(Color::Green)));
    assert!(red_five.is_possible_initial_card());
    assert!(!choose.is_possible_initial_card());
    assert!(!four.is_possible_initial_card());
}

#[test]
fn card_action_legality() {
    let red_five = normal(Color::Red, ColorSymbol::Five);
    let red_two = normal(Color::Red, ColorSymbol::Two);
    let blue_two = normal(Color::Blue, ColorSymbol::Two);
    let choose = wild(WildSymbol::ChooseColor);
    assert_eq!(
        CardAction::Regular.is_possible_next_card(&red_five, &red_two),
        Some(true)
    );
    assert_eq!(
        CardAction::Regular.is_possible_next_card(&red_five, &blue_two),
        Some(false)
    );
    assert_eq!(
        CardAction::ColorChange(Color::Blue).is_possible_next_card(&red_five, &blue_two),
        Some(true)
    );
    assert_eq!(
        CardAction::ColorChange(Color::Green).is_possible_next_card(&red_five, &red_two),
        Some(false)
    );
    assert_eq!(
        CardAction::ColorChange(Color::Green).is_possible_next_card(&red_five, &choose),
        Some(true)
    );
    assert_eq!(CardAction::Skip.is_possible_next_card(&red_five, &red_two), None);
    assert_eq!(
        CardAction::ChangeGameDirection.is_possible_next_card(&red_five, &red_two),
        None
    );
    assert_eq!(
        CardAction::Draw(DrawAction::DrawTwo).is_possible_next_card(&red_five, &red_two),
        None
    );
    assert_eq!(
        CardAction::DrawAndColorChange(DrawAction::DrawFour, Color::Red)
            .is_possible_next_card(&red_five, &red_two),
        None
    );
    let red = ColorCard {
        color: Color::Red,
        symbol: ColorSymbol::Five,
    };
    let blue = ColorCard {
        color: Color::Blue,
        symbol: ColorSymbol::Five,
    };
    assert!(red.is_possible_next_card(&blue, None));
    assert!(!red.is_possible_next_card(&blue, Some(Color::Red)));
}

#[test]
fn draw_amounts_and_defaults() {
    assert_eq!(u8::from(&DrawAction::DrawOne), 1);
    assert_eq!(u8::from(&DrawAction::DrawTwo), 2);
    assert_eq!(u8::from(&DrawAction::DrawFour), 4);
    assert_eq!(DrawAction::default(), DrawAction::DrawOne);
    assert_eq!(CardAction::default(), CardAction::Regular);
}

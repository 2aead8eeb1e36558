use rand::seq::SliceRandom;
use vstd::multiset::Multiset;
use vstd::prelude::*;
use vstd::string::StringExecFns;

verus! {

/// Number of cards in the catalog; every card reference is below it.
pub const MAX_CARD_NUMBER: usize = 108;

/// An index into the card catalog, always below `MAX_CARD_NUMBER`.
#[derive(Debug, Copy, Clone, PartialEq, Eq, Structural)]
pub struct CardReference(usize);

impl View for CardReference {
    type V = int;

    closed spec fn view(&self) -> int {
        self.0 as int
    }
}

impl CardReference {
    #[verifier::type_invariant]
    spec fn in_catalog(self) -> bool {
        self.0 < MAX_CARD_NUMBER
    }

    pub fn new(card_number: usize) -> (r: Option<CardReference>)
        ensures
            r is Some <==> card_number < MAX_CARD_NUMBER,
            r matches Some(c) ==> c == reference_at(card_number as int),
    {
        if card_number >= MAX_CARD_NUMBER {
            None
        } else {
            Some(CardReference(card_number))
        }
    }

    pub fn card_number(&self) -> (r: usize)
        ensures
            r == self@,
            r < MAX_CARD_NUMBER,
    {
        proof {
            use_type_invariant(self);
        }
        self.0
    }
}

/// A raw index that names no card of the catalog.
#[derive(Debug, PartialEq, Eq, Structural, Copy, Clone)]
pub struct CardReferenceOutOfRange {
    pub value: usize,
}

/// The decimal digit `d` as a character.
pub open spec fn digit_char(d: nat) -> char {
    if d == 0 {
        '0'
    } else if d == 1 {
        '1'
    } else if d == 2 {
        '2'
    } else if d == 3 {
        '3'
    } else if d == 4 {
        '4'
    } else if d == 5 {
        '5'
    } else if d == 6 {
        '6'
    } else if d == 7 {
        '7'
    } else if d == 8 {
        '8'
    } else {
        '9'
    }
}

/// `n` written in decimal, without leading zeros.
pub open spec fn decimal(n: nat) -> Seq<char>
    decreases n,
{
    if n < 10 {
        seq![digit_char(n)]
    } else {
        decimal(n / 10) + seq![digit_char(n % 10)]
    }
}

/// The text that describes an out-of-range index.
pub open spec fn out_of_range_text(value: usize) -> Seq<char> {
    "Card Reference "@ + decimal(value as nat) + " outside of allowed range of 0 - "@ + decimal(
        MAX_CARD_NUMBER as nat,
    ) + "!"@
}

fn digit_text(d: usize) -> (r: &'static str)
    requires
        d < 10,
    ensures
        r@ == seq![digit_char(d as nat)],
{
    proof {
        reveal_strlit("0");
        reveal_strlit("1");
        reveal_strlit("2");
        reveal_strlit("3");
        reveal_strlit("4");
        reveal_strlit("5");
        reveal_strlit("6");
        reveal_strlit("7");
        reveal_strlit("8");
        reveal_strlit("9");
    }
    if d == 0 {
        "0"
    } else if d == 1 {
        "1"
    } else if d == 2 {
        "2"
    } else if d == 3 {
        "3"
    } else if d == 4 {
        "4"
    } else if d == 5 {
        "5"
    } else if d == 6 {
        "6"
    } else if d == 7 {
        "7"
    } else if d == 8 {
        "8"
    } else {
        "9"
    }
}

fn push_decimal(text: &mut String, n: usize)
    ensures
        final(text)@ == old(text)@ + decimal(n as nat),
    decreases n,
{
    if n >= 10 {
        push_decimal(text, n / 10);
    }
    text.append(digit_text(n % 10));
    assert(final(text)@ == old(text)@ + decimal(n as nat));
}

impl CardReferenceOutOfRange {
    /// A sentence naming the rejected index and the allowed range.
    pub fn message(&self) -> (r: String)
        ensures
            r@ == out_of_range_text(self.value),
    {
        let mut text = String::from_str("Card Reference ");
        push_decimal(&mut text, self.value);
        text.append(" outside of allowed range of 0 - ");
        push_decimal(&mut text, MAX_CARD_NUMBER);
        text.append("!");
        text
    }
}

impl TryFrom<usize> for CardReference {
    type Error = CardReferenceOutOfRange;

    fn try_from(value: usize) -> (r: Result<Self, Self::Error>)
        ensures
            value < MAX_CARD_NUMBER ==> r == Ok::<Self, Self::Error>(
                reference_at(value as int),
            ),
            value >= MAX_CARD_NUMBER ==> r == Err::<Self, Self::Error>(
                CardReferenceOutOfRange { value },
            ),
    {
        match CardReference::new(value) {
            Some(card_ref) => Ok(card_ref),
            None => Err(CardReferenceOutOfRange { value }),
        }
    }
}

impl vstd::std_specs::convert::TryFromSpecImpl<usize> for CardReference {
    open spec fn obeys_try_from_spec() -> bool {
        true
    }

    open spec fn try_from_spec(v: usize) -> Result<Self, CardReferenceOutOfRange> {
        if v < MAX_CARD_NUMBER {
            Ok(reference_at(v as int))
        } else {
            Err(CardReferenceOutOfRange { value: v })
        }
    }
}

#[derive(Debug, PartialEq, Eq, Structural, Copy, Clone)]
pub enum Color {
    Red,
    Blue,
    Orange,
    Green,
}

#[derive(Debug, PartialEq, Eq, Structural, Copy, Clone)]
pub enum ColorSymbol {
    Zero,
    One,
    Two,
    Three,
    Four,
    Five,
    Six,
    Seven,
    Eight,
    Nine,
    DrawTwo,
    Reverse,
    Skip,
}

#[derive(Debug, PartialEq, Eq, Structural, Copy, Clone)]
pub enum WildSymbol {
    ChooseColor,
    DrawFour,
}

#[derive(Debug, PartialEq, Eq, Structural, Copy, Clone)]
pub enum CardTypes {
    Normal(ColorCard),
    Wild(WildCard),
}

#[derive(Debug, PartialEq, Eq, Structural, Copy, Clone)]
pub struct ColorCard {
    pub color: Color,
    pub symbol: ColorSymbol,
}

#[derive(Debug, PartialEq, Eq, Structural, Copy, Clone)]
pub struct WildCard {
    pub symbol: WildSymbol,
}

/// Whether `next` may be played on top of `current`. While a color wish is
/// active only that color (or a wild card) may follow, whatever the symbol;
/// otherwise wild cards follow and are followed by anything, and two color
/// cards must share their color or their symbol.
pub open spec fn legal_next(current: CardTypes, next: CardTypes, color_wish: Option<Color>) -> bool {
    match next {
        CardTypes::Wild(_) => true,
        CardTypes::Normal(n) => match color_wish {
            Some(c) => n.color == c,
            None => match current {
                CardTypes::Wild(_) => true,
                CardTypes::Normal(cur) => cur.color == n.color || cur.symbol == n.symbol,
            },
        },
    }
}

/// Two color cards follow each other when they share a color or a symbol,
/// and not when they share neither; a wild card follows and is followed by
/// anything; while a color is wished, a color card follows only in that
/// color, whatever its symbol.
pub proof fn lemma_legality_rules(a: ColorCard, b: ColorCard, w: WildCard, any: CardTypes, wish: Color)
    ensures
        a.color == b.color ==> legal_next(CardTypes::Normal(a), CardTypes::Normal(b), None),
        a.symbol == b.symbol ==> legal_next(CardTypes::Normal(a), CardTypes::Normal(b), None),
        a.color != b.color && a.symbol != b.symbol ==> !legal_next(
            CardTypes::Normal(a),
            CardTypes::Normal(b),
            None,
        ),
        legal_next(any, CardTypes::Wild(w), None),
        legal_next(any, CardTypes::Wild(w), Some(wish)),
        legal_next(CardTypes::Wild(w), any, None),
        legal_next(any, CardTypes::Normal(b), Some(wish)) <==> b.color == wish,
{
}

/// Only color cards may start the discard stack.
pub open spec fn valid_initial(card: CardTypes) -> bool {
    card is Normal
}

impl CardTypes {
    pub fn is_possible_next_card(&self, next_card: &CardTypes, color_wish_opt: Option<Color>) -> (r:
        bool)
        ensures
            r == legal_next(*self, *next_card, color_wish_opt),
    {
        match (self, next_card, color_wish_opt) {
            (CardTypes::Normal(current), CardTypes::Normal(next), None) => {
                current.is_possible_next_card(next, None)
            },
            (CardTypes::Normal(_), CardTypes::Normal(next), Some(color)) => next.color == color,
            (CardTypes::Normal(_), CardTypes::Wild(_), _) => true,
            (CardTypes::Wild(_), CardTypes::Normal(_), None) => true,
            (CardTypes::Wild(_), CardTypes::Normal(next), Some(color)) => next.color == color,
            (CardTypes::Wild(_), CardTypes::Wild(_), _) => true,
        }
    }

    pub fn is_possible_initial_card(&self) -> (r: bool)
        ensures
            r == valid_initial(*self),
    {
        match self {
            CardTypes::Normal(_) => true,
            CardTypes::Wild(_) => false,
        }
    }
}

impl ColorCard {
    pub fn is_possible_next_card(&self, next_card: &ColorCard, color_wish_opt: Option<Color>) -> (r:
        bool)
        ensures
            r == legal_next(CardTypes::Normal(*self), CardTypes::Normal(*next_card), color_wish_opt),
    {
        match color_wish_opt {
            None => self.color == next_card.color || self.symbol == next_card.symbol,
            Some(color) => next_card.color == color,
        }
    }
}

/// What the card on top of the stack asks of the next play.
#[derive(Debug, PartialEq, Eq, Structural, Copy, Clone)]
pub enum CardAction {
    Draw(DrawAction),
    ColorChange(Color),
    Regular,
    ChangeGameDirection,
    Skip,
    DrawAndColorChange(DrawAction, Color),
}

impl CardAction {
    /// `Some` legality for the actions under which a card is matched
    /// (`Regular`, `ColorChange`), `None` for the others.
    pub fn is_possible_next_card(&self, current_card: &CardTypes, next_card: &CardTypes) -> (r:
        Option<bool>)
        ensures
            r == match *self {
                CardAction::Regular => Some(legal_next(*current_card, *next_card, None)),
                CardAction::ColorChange(c) => Some(legal_next(*current_card, *next_card, Some(c))),
                _ => None::<bool>,
            },
    {
        match self {
            CardAction::Skip => None,
            CardAction::Draw(_) => None,
            CardAction::ColorChange(color) => match next_card {
                CardTypes::Normal(next_color_card) => Some(*color == next_color_card.color),
                CardTypes::Wild(_) => Some(true),
            },
            CardAction::DrawAndColorChange(_, _) => None,
            CardAction::Regular => Some(current_card.is_possible_next_card(next_card, None)),
            CardAction::ChangeGameDirection => None,
        }
    }
}

impl Default for CardAction {
    fn default() -> (r: Self)
        ensures
            r == CardAction::Regular,
    {
        CardAction::Regular
    }
}

#[derive(Debug, PartialEq, Eq, Structural, Copy, Clone)]
pub enum DrawAction {
    DrawOne,
    DrawTwo,
    DrawFour,
}

impl Default for DrawAction {
    fn default() -> (r: Self)
        ensures
            r == DrawAction::DrawOne,
    {
        DrawAction::DrawOne
    }
}

/// How many cards a draw action makes the player take.
pub open spec fn draw_amount(action: DrawAction) -> nat {
    match action {
        DrawAction::DrawOne => 1,
        DrawAction::DrawTwo => 2,
        DrawAction::DrawFour => 4,
    }
}

impl From<&DrawAction> for u8 {
    fn from(value: &DrawAction) -> (r: u8)
        ensures
            r == draw_amount(*value),
    {
        match value {
            DrawAction::DrawOne => 1,
            DrawAction::DrawTwo => 2,
            DrawAction::DrawFour => 4,
        }
    }
}

impl vstd::std_specs::convert::FromSpecImpl<&DrawAction> for u8 {
    open spec fn obeys_from_spec() -> bool {
        true
    }

    open spec fn from_spec(v: &DrawAction) -> u8 {
        draw_amount(*v) as u8
    }
}

impl From<&CardReference> for usize {
    fn from(value: &CardReference) -> (r: usize)
        ensures
            r == value@,
    {
        value.0
    }
}

impl vstd::std_specs::convert::FromSpecImpl<&CardReference> for usize {
    open spec fn obeys_from_spec() -> bool {
        true
    }

    open spec fn from_spec(v: &CardReference) -> usize {
        v@ as usize
    }
}

/// The symbols of one color, in catalog order: zero to nine, then draw-two,
/// skip and reverse.
pub open spec fn symbol_in_order(n: int) -> ColorSymbol {
    if n == 0 {
        ColorSymbol::Zero
    } else if n == 1 {
        ColorSymbol::One
    } else if n == 2 {
        ColorSymbol::Two
    } else if n == 3 {
        ColorSymbol::Three
    } else if n == 4 {
        ColorSymbol::Four
    } else if n == 5 {
        ColorSymbol::Five
    } else if n == 6 {
        ColorSymbol::Six
    } else if n == 7 {
        ColorSymbol::Seven
    } else if n == 8 {
        ColorSymbol::Eight
    } else if n == 9 {
        ColorSymbol::Nine
    } else if n == 10 {
        ColorSymbol::DrawTwo
    } else if n == 11 {
        ColorSymbol::Skip
    } else {
        ColorSymbol::Reverse
    }
}

/// Index of the first card of a color in the catalog; each color holds 25.
pub open spec fn suit_start(c: Color) -> int {
    match c {
        Color::Red => 8,
        Color::Blue => 33,
        Color::Orange => 58,
        Color::Green => 83,
    }
}

/// The color of the color card at catalog index `i` (for `8 <= i < 108`).
pub open spec fn suit_at(i: int) -> Color {
    if i < 33 {
        Color::Red
    } else if i < 58 {
        Color::Blue
    } else if i < 83 {
        Color::Orange
    } else {
        Color::Green
    }
}

/// The symbol at offset `k` within a color: the thirteen symbols once, then
/// all of them but zero a second time.
pub open spec fn suit_symbol(k: int) -> ColorSymbol {
    if k < 13 {
        symbol_in_order(k)
    } else {
        symbol_in_order(k - 12)
    }
}

/// The catalog: four choose-color cards, four draw-four cards, then 25 cards
/// for each of red, blue, orange and green.
pub open spec fn catalog_card(i: int) -> CardTypes {
    if i < 4 {
        CardTypes::Wild(WildCard { symbol: WildSymbol::ChooseColor })
    } else if i < 8 {
        CardTypes::Wild(WildCard { symbol: WildSymbol::DrawFour })
    } else {
        CardTypes::Normal(
            ColorCard { color: suit_at(i), symbol: suit_symbol(i - suit_start(suit_at(i))) },
        )
    }
}

/// Position of a symbol in `symbol_in_order`.
pub open spec fn symbol_order(s: ColorSymbol) -> int {
    match s {
        ColorSymbol::Zero => 0,
        ColorSymbol::One => 1,
        ColorSymbol::Two => 2,
        ColorSymbol::Three => 3,
        ColorSymbol::Four => 4,
        ColorSymbol::Five => 5,
        ColorSymbol::Six => 6,
        ColorSymbol::Seven => 7,
        ColorSymbol::Eight => 8,
        ColorSymbol::Nine => 9,
        ColorSymbol::DrawTwo => 10,
        ColorSymbol::Skip => 11,
        ColorSymbol::Reverse => 12,
    }
}

/// The catalog indices whose card is `card`.
pub open spec fn catalog_positions(card: CardTypes) -> Set<int> {
    Set::new(|i: int| 0 <= i < MAX_CARD_NUMBER && catalog_card(i) == card)
}

/// The catalog indices of the color cards of color `c`.
pub open spec fn color_positions(c: Color) -> Set<int> {
    Set::new(
        |i: int|
            0 <= i < MAX_CARD_NUMBER && (catalog_card(i) matches CardTypes::Normal(n) && n.color
                == c),
    )
}

/// The catalog starts with a choose-color card and holds four choose-color
/// cards, four draw-four cards and 25 cards of each color: one zero, and two
/// of each other symbol.
pub proof fn lemma_catalog_composition()
    ensures
        catalog_card(0) == CardTypes::Wild(WildCard { symbol: WildSymbol::ChooseColor }),
        catalog_positions(CardTypes::Wild(WildCard { symbol: WildSymbol::ChooseColor })).len()
            == 4,
        catalog_positions(CardTypes::Wild(WildCard { symbol: WildSymbol::DrawFour })).len() == 4,
        forall|c: Color| #[trigger] color_positions(c).len() == 25,
        forall|c: Color|
            #[trigger] catalog_positions(
                CardTypes::Normal(ColorCard { color: c, symbol: ColorSymbol::Zero }),
            ).len() == 1,
        forall|c: Color, s: ColorSymbol|
            s != ColorSymbol::Zero ==> #[trigger] catalog_positions(
                CardTypes::Normal(ColorCard { color: c, symbol: s }),
            ).len() == 2,
{
    vstd::set_lib::lemma_int_range(0, 4);
    vstd::set_lib::lemma_int_range(4, 8);
    assert(catalog_positions(CardTypes::Wild(WildCard { symbol: WildSymbol::ChooseColor }))
        =~= vstd::set_lib::set_int_range(0, 4));
    assert(catalog_positions(CardTypes::Wild(WildCard { symbol: WildSymbol::DrawFour }))
        =~= vstd::set_lib::set_int_range(4, 8));
    assert forall|c: Color| #[trigger] color_positions(c).len() == 25 by {
        let a = suit_start(c);
        vstd::set_lib::lemma_int_range(a, a + 25);
        assert(color_positions(c) =~= vstd::set_lib::set_int_range(a, a + 25));
    }
    assert forall|c: Color|
        #[trigger] catalog_positions(
            CardTypes::Normal(ColorCard { color: c, symbol: ColorSymbol::Zero }),
        ).len() == 1 by {
        let a = suit_start(c);
        assert(catalog_positions(
            CardTypes::Normal(ColorCard { color: c, symbol: ColorSymbol::Zero }),
        ) =~= set![a]);
    }
    assert forall|c: Color, s: ColorSymbol|
        s != ColorSymbol::Zero implies #[trigger] catalog_positions(
            CardTypes::Normal(ColorCard { color: c, symbol: s }),
        ).len() == 2 by {
        let a = suit_start(c) + symbol_order(s);
        let b = a + 12;
        assert(catalog_positions(CardTypes::Normal(ColorCard { color: c, symbol: s }))
            =~= set![a, b]);
        assert(set![a].len() == 1);
        assert(!set![a].contains(b));
    }
}

/// The card that a reference stands for.
pub open spec fn card_of(r: CardReference) -> CardTypes {
    catalog_card(r@)
}

fn symbol_from_order(n: usize) -> (r: ColorSymbol)
    requires
        n < 13,
    ensures
        r == symbol_in_order(n as int),
{
    if n == 0 {
        ColorSymbol::Zero
    } else if n == 1 {
        ColorSymbol::One
    } else if n == 2 {
        ColorSymbol::Two
    } else if n == 3 {
        ColorSymbol::Three
    } else if n == 4 {
        ColorSymbol::Four
    } else if n == 5 {
        ColorSymbol::Five
    } else if n == 6 {
        ColorSymbol::Six
    } else if n == 7 {
        ColorSymbol::Seven
    } else if n == 8 {
        ColorSymbol::Eight
    } else if n == 9 {
        ColorSymbol::Nine
    } else if n == 10 {
        ColorSymbol::DrawTwo
    } else if n == 11 {
        ColorSymbol::Skip
    } else {
        ColorSymbol::Reverse
    }
}

fn catalog_entry(i: usize) -> (r: CardTypes)
    requires
        i < MAX_CARD_NUMBER,
    ensures
        r == catalog_card(i as int),
{
    if i < 4 {
        CardTypes::Wild(WildCard { symbol: WildSymbol::ChooseColor })
    } else if i < 8 {
        CardTypes::Wild(WildCard { symbol: WildSymbol::DrawFour })
    } else {
        let (color, start): (Color, usize) = if i < 33 {
            (Color::Red, 8)
        } else if i < 58 {
            (Color::Blue, 33)
        } else if i < 83 {
            (Color::Orange, 58)
        } else {
            (Color::Green, 83)
        };
        let k: usize = i - start;
        let symbol = if k < 13 {
            symbol_from_order(k)
        } else {
            symbol_from_order(k - 12)
        };
        CardTypes::Normal(ColorCard { color, symbol })
    }
}

/// Builds the whole catalog, in order.
pub fn init_deck() -> (r: Vec<CardTypes>)
    ensures
        r@.len() == MAX_CARD_NUMBER,
        forall|i: int| 0 <= i < MAX_CARD_NUMBER ==> r@[i] == catalog_card(i),
{
    let mut cards: Vec<CardTypes> = Vec::with_capacity(MAX_CARD_NUMBER);
    let mut index: usize = 0;
    while index < MAX_CARD_NUMBER
        invariant
            index <= MAX_CARD_NUMBER,
            cards@.len() == index,
            forall|i: int| 0 <= i < index ==> cards@[i] == catalog_card(i),
        decreases MAX_CARD_NUMBER - index,
    {
        cards.push(catalog_entry(index));
        index = index + 1;
    }
    cards
}

/// The card that a reference stands for.
pub fn retrieve_card(card_ref: &CardReference) -> (r: CardTypes)
    ensures
        r == card_of(*card_ref),
{
    let input_card_index: usize = card_ref.card_number();
    catalog_entry(input_card_index)
}

/// The reference with index `i`.
pub closed spec fn reference_at(i: int) -> CardReference {
    CardReference(i as usize)
}

/// All references, in catalog order.
pub open spec fn ordered_references() -> Seq<CardReference> {
    Seq::new(MAX_CARD_NUMBER as nat, |i: int| reference_at(i))
}

/// Every reference exactly once.
pub open spec fn full_reference_set() -> Multiset<CardReference> {
    ordered_references().to_multiset()
}

/// Some reference in `s` has index `k`.
pub open spec fn holds_index(s: Seq<CardReference>, k: int) -> bool {
    exists|i: int| 0 <= i < s.len() && #[trigger] s[i]@ == k
}

/// `s` holds each of the references `0..MAX_CARD_NUMBER` exactly once.
pub open spec fn is_permutation_of_catalog(s: Seq<CardReference>) -> bool {
    &&& s.len() == MAX_CARD_NUMBER
    &&& s.no_duplicates()
    &&& forall|i: int| 0 <= i < s.len() ==> 0 <= #[trigger] s[i]@ < MAX_CARD_NUMBER
    &&& forall|k: int| 0 <= k < MAX_CARD_NUMBER ==> #[trigger] holds_index(s, k)
}

proof fn lemma_ordered_references()
    ensures
        ordered_references().len() == MAX_CARD_NUMBER,
        ordered_references().no_duplicates(),
        forall|i: int|
            0 <= i < MAX_CARD_NUMBER ==> (#[trigger] ordered_references()[i])@ == i,
{
}

/// A sequence with the same references as the full catalog, counted with
/// multiplicity, is a permutation of the catalog's indices.
pub proof fn lemma_full_set_is_permutation(s: Seq<CardReference>)
    requires
        s.to_multiset() == full_reference_set(),
    ensures
        is_permutation_of_catalog(s),
{
    broadcast use vstd::seq_lib::group_to_multiset_ensures;

    let o = ordered_references();
    lemma_ordered_references();
    o.lemma_multiset_has_no_duplicates();
    assert forall|x: CardReference| s.to_multiset().contains(x) implies s.to_multiset().count(x)
        == 1 by {}
    s.lemma_multiset_has_no_duplicates_conv();
    assert(s.len() == s.to_multiset().len());
    assert(o.len() == o.to_multiset().len());
    assert forall|i: int| 0 <= i < s.len() implies 0 <= #[trigger] s[i]@ < MAX_CARD_NUMBER by {
        assert(s.to_multiset().count(s[i]) > 0);
        assert(o.contains(s[i]));
        let j = choose|j: int| 0 <= j < o.len() && o[j] == s[i];
        assert(o[j]@ == j);
    }
    assert forall|k: int| 0 <= k < MAX_CARD_NUMBER implies #[trigger] holds_index(s, k) by {
        assert(o[k]@ == k);
        assert(o.to_multiset().count(o[k]) > 0);
        assert(s.contains(o[k]));
    }
}

/// Relies on rand's `SliceRandom::shuffle` with `thread_rng`: it only swaps
/// elements, so the result is a rearrangement of the input.
#[verifier::external_body]
pub(crate) fn shuffle_references(refs: &mut Vec<CardReference>)
    ensures
        final(refs)@.to_multiset() == old(refs)@.to_multiset(),
{
    refs.shuffle(&mut rand::thread_rng());
}

/// All references of the catalog, in random order.
pub fn create_deck() -> (r: Vec<CardReference>)
    ensures
        r@.to_multiset() == full_reference_set(),
        is_permutation_of_catalog(r@),
{
    let mut result: Vec<CardReference> = Vec::with_capacity(MAX_CARD_NUMBER);
    let mut i: usize = 0;
    while i < MAX_CARD_NUMBER
        invariant
            i <= MAX_CARD_NUMBER,
            result@ == ordered_references().subrange(0, i as int),
        decreases MAX_CARD_NUMBER - i,
    {
        result.push(CardReference(i));
        i = i + 1;
    }
    assert(result@ == ordered_references());
    shuffle_references(&mut result);
    proof {
        lemma_full_set_is_permutation(result@);
    }
    result
}

} // verus!

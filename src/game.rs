use uuid::Uuid;
use vstd::multiset::Multiset;
use vstd::prelude::*;

use crate::cards::{
    card_of, create_deck, full_reference_set, legal_next, valid_initial, CardAction,
    CardReference, CardTypes, Color, ColorSymbol, DrawAction, WildSymbol, MAX_CARD_NUMBER,
};

verus! {

pub const INITIAL_HAND_CARDS: usize = 7;

pub const MAX_NUMBER_OF_PLAYERS: usize = 10;

#[verifier::external_type_specification]
#[verifier::external_body]
pub struct ExUuid(Uuid);

/// Relies on uuid's `Uuid::new_v4`: a fresh random identifier, of which
/// nothing is promised here.
pub assume_specification[ Uuid::new_v4 ]() -> Uuid;

/// The references of `hand` that may be played on `top` under `color_wish`,
/// in hand order.
pub open spec fn legal_refs(
    top: CardReference,
    hand: Seq<CardReference>,
    color_wish: Option<Color>,
) -> Seq<CardReference> {
    hand.filter(|r: CardReference| legal_next(card_of(top), card_of(r), color_wish))
}

/// What a player holding `hand` may do on `top`: play one of the legal
/// references, or, where there is none, draw one card.
pub open spec fn is_play_for(
    play: Play,
    top: CardReference,
    hand: Seq<CardReference>,
    color_wish: Option<Color>,
) -> bool {
    match play {
        Play::PossibleCards { options } => {
            &&& legal_refs(top, hand, color_wish).len() > 0
            &&& options@ == legal_refs(top, hand, color_wish)
        },
        Play::DrawCards { draw_amount } => {
            &&& legal_refs(top, hand, color_wish).len() == 0
            &&& draw_amount == DrawAction::DrawOne
        },
    }
}

pub fn possible_next_card(
    current_card: CardReference,
    hand: &Vec<CardReference>,
    color_constraint_opt: Option<Color>,
) -> (r: Play)
    ensures
        is_play_for(r, current_card, hand@, color_constraint_opt),
{
    let actual_card = crate::cards::retrieve_card(&current_card);
    let ghost pred = |r: CardReference|
        legal_next(card_of(current_card), card_of(r), color_constraint_opt);
    let mut possible_cards: Vec<CardReference> = Vec::new();
    let mut i: usize = 0;
    while i < hand.len()
        invariant
            i <= hand@.len(),
            actual_card == card_of(current_card),
            pred == (|r: CardReference|
                legal_next(card_of(current_card), card_of(r), color_constraint_opt)),
            possible_cards@ == hand@.subrange(0, i as int).filter(pred),
        decreases hand@.len() - i,
    {
        let next_card = crate::cards::retrieve_card(&hand[i]);
        proof {
            assert(hand@.subrange(0, i + 1) == hand@.subrange(0, i as int).push(hand@[i as int]));
            hand@.subrange(0, i as int).lemma_filter_push(hand@[i as int], pred);
        }
        if actual_card.is_possible_next_card(&next_card, color_constraint_opt) {
            possible_cards.push(hand[i]);
        }
        i = i + 1;
    }
    assert(hand@.subrange(0, hand@.len() as int) == hand@);
    if possible_cards.len() == 0 {
        Play::DrawCards { draw_amount: DrawAction::DrawOne }
    } else {
        Play::PossibleCards { options: possible_cards }
    }
}

#[derive(Debug)]
pub enum Play {
    PossibleCards { options: Vec<CardReference> },
    DrawCards { draw_amount: DrawAction },
}

#[derive(Debug)]
pub struct GameSetup {}

#[derive(Debug)]
pub struct ColorWish {
    color: Color,
}

#[derive(Debug)]
pub struct FinishGame {
    winner: Uuid,
}

#[derive(Debug, PartialEq, Eq, Structural, Copy, Clone)]
pub enum GameError {
    NotEnoughPlayers,
    ToManyPlayers,
    EmptyDeck,
}

#[derive(Debug, PartialEq, Eq, Structural, Copy, Clone)]
pub enum HandState {
    Playing,
    Won,
    Lost,
}

#[derive(Debug, PartialEq, Eq, Structural, Copy, Clone)]
pub enum GameDirection {
    Clockwise,
    CounterClockwise,
}

impl Default for GameDirection {
    fn default() -> (r: Self)
        ensures
            r == GameDirection::Clockwise,
    {
        GameDirection::Clockwise
    }
}

#[derive(Debug)]
pub enum TurnState {
    Init,
    PlayCard { card_action: CardAction },
    Draw { draw_action: Vec<DrawAction> },
    Skip,
    ColorWish { color: Color },
    ChangeDirection,
    NextPlayer,
}

impl TurnState {
    pub fn new_draw(draw_actions: Vec<DrawAction>) -> (r: Self)
        ensures
            r matches TurnState::Draw { draw_action } && draw_action@ == draw_actions@,
    {
        TurnState::Draw { draw_action: draw_actions }
    }

    pub fn new_default_draw() -> (r: Self)
        ensures
            r matches TurnState::Draw { draw_action } && draw_action@ == seq![DrawAction::DrawOne],
    {
        TurnState::Draw { draw_action: vec![DrawAction::default()] }
    }

    /// Adds one more pending draw to a draw phase.
    pub fn add_draw(self, next_draw_action: DrawAction) -> (r: Self)
        requires
            self is Draw,
        ensures
            r matches TurnState::Draw { draw_action } && draw_action@ == self->draw_action@.push(
                next_draw_action,
            ),
    {
        match self {
            TurnState::Draw { mut draw_action } => {
                draw_action.push(next_draw_action);
                TurnState::Draw { draw_action }
            },
            _ => {
                proof {
                    assert(false);
                }
                TurnState::Init
            },
        }
    }
}

impl Default for TurnState {
    fn default() -> (r: Self)
        ensures
            r is Init,
    {
        TurnState::Init
    }
}

#[derive(Debug)]
pub enum GameState {
    Init,
    Regular { turn_state: TurnState },
    Finished,
}

#[derive(Debug)]
pub struct Hand {
    player_id: Uuid,
    held_cards: Vec<CardReference>,
    status: HandState,
}

impl Hand {
    /// The references the player holds.
    pub closed spec fn cards(&self) -> Seq<CardReference> {
        self.held_cards@
    }

    pub closed spec fn state(&self) -> HandState {
        self.status
    }

    pub closed spec fn id(&self) -> Uuid {
        self.player_id
    }

    /// An empty, playing hand; a fresh identifier is drawn when none is given.
    pub fn new(id_opt: Option<Uuid>) -> (r: Self)
        ensures
            r.cards().len() == 0,
            r.state() == HandState::Playing,
            id_opt matches Some(id) ==> r.id() == id,
    {
        let player_id = match id_opt {
            Some(id) => id,
            None => Uuid::new_v4(),
        };
        Hand { held_cards: Vec::new(), status: HandState::Playing, player_id }
    }
}

impl Hand {
    pub fn held_cards(&self) -> (r: &Vec<CardReference>)
        ensures
            r@ == self.cards(),
    {
        &self.held_cards
    }

    pub fn status(&self) -> (r: HandState)
        ensures
            r == self.state(),
    {
        self.status
    }

    pub fn player_id(&self) -> (r: Uuid)
        ensures
            r == self.id(),
    {
        self.player_id
    }
}

impl Default for Hand {
    fn default() -> (r: Self)
        ensures
            r.cards().len() == 0,
            r.state() == HandState::Playing,
    {
        Hand::new(Some(Uuid::new_v4()))
    }
}

/// The total number of cards that a list of draw actions asks for.
pub open spec fn total_draw(actions: Seq<DrawAction>) -> nat
    decreases actions.len(),
{
    if actions.len() == 0 {
        0
    } else {
        total_draw(actions.drop_last()) + crate::cards::draw_amount(actions.last())
    }
}

/// The constraint under which the current player plays.
pub open spec fn action_for(color_wish: Option<Color>) -> CardAction {
    match color_wish {
        Some(c) => CardAction::ColorChange(c),
        None => CardAction::Regular,
    }
}

/// `phase` asks the current player to play under `color_wish`.
pub open spec fn is_play_phase(phase: GameState, color_wish: Option<Color>) -> bool {
    phase matches GameState::Regular { turn_state } && turn_state matches TurnState::PlayCard {
        card_action,
    } && card_action == action_for(color_wish)
}

/// `t` is a draw phase with exactly `actions` pending.
pub open spec fn is_draw_of(t: TurnState, actions: Seq<DrawAction>) -> bool {
    t matches TurnState::Draw { draw_action } && draw_action@ == actions
}

/// `phase` is the turn phase `t`.
pub open spec fn is_turn(phase: GameState, t: TurnState) -> bool {
    phase matches GameState::Regular { turn_state } && turn_state == t
}

/// The phases that playing `card` schedules: the first one, `phase`, and
/// those that follow it, `pending`. A skip skips the next player, a reverse
/// changes the direction, a draw-two makes the next player draw two, a wild
/// card sets the wished color, and a draw-four also makes the next player
/// draw four.
pub open spec fn follow_up(
    card: CardTypes,
    wished_color: Option<Color>,
    phase: GameState,
    pending: Seq<TurnState>,
) -> bool {
    match card {
        CardTypes::Normal(c) => match c.symbol {
            ColorSymbol::Skip => is_turn(phase, TurnState::Skip) && pending.len() == 1
                && pending[0] is NextPlayer,
            ColorSymbol::Reverse => is_turn(phase, TurnState::ChangeDirection) && pending.len()
                == 1 && pending[0] is NextPlayer,
            ColorSymbol::DrawTwo => is_turn(phase, TurnState::NextPlayer) && pending.len() == 1
                && is_draw_of(pending[0], seq![DrawAction::DrawTwo]),
            _ => is_turn(phase, TurnState::NextPlayer) && pending.len() == 0,
        },
        CardTypes::Wild(w) => match wished_color {
            Some(color) => is_turn(phase, TurnState::ColorWish { color }) && match w.symbol {
                WildSymbol::ChooseColor => pending.len() == 1 && pending[0] is NextPlayer,
                WildSymbol::DrawFour => pending.len() == 2 && pending[0] is NextPlayer
                    && is_draw_of(pending[1], seq![DrawAction::DrawFour]),
            },
            None => false,
        },
    }
}

/// The play of `selected` is taken: it is a legal reference, and a wild card
/// comes with a wished color.
pub open spec fn accepts(
    selected: Option<CardReference>,
    wished_color: Option<Color>,
    legal: Seq<CardReference>,
) -> bool {
    selected matches Some(c) && legal.contains(c) && (card_of(c) is Normal || wished_color is Some)
}

/// After a phase that does not end the turn: the next pending phase, or,
/// where none is left, a play under `color_wish`.
pub open spec fn takes_pending(
    pending: Seq<TurnState>,
    color_wish: Option<Color>,
    phase: GameState,
    rest: Seq<TurnState>,
) -> bool {
    if pending.len() == 0 {
        is_play_phase(phase, color_wish) && rest.len() == 0
    } else {
        is_turn(phase, pending[0]) && rest == pending.drop_first()
    }
}

/// All references held by `hands`, counted with multiplicity.
pub open spec fn hands_multiset(hands: Seq<Hand>) -> Multiset<CardReference>
    decreases hands.len(),
{
    if hands.len() == 0 {
        Multiset::empty()
    } else {
        hands_multiset(hands.drop_last()).add(hands.last().cards().to_multiset())
    }
}

/// Replacing one hand changes the references held by all hands by exactly
/// what that hand lost and gained.
pub proof fn lemma_hands_multiset_update(hands: Seq<Hand>, p: int, h: Hand)
    requires
        0 <= p < hands.len(),
    ensures
        hands_multiset(hands.update(p, h)).add(hands[p].cards().to_multiset()) =~= hands_multiset(
            hands,
        ).add(h.cards().to_multiset()),
    decreases hands.len(),
{
    broadcast use vstd::multiset::group_multiset_axioms;

    let u = hands.update(p, h);
    let rest = hands.drop_last();
    let a = hands[p].cards().to_multiset();
    let b = h.cards().to_multiset();
    if p == hands.len() - 1 {
        assert(u.drop_last() =~= rest);
        assert(hands_multiset(u) == hands_multiset(rest).add(b));
        assert(hands_multiset(hands) == hands_multiset(rest).add(a));
    } else {
        let c = hands.last().cards().to_multiset();
        assert(u.drop_last() =~= rest.update(p, h));
        lemma_hands_multiset_update(rest, p, h);
        assert(rest[p] == hands[p]);
        assert(hands_multiset(rest.update(p, h)).add(a) =~= hands_multiset(rest).add(b));
        assert(hands_multiset(u) == hands_multiset(rest.update(p, h)).add(c));
        assert(hands_multiset(hands) == hands_multiset(rest).add(c));
        let x = hands_multiset(rest.update(p, h));
        let y = hands_multiset(rest);
        assert forall|v: CardReference| #[trigger] x.add(c).add(a).count(v) == y.add(c).add(b).count(v) by {
            assert(x.add(a).count(v) == y.add(b).count(v));
        }
    }
}

/// Every hand is empty.
pub open spec fn all_empty(hands: Seq<Hand>) -> bool {
    forall|i: int| 0 <= i < hands.len() ==> (#[trigger] hands[i]).cards().len() == 0
}

proof fn lemma_empty_hands_multiset(hands: Seq<Hand>)
    requires
        all_empty(hands),
    ensures
        hands_multiset(hands) =~= Multiset::empty(),
    decreases hands.len(),
{
    broadcast use vstd::multiset::group_multiset_axioms;
    broadcast use vstd::seq_lib::group_to_multiset_ensures;

    if hands.len() > 0 {
        assert(hands.last() == hands[hands.len() - 1]);
        lemma_empty_hands_multiset(hands.drop_last());
        assert(hands.last().cards().to_multiset().len() == 0);
    }
}

/// `k` is the first position of `deck` whose card may start the stack.
pub open spec fn first_initial_position(deck: Seq<CardReference>, k: int) -> bool {
    &&& 0 <= k < deck.len()
    &&& valid_initial(card_of(deck[k]))
    &&& forall|j: int| 0 <= j < k ==> !valid_initial(card_of(#[trigger] deck[j]))
}

/// Some card of `deck` may start the stack.
pub open spec fn has_initial_card(deck: Seq<CardReference>) -> bool {
    exists|k: int| 0 <= k < deck.len() && valid_initial(card_of(#[trigger] deck[k]))
}

/// The player that follows `current` among `n` players in `direction`.
pub open spec fn following_player(current: int, n: int, direction: GameDirection) -> int {
    match direction {
        GameDirection::Clockwise => if current + 1 == n {
            0
        } else {
            current + 1
        },
        GameDirection::CounterClockwise => if current == 0 {
            n - 1
        } else {
            current - 1
        },
    }
}

/// The other direction of play.
pub open spec fn reversed(direction: GameDirection) -> GameDirection {
    match direction {
        GameDirection::Clockwise => GameDirection::CounterClockwise,
        GameDirection::CounterClockwise => GameDirection::Clockwise,
    }
}

#[derive(Debug)]
pub struct ActualSession {
    stack: Vec<CardReference>,
    deck: Vec<CardReference>,
    players: Vec<Hand>,
    game_direction: GameDirection,
    current_player: usize,
    player_number: usize,
    game_id: Uuid,
    phase: GameState,
    pending: Vec<TurnState>,
    color_wish: Option<Color>,
}

impl ActualSession {
    /// Deck, stack and hands together hold every reference exactly once.
    pub closed spec fn conserved(&self) -> bool {
        self.deck@.to_multiset().add(self.stack@.to_multiset()).add(
            hands_multiset(self.players@),
        ) == full_reference_set()
    }

    pub closed spec fn wf(&self) -> bool {
        &&& self.player_number == self.players@.len()
        &&& 2 <= self.player_number <= MAX_NUMBER_OF_PLAYERS
        &&& self.current_player < self.player_number
        &&& self.stack@.len() >= 1
        &&& self.conserved()
    }

    pub closed spec fn identity(&self) -> Uuid {
        self.game_id
    }

    pub fn get_game_id(&self) -> (r: &Uuid)
        ensures
            *r == self.identity(),
    {
        &self.game_id
    }

    /// `b` differs from `a` at most in its deck and in the cards of its hands.
    pub closed spec fn same_table(a: ActualSession, b: ActualSession) -> bool {
        &&& a.stack == b.stack
        &&& a.game_direction == b.game_direction
        &&& a.current_player == b.current_player
        &&& a.player_number == b.player_number
        &&& a.game_id == b.game_id
        &&& a.phase == b.phase
        &&& a.pending == b.pending
        &&& a.color_wish == b.color_wish
        &&& a.players@.len() == b.players@.len()
        &&& forall|q: int|
            0 <= q < a.players@.len() ==> (#[trigger] a.players@[q]).id() == b.players@[q].id()
                && a.players@[q].state() == b.players@[q].state()
    }

    /// Moves the last reference of the deck to the end of hand `p`.
    fn deal_one(&mut self, p: usize)
        requires
            old(self).conserved(),
            old(self).deck@.len() > 0,
            p < old(self).players@.len(),
        ensures
            final(self).conserved(),
            final(self).deck@ == old(self).deck@.drop_last(),
            final(self).players@.len() == old(self).players@.len(),
            forall|q: int|
                0 <= q < old(self).players@.len() && q != p ==> final(self).players@[q]
                    == old(self).players@[q],
            final(self).players@[p as int].cards() == old(self).players@[p as int].cards().push(
                old(self).deck@.last(),
            ),
            final(self).players@[p as int].id() == old(self).players@[p as int].id(),
            final(self).players@[p as int].state() == old(self).players@[p as int].state(),
            ActualSession::same_table(*old(self), *final(self)),
    {
        broadcast use vstd::multiset::group_multiset_axioms;
        broadcast use vstd::seq_lib::group_to_multiset_ensures;

        let ghost before = *self;
        let card = self.deck.pop().unwrap();
        self.players[p].held_cards.push(card);
        proof {
            let old_hands = before.players@;
            let new_hands = self.players@;
            assert(new_hands =~= old_hands.update(p as int, new_hands[p as int]));
            lemma_hands_multiset_update(old_hands, p as int, new_hands[p as int]);
            assert(before.deck@ =~= self.deck@.push(card));
            assert(new_hands[p as int].cards() =~= old_hands[p as int].cards().push(card));
            let d0 = before.deck@.to_multiset();
            let d1 = self.deck@.to_multiset();
            let s0 = self.stack@.to_multiset();
            let h0 = hands_multiset(old_hands);
            let h1 = hands_multiset(new_hands);
            let ho = old_hands[p as int].cards().to_multiset();
            let hn = new_hands[p as int].cards().to_multiset();
            assert(d0 =~= d1.insert(card));
            assert(hn =~= ho.insert(card));
            assert forall|v: CardReference| #[trigger] d1.add(s0).add(h1).count(v) == d0.add(
                s0,
            ).add(h0).count(v) by {
                assert(h1.add(ho).count(v) == h0.add(hn).count(v));
            }
            assert(d1.add(s0).add(h1) =~= d0.add(s0).add(h0));
        }
    }
}

/// Two lists of hands whose cards agree hand by hand hold the same references.
proof fn lemma_hands_multiset_same_cards(a: Seq<Hand>, b: Seq<Hand>)
    requires
        a.len() == b.len(),
        forall|q: int| 0 <= q < a.len() ==> (#[trigger] a[q]).cards() == b[q].cards(),
    ensures
        hands_multiset(a) == hands_multiset(b),
    decreases a.len(),
{
    if a.len() > 0 {
        assert(a.last().cards() == b.last().cards());
        lemma_hands_multiset_same_cards(a.drop_last(), b.drop_last());
    }
}

impl ActualSession {
    /// Moves the reference at position `k` of hand `p` onto the stack.
    fn play_one(&mut self, p: usize, k: usize)
        requires
            old(self).conserved(),
            p < old(self).players@.len(),
            k < old(self).players@[p as int].cards().len(),
        ensures
            final(self).conserved(),
            final(self).stack@ == old(self).stack@.push(old(self).players@[p as int].cards()[k as int]),
            final(self).deck == old(self).deck,
            final(self).players@.len() == old(self).players@.len(),
            forall|q: int|
                0 <= q < old(self).players@.len() && q != p ==> final(self).players@[q]
                    == old(self).players@[q],
            final(self).players@[p as int].cards() == old(self).players@[p as int].cards().remove(
                k as int,
            ),
            final(self).players@[p as int].id() == old(self).players@[p as int].id(),
            final(self).players@[p as int].state() == old(self).players@[p as int].state(),
            final(self).game_direction == old(self).game_direction,
            final(self).current_player == old(self).current_player,
            final(self).player_number == old(self).player_number,
            final(self).game_id == old(self).game_id,
            final(self).phase == old(self).phase,
            final(self).pending == old(self).pending,
            final(self).color_wish == old(self).color_wish,
    {
        broadcast use vstd::multiset::group_multiset_axioms;
        broadcast use vstd::seq_lib::group_to_multiset_ensures;

        let ghost before = *self;
        let card = self.players[p].held_cards.remove(k);
        self.stack.push(card);
        proof {
            let old_hands = before.players@;
            let new_hands = self.players@;
            assert(new_hands =~= old_hands.update(p as int, new_hands[p as int]));
            lemma_hands_multiset_update(old_hands, p as int, new_hands[p as int]);
            let d0 = self.deck@.to_multiset();
            let s0 = before.stack@.to_multiset();
            let s1 = self.stack@.to_multiset();
            let h0 = hands_multiset(old_hands);
            let h1 = hands_multiset(new_hands);
            let ho = old_hands[p as int].cards().to_multiset();
            let hn = new_hands[p as int].cards().to_multiset();
            assert(s1 =~= s0.insert(card));
            assert(hn == ho.remove(card));
            assert(ho.count(card) > 0);
            assert forall|v: CardReference| #[trigger] d0.add(s1).add(h1).count(v) == d0.add(
                s0,
            ).add(h0).count(v) by {
                assert(h1.add(ho).count(v) == h0.add(hn).count(v));
            }
            assert(d0.add(s1).add(h1) =~= d0.add(s0).add(h0));
        }
    }

    /// Puts every card of the stack but its top back into the (empty) deck,
    /// in random order.
    fn refill_deck(&mut self)
        requires
            old(self).conserved(),
            old(self).deck@.len() == 0,
            old(self).stack@.len() >= 1,
        ensures
            final(self).conserved(),
            final(self).stack@ == seq![old(self).stack@.last()],
            final(self).deck@.len() == old(self).stack@.len() - 1,
            final(self).players == old(self).players,
            final(self).game_direction == old(self).game_direction,
            final(self).current_player == old(self).current_player,
            final(self).player_number == old(self).player_number,
            final(self).game_id == old(self).game_id,
            final(self).phase == old(self).phase,
            final(self).pending == old(self).pending,
            final(self).color_wish == old(self).color_wish,
    {
        broadcast use vstd::multiset::group_multiset_axioms;
        broadcast use vstd::seq_lib::group_to_multiset_ensures;

        let ghost before = *self;
        let top = self.stack.pop().unwrap();
        self.deck.append(&mut self.stack);
        self.stack.push(top);
        let ghost ordered = self.deck@;
        crate::cards::shuffle_references(&mut self.deck);
        proof {
            assert(ordered =~= before.stack@.drop_last());
            assert(self.deck@.len() == self.deck@.to_multiset().len());
            assert(ordered.len() == ordered.to_multiset().len());
            assert(before.stack@ =~= ordered.push(top));
            assert(self.stack@ =~= seq![top]);
            assert(seq![top] =~= Seq::<CardReference>::empty().push(top));
            assert(before.deck@ =~= Seq::<CardReference>::empty());
            let h = hands_multiset(self.players@);
            assert(self.deck@.to_multiset().add(self.stack@.to_multiset()).add(h)
                =~= before.deck@.to_multiset().add(before.stack@.to_multiset()).add(h));
        }
    }

    /// Gives the current player one card from the deck, refilling the deck
    /// from the stack first when it is empty. Nothing is drawn when the deck
    /// is empty and the stack holds only its top card.
    fn draw_one(&mut self) -> (r: bool)
        requires
            old(self).wf(),
        ensures
            final(self).wf(),
            r == (old(self).deck@.len() + old(self).stack@.len() > 1),
            final(self).deck@.len() + final(self).stack@.len() == old(self).deck@.len()
                + old(self).stack@.len() - (if r {
                1int
            } else {
                0
            }),
            final(self).stack@.last() == old(self).stack@.last(),
            old(self).deck@.len() > 0 ==> final(self).deck@ == old(self).deck@.drop_last()
                && final(self).stack == old(self).stack,
            !r ==> final(self).deck == old(self).deck && final(self).stack == old(self).stack,
            final(self).players@.len() == old(self).players@.len(),
            forall|q: int|
                0 <= q < old(self).players@.len() && q != old(self).current_player
                    ==> final(self).players@[q] == old(self).players@[q],
            final(self).players@[old(self).current_player as int].cards() == if r {
                old(self).players@[old(self).current_player as int].cards().push(
                    if old(self).deck@.len() > 0 {
                        old(self).deck@.last()
                    } else {
                        final(self).players@[old(self).current_player as int].cards().last()
                    },
                )
            } else {
                old(self).players@[old(self).current_player as int].cards()
            },
            final(self).players@[old(self).current_player as int].id() == old(
                self,
            ).players@[old(self).current_player as int].id(),
            final(self).players@[old(self).current_player as int].state() == old(
                self,
            ).players@[old(self).current_player as int].state(),
            final(self).game_direction == old(self).game_direction,
            final(self).current_player == old(self).current_player,
            final(self).player_number == old(self).player_number,
            final(self).game_id == old(self).game_id,
            final(self).phase == old(self).phase,
            final(self).pending == old(self).pending,
            final(self).color_wish == old(self).color_wish,
    {
        if self.deck.len() == 0 && self.stack.len() > 1 {
            self.refill_deck();
        }
        if self.deck.len() > 0 {
            let p = self.current_player;
            self.deal_one(p);
            true
        } else {
            false
        }
    }
}

fn play_phase(color_wish: Option<Color>) -> (r: GameState)
    ensures
        is_play_phase(r, color_wish),
{
    let card_action = match color_wish {
        Some(c) => CardAction::ColorChange(c),
        None => CardAction::Regular,
    };
    GameState::Regular { turn_state: TurnState::PlayCard { card_action } }
}

fn contains_reference(refs: &Vec<CardReference>, card: CardReference) -> (r: bool)
    ensures
        r == refs@.contains(card),
{
    let mut i: usize = 0;
    while i < refs.len()
        invariant
            i <= refs@.len(),
            forall|j: int| 0 <= j < i ==> refs@[j] != card,
        decreases refs@.len() - i,
    {
        if refs[i] == card {
            return true;
        }
        i = i + 1;
    }
    false
}

fn position_of(refs: &Vec<CardReference>, card: CardReference) -> (k: usize)
    requires
        refs@.contains(card),
    ensures
        k < refs@.len(),
        refs@[k as int] == card,
{
    let mut i: usize = 0;
    while i < refs.len()
        invariant
            i <= refs@.len(),
            refs@.contains(card),
            forall|j: int| 0 <= j < i ==> refs@[j] != card,
        decreases refs@.len() - i,
    {
        if refs[i] == card {
            return i;
        }
        i = i + 1;
    }
    proof {
        let j = choose|j: int| 0 <= j < refs@.len() && refs@[j] == card;
        assert(refs@[j] != card);
    }
    0
}

impl ActualSession {
    /// `b` holds the same cards as `a`, in the same places.
    pub closed spec fn same_cards(a: ActualSession, b: ActualSession) -> bool {
        &&& a.deck == b.deck
        &&& a.stack == b.stack
        &&& a.players == b.players
    }

    /// Passes the turn to the following player.
    fn advance(&mut self)
        requires
            old(self).wf(),
        ensures
            final(self).wf(),
            final(self).current_player == following_player(
                old(self).current_player as int,
                old(self).player_number as int,
                old(self).game_direction,
            ),
            ActualSession::same_cards(*old(self), *final(self)),
            final(self).game_direction == old(self).game_direction,
            final(self).player_number == old(self).player_number,
            final(self).game_id == old(self).game_id,
            final(self).phase == old(self).phase,
            final(self).pending == old(self).pending,
            final(self).color_wish == old(self).color_wish,
    {
        match self.game_direction {
            GameDirection::Clockwise => {
                if self.current_player + 1 == self.player_number {
                    self.current_player = 0;
                } else {
                    self.current_player = self.current_player + 1;
                }
            },
            GameDirection::CounterClockwise => {
                if self.current_player == 0 {
                    self.current_player = self.player_number - 1;
                } else {
                    self.current_player = self.current_player - 1;
                }
            },
        }
    }

    /// Moves on to the next pending phase, or to a play when none is left.
    fn take_pending(&mut self)
        ensures
            takes_pending(old(self).pending@, old(self).color_wish, final(self).phase, final(self).pending@),
            ActualSession::same_cards(*old(self), *final(self)),
            final(self).game_direction == old(self).game_direction,
            final(self).current_player == old(self).current_player,
            final(self).player_number == old(self).player_number,
            final(self).game_id == old(self).game_id,
            final(self).color_wish == old(self).color_wish,
    {
        if self.pending.len() == 0 {
            self.phase = play_phase(self.color_wish);
        } else {
            let next = self.pending.remove(0);
            self.phase = GameState::Regular { turn_state: next };
        }
    }

    /// Marks hand `p` as the winner and every other hand as lost.
    fn finish(&mut self, p: usize)
        requires
            old(self).conserved(),
            p < old(self).players@.len(),
        ensures
            final(self).conserved(),
            final(self).deck == old(self).deck,
            final(self).stack == old(self).stack,
            final(self).players@.len() == old(self).players@.len(),
            forall|q: int|
                0 <= q < old(self).players@.len() ==> (#[trigger] final(self).players@[q]).cards()
                    == old(self).players@[q].cards() && final(self).players@[q].id() == old(
                    self,
                ).players@[q].id() && final(self).players@[q].state() == if q == p {
                    HandState::Won
                } else {
                    HandState::Lost
                },
            final(self).game_direction == old(self).game_direction,
            final(self).current_player == old(self).current_player,
            final(self).player_number == old(self).player_number,
            final(self).game_id == old(self).game_id,
            final(self).phase == old(self).phase,
            final(self).pending == old(self).pending,
            final(self).color_wish == old(self).color_wish,
    {
        let ghost before = *self;
        let n = self.players.len();
        let mut q: usize = 0;
        while q < n
            invariant
                q <= n,
                n == before.players@.len(),
                self.players@.len() == n,
                p < n,
                self.deck == before.deck,
                self.stack == before.stack,
                self.game_direction == before.game_direction,
                self.current_player == before.current_player,
                self.player_number == before.player_number,
                self.game_id == before.game_id,
                self.phase == before.phase,
                self.pending == before.pending,
                self.color_wish == before.color_wish,
                forall|j: int|
                    0 <= j < n ==> (#[trigger] self.players@[j]).cards() == before.players@[j].cards()
                        && self.players@[j].id() == before.players@[j].id(),
                forall|j: int|
                    0 <= j < q ==> (#[trigger] self.players@[j]).state() == if j == p {
                        HandState::Won
                    } else {
                        HandState::Lost
                    },
                forall|j: int|
                    q <= j < n ==> (#[trigger] self.players@[j]).state() == before.players@[j].state(),
            decreases n - q,
        {
            if q == p {
                self.players[q].status = HandState::Won;
            } else {
                self.players[q].status = HandState::Lost;
            }
            q = q + 1;
        }
        proof {
            lemma_hands_multiset_same_cards(before.players@, self.players@);
        }
    }
}

/// The smaller of two integers.
pub open spec fn min_of(a: int, b: int) -> int {
    if a < b {
        a
    } else {
        b
    }
}

proof fn lemma_total_draw_step(actions: Seq<DrawAction>, a: int)
    requires
        0 <= a < actions.len(),
    ensures
        total_draw(actions.take(a + 1)) == total_draw(actions.take(a))
            + crate::cards::draw_amount(actions[a]),
{
    assert(actions.take(a + 1).drop_last() =~= actions.take(a));
}

impl ActualSession {
    /// How a draw turn changes the session; see `draw_all`.
    pub closed spec fn drew(o: ActualSession, f: ActualSession, actions: Seq<DrawAction>) -> bool {
        let cur = o.current_player as int;
        let hand = o.players@[cur].cards();
        let total = total_draw(actions) as int;
        &&& f.stack@.last() == o.stack@.last()
        &&& f.players@.len() == o.players@.len()
        &&& forall|q: int| 0 <= q < o.players@.len() && q != cur ==> f.players@[q] == o.players@[q]
        &&& f.players@[cur].cards().len() == hand.len() + min_of(
            total,
            o.deck@.len() + o.stack@.len() - 1,
        )
        &&& f.players@[cur].cards().subrange(0, hand.len() as int) == hand
        &&& o.deck@.len() >= total ==> {
            &&& f.deck@ == o.deck@.subrange(0, o.deck@.len() - total)
            &&& f.stack == o.stack
            &&& f.players@[cur].cards() == hand + o.deck@.subrange(
                o.deck@.len() - total,
                o.deck@.len() as int,
            ).reverse()
        }
        &&& f.players@[cur].id() == o.players@[cur].id()
        &&& f.players@[cur].state() == o.players@[cur].state()
        &&& f.game_direction == o.game_direction
        &&& f.current_player == o.current_player
        &&& f.player_number == o.player_number
        &&& f.game_id == o.game_id
        &&& f.pending == o.pending
        &&& f.color_wish == o.color_wish
    }

    /// The current player draws what `actions` add up to, one card at a time.
    fn draw_all(&mut self, actions: &Vec<DrawAction>)
        requires
            old(self).wf(),
        ensures
            final(self).wf(),
            ActualSession::drew(*old(self), *final(self), actions@),
            final(self).phase == old(self).phase,
    {
        let ghost before = *self;
        let ghost cur = self.current_player as int;
        let ghost d = before.deck@.len() as int;
        let ghost st = before.stack@.len() as int;
        let ghost hand0 = before.players@[cur].cards();
        let ghost len0 = hand0.len() as int;
        let ghost mut drawn: int = 0;
        let mut a: usize = 0;
        assert(actions@.take(0) =~= Seq::<DrawAction>::empty());
        assert(hand0 + before.deck@.subrange(d, d).reverse() =~= hand0);
        while a < actions.len()
            invariant
                a <= actions@.len(),
                self.wf(),
                cur == before.current_player,
                d == before.deck@.len(),
                st == before.stack@.len(),
                st >= 1,
                hand0 == before.players@[cur].cards(),
                len0 == hand0.len(),
                drawn == min_of(total_draw(actions@.take(a as int)) as int, d + st - 1),
                self.stack@.last() == before.stack@.last(),
                self.deck@.len() + self.stack@.len() == d + st - drawn,
                self.players@.len() == before.players@.len(),
                forall|q: int|
                    0 <= q < before.players@.len() && q != cur ==> self.players@[q]
                        == before.players@[q],
                self.players@[cur].cards().len() == len0 + drawn,
                self.players@[cur].cards().subrange(0, len0) == hand0,
                self.players@[cur].id() == before.players@[cur].id(),
                self.players@[cur].state() == before.players@[cur].state(),
                drawn <= d ==> {
                    &&& self.deck@ == before.deck@.subrange(0, d - drawn)
                    &&& self.stack == before.stack
                    &&& self.players@[cur].cards() == hand0 + before.deck@.subrange(
                        d - drawn,
                        d,
                    ).reverse()
                },
                self.game_direction == before.game_direction,
                self.current_player == before.current_player,
                self.player_number == before.player_number,
                self.game_id == before.game_id,
                self.phase == before.phase,
                self.pending == before.pending,
                self.color_wish == before.color_wish,
            decreases actions@.len() - a,
        {
            let amount: u8 = u8::from(&actions[a]);
            let mut j: u8 = 0;
            while j < amount
                invariant
                    a < actions@.len(),
                    j <= amount,
                    amount == crate::cards::draw_amount(actions@[a as int]),
                    self.wf(),
                    cur == before.current_player,
                    d == before.deck@.len(),
                    st == before.stack@.len(),
                    st >= 1,
                    hand0 == before.players@[cur].cards(),
                    len0 == hand0.len(),
                    drawn == min_of(total_draw(actions@.take(a as int)) + j, d + st - 1),
                    self.stack@.last() == before.stack@.last(),
                    self.deck@.len() + self.stack@.len() == d + st - drawn,
                    self.players@.len() == before.players@.len(),
                    forall|q: int|
                        0 <= q < before.players@.len() && q != cur ==> self.players@[q]
                            == before.players@[q],
                    self.players@[cur].cards().len() == len0 + drawn,
                    self.players@[cur].cards().subrange(0, len0) == hand0,
                    self.players@[cur].id() == before.players@[cur].id(),
                    self.players@[cur].state() == before.players@[cur].state(),
                    drawn <= d ==> {
                        &&& self.deck@ == before.deck@.subrange(0, d - drawn)
                        &&& self.stack == before.stack
                        &&& self.players@[cur].cards() == hand0 + before.deck@.subrange(
                            d - drawn,
                            d,
                        ).reverse()
                    },
                    self.game_direction == before.game_direction,
                    self.current_player == before.current_player,
                    self.player_number == before.player_number,
                    self.game_id == before.game_id,
                    self.phase == before.phase,
                    self.pending == before.pending,
                    self.color_wish == before.color_wish,
                decreases amount - j,
            {
                let ghost prev = self.players@[cur].cards();
                let ghost prev_deck = self.deck@;
                let got = self.draw_one();
                proof {
                    if got {
                        if drawn < d {
                            assert(prev_deck.last() == before.deck@[d - 1 - drawn]);
                            assert(self.deck@ =~= before.deck@.subrange(0, d - drawn - 1));
                            assert(before.deck@.subrange(d - drawn - 1, d).reverse()
                                =~= before.deck@.subrange(d - drawn, d).reverse().push(
                                before.deck@[d - 1 - drawn],
                            ));
                            assert(self.players@[cur].cards() =~= hand0 + before.deck@.subrange(
                                d - drawn - 1,
                                d,
                            ).reverse());
                        }
                        assert(self.players@[cur].cards().subrange(0, len0) =~= hand0);
                        drawn = drawn + 1;
                    }
                }
                j = j + 1;
            }
            proof {
                lemma_total_draw_step(actions@, a as int);
            }
            a = a + 1;
        }
        assert(actions@.take(actions@.len() as int) =~= actions@);
    }
}

impl ActualSession {
    /// The references of the current hand that may be played now.
    pub closed spec fn legal_now(&self) -> Seq<CardReference> {
        legal_refs(
            self.stack@.last(),
            self.players@[self.current_player as int].cards(),
            self.color_wish,
        )
    }

    /// How a play turn changes the session; see `play_card`.
    pub closed spec fn played(
        o: ActualSession,
        f: ActualSession,
        selected: Option<CardReference>,
        wished_color: Option<Color>,
    ) -> bool {
        let legal = o.legal_now();
        let cur = o.current_player as int;
        let hand = o.players@[cur].cards();
        let c = selected->0;
        &&& legal.len() == 0 ==> {
            &&& ActualSession::same_cards(o, f)
            &&& f.phase matches GameState::Regular { turn_state } && is_draw_of(
                turn_state,
                seq![DrawAction::DrawOne],
            )
            &&& f.pending == o.pending
            &&& f.color_wish == o.color_wish
        }
        &&& legal.len() > 0 && !accepts(selected, wished_color, legal) ==> f == o
        &&& legal.len() > 0 && accepts(selected, wished_color, legal) ==> {
            &&& exists|k: int|
                0 <= k < hand.len() && hand[k] == c && f.players@[cur].cards() == hand.remove(k)
            &&& f.stack@ == o.stack@.push(c)
            &&& f.deck == o.deck
            &&& f.players@.len() == o.players@.len()
            &&& forall|q: int|
                0 <= q < o.players@.len() ==> (#[trigger] f.players@[q]).id()
                    == o.players@[q].id()
            &&& forall|q: int|
                0 <= q < o.players@.len() && q != cur ==> (#[trigger] f.players@[q]).cards()
                    == o.players@[q].cards()
            &&& f.players@[cur].cards().len() == 0 ==> {
                &&& f.phase is Finished
                &&& forall|q: int|
                    0 <= q < o.players@.len() ==> (#[trigger] f.players@[q]).state() == if q
                        == cur {
                        HandState::Won
                    } else {
                        HandState::Lost
                    }
            }
            &&& f.players@[cur].cards().len() > 0 ==> {
                &&& follow_up(card_of(c), wished_color, f.phase, f.pending@)
                &&& f.color_wish == if card_of(c) is Normal {
                    None
                } else {
                    o.color_wish
                }
                &&& forall|q: int|
                    0 <= q < o.players@.len() ==> (#[trigger] f.players@[q]).state()
                        == o.players@[q].state()
            }
        }
        &&& f.game_direction == o.game_direction
        &&& f.current_player == o.current_player
        &&& f.player_number == o.player_number
        &&& f.game_id == o.game_id
    }

    /// The current player plays `selected`, naming `wished_color` for a wild
    /// card. With no legal reference the player has to draw one card; a play
    /// that is not accepted changes nothing.
    fn play_card(&mut self, selected: Option<CardReference>, wished_color: Option<Color>)
        requires
            old(self).wf(),
        ensures
            final(self).wf(),
            ActualSession::played(*old(self), *final(self), selected, wished_color),
    {
        broadcast use vstd::seq_lib::group_filter_ensures;

        let cur = self.current_player;
        let top = self.stack[self.stack.len() - 1];
        let options = possible_next_card(top, &self.players[cur].held_cards, self.color_wish);
        let ghost legal = self.legal_now();
        match options {
            Play::DrawCards { .. } => {
                self.phase = GameState::Regular { turn_state: TurnState::new_default_draw() };
            },
            Play::PossibleCards { options } => {
                if let Some(card_ref) = selected {
                    if contains_reference(&options, card_ref) {
                        let card = crate::cards::retrieve_card(&card_ref);
                        let takes_color = match card {
                            CardTypes::Normal(_) => true,
                            CardTypes::Wild(_) => wished_color.is_some(),
                        };
                        if takes_color {
                            proof {
                                let hand = self.players@[cur as int].cards();
                                let pred = |r: CardReference|
                                    legal_next(card_of(top), card_of(r), self.color_wish);
                                hand.lemma_filter_contains_rev(pred, card_ref);
                            }
                            let k = position_of(&self.players[cur].held_cards, card_ref);
                            self.play_one(cur, k);
                            if self.players[cur].held_cards.len() == 0 {
                                self.finish(cur);
                                self.phase = GameState::Finished;
                            } else {
                                self.schedule(card, wished_color);
                            }
                        }
                    }
                }
            },
        }
    }

    /// Sets the phases that playing `card` brings about.
    fn schedule(&mut self, card: CardTypes, wished_color: Option<Color>)
        requires
            card is Normal || wished_color is Some,
        ensures
            follow_up(card, wished_color, final(self).phase, final(self).pending@),
            final(self).color_wish == if card is Normal {
                None
            } else {
                old(self).color_wish
            },
            ActualSession::same_cards(*old(self), *final(self)),
            final(self).game_direction == old(self).game_direction,
            final(self).current_player == old(self).current_player,
            final(self).player_number == old(self).player_number,
            final(self).game_id == old(self).game_id,
    {
        match card {
            CardTypes::Normal(c) => {
                self.color_wish = None;
                let mut pending: Vec<TurnState> = Vec::new();
                match c.symbol {
                    ColorSymbol::Skip => {
                        self.phase = GameState::Regular { turn_state: TurnState::Skip };
                        pending.push(TurnState::NextPlayer);
                    },
                    ColorSymbol::Reverse => {
                        self.phase = GameState::Regular { turn_state: TurnState::ChangeDirection };
                        pending.push(TurnState::NextPlayer);
                    },
                    ColorSymbol::DrawTwo => {
                        self.phase = GameState::Regular { turn_state: TurnState::NextPlayer };
                        let mut draws: Vec<DrawAction> = Vec::new();
                        draws.push(DrawAction::DrawTwo);
                        assert(draws@ == seq![DrawAction::DrawTwo]);
                        pending.push(TurnState::new_draw(draws));
                    },
                    _ => {
                        self.phase = GameState::Regular { turn_state: TurnState::NextPlayer };
                    },
                }
                self.pending = pending;
            },
            CardTypes::Wild(w) => {
                let color = wished_color.unwrap();
                self.phase = GameState::Regular { turn_state: TurnState::ColorWish { color } };
                let mut pending: Vec<TurnState> = Vec::new();
                pending.push(TurnState::NextPlayer);
                if w.symbol == WildSymbol::DrawFour {
                    let mut draws: Vec<DrawAction> = Vec::new();
                    draws.push(DrawAction::DrawFour);
                    assert(draws@ == seq![DrawAction::DrawFour]);
                    pending.push(TurnState::new_draw(draws));
                }
                self.pending = pending;
            },
        }
    }
}

pub trait GameSessionState {

}

impl GameSessionState for GameSetup {

}

impl GameSessionState for Play {

}

impl GameSessionState for ColorWish {

}

impl GameSessionState for FinishGame {

}

#[derive(Debug)]
pub struct GameSession<G: GameSessionState> {
    game_state: G,
    session_state: ActualSession,
}

impl<G: GameSessionState> GameSession<G> {
    pub closed spec fn deck(&self) -> Seq<CardReference> {
        self.session_state.deck@
    }

    pub closed spec fn stack(&self) -> Seq<CardReference> {
        self.session_state.stack@
    }

    pub closed spec fn hands(&self) -> Seq<Hand> {
        self.session_state.players@
    }

    pub closed spec fn current(&self) -> int {
        self.session_state.current_player as int
    }

    pub closed spec fn direction(&self) -> GameDirection {
        self.session_state.game_direction
    }

    pub closed spec fn phase(&self) -> GameState {
        self.session_state.phase
    }

    pub closed spec fn pending(&self) -> Seq<TurnState> {
        self.session_state.pending@
    }

    pub closed spec fn wish(&self) -> Option<Color> {
        self.session_state.color_wish
    }

    pub closed spec fn identity(&self) -> Uuid {
        self.session_state.game_id
    }

    pub closed spec fn state(&self) -> G {
        self.game_state
    }

    pub closed spec fn session(&self) -> ActualSession {
        self.session_state
    }

    /// The reference on top of the stack.
    pub open spec fn top(&self) -> CardReference {
        self.stack().last()
    }

    /// The invariant of every session: 2 to 10 players, a valid current
    /// player, a non-empty stack, and every reference held exactly once by
    /// deck, stack and hands together.
    pub closed spec fn wf(&self) -> bool {
        self.session_state.wf()
    }

    /// In every well-formed session, deck, stack and hands together hold
    /// each reference of the catalog exactly once.
    pub proof fn lemma_every_card_once(&self)
        requires
            self.wf(),
        ensures
            self.deck().to_multiset().add(self.stack().to_multiset()).add(
                hands_multiset(self.hands()),
            ) == full_reference_set(),
            2 <= self.hands().len() <= MAX_NUMBER_OF_PLAYERS,
            0 <= self.current() < self.hands().len(),
            self.stack().len() >= 1,
    {
    }
}

impl GameSession<GameSetup> {
    /// Removes and returns the first reference of `deck` whose card may start
    /// the stack.
    pub fn find_starting_card(deck: &mut Vec<CardReference>) -> (r: Result<
        CardReference,
        GameError,
    >)
        ensures
            r is Ok <==> has_initial_card(old(deck)@),
            r matches Ok(c) ==> {
                &&& valid_initial(card_of(c))
                &&& final(deck)@.len() == old(deck)@.len() - 1
                &&& exists|k: int|
                    first_initial_position(old(deck)@, k) && c == old(deck)@[k] && final(deck)@
                        == old(deck)@.remove(k)
            },
            r is Err ==> r == Err::<CardReference, GameError>(GameError::EmptyDeck) && final(deck)@
                == old(deck)@,
    {
        let ghost d0 = deck@;
        let mut i: usize = 0;
        while i < deck.len()
            invariant
                i <= deck@.len(),
                deck@ == d0,
                d0 == old(deck)@,
                forall|j: int| 0 <= j < i ==> !valid_initial(card_of(#[trigger] d0[j])),
            decreases deck@.len() - i,
        {
            let card = crate::cards::retrieve_card(&deck[i]);
            if card.is_possible_initial_card() {
                let c = deck.remove(i);
                assert(valid_initial(card_of(d0[i as int])));
                assert(first_initial_position(d0, i as int));
                assert(first_initial_position(d0, i as int) && c == d0[i as int] && deck@ == d0.remove(
                    i as int,
                ));
                return Ok(c);
            }
            i = i + 1;
        }
        Err(GameError::EmptyDeck)
    }

    fn deal_out_hand_cards(self) -> (r: Self)
        requires
            self.wf(),
            all_empty(self.hands()),
            self.deck().len() >= INITIAL_HAND_CARDS * self.hands().len(),
        ensures
            r.wf(),
            ActualSession::same_table(self.session_state, r.session_state),
            r.deck() == self.deck().subrange(
                0,
                self.deck().len() - INITIAL_HAND_CARDS * self.hands().len(),
            ),
            forall|q: int|
                0 <= q < r.hands().len() ==> (#[trigger] r.hands()[q]).cards().len()
                    == INITIAL_HAND_CARDS,
    {
        let mut session = self;
        let player_count = session.session_state.players.len();
        let ghost before = session.session_state;
        let ghost d = before.deck@.len();
        let mut round: usize = 0;
        while round < INITIAL_HAND_CARDS
            invariant
                round <= INITIAL_HAND_CARDS,
                player_count == before.players@.len(),
                d == before.deck@.len(),
                d >= INITIAL_HAND_CARDS * player_count,
                session.session_state.wf(),
                ActualSession::same_table(before, session.session_state),
                session.session_state.deck@ == before.deck@.subrange(
                    0,
                    d - round * player_count,
                ),
                forall|q: int|
                    0 <= q < player_count ==> (#[trigger] session.session_state.players@[q]).cards().len()
                        == round,
            decreases INITIAL_HAND_CARDS - round,
        {
            let mut player_nr: usize = 0;
            while player_nr < player_count
                invariant
                    round < INITIAL_HAND_CARDS,
                    player_nr <= player_count,
                    player_count == before.players@.len(),
                    d == before.deck@.len(),
                    d >= INITIAL_HAND_CARDS * player_count,
                    session.session_state.wf(),
                    ActualSession::same_table(before, session.session_state),
                    session.session_state.deck@ == before.deck@.subrange(
                        0,
                        d - round * player_count - player_nr,
                    ),
                    forall|q: int|
                        0 <= q < player_count ==> (#[trigger] session.session_state.players@[q]).cards().len()
                            == if q < player_nr {
                            round + 1
                        } else {
                            round as int
                        },
                decreases player_count - player_nr,
            {
                assert(round * player_count + player_nr < INITIAL_HAND_CARDS * player_count)
                    by (nonlinear_arith)
                    requires
                        round < INITIAL_HAND_CARDS,
                        player_nr < player_count,
                ;
                session.session_state.deal_one(player_nr);
                player_nr = player_nr + 1;
            }
            assert(round * player_count + player_count == (round + 1) * player_count)
                by (nonlinear_arith);
            round = round + 1;
        }
        session
    }

    pub fn new(players: Vec<Hand>) -> (r: Result<Self, GameError>)
        requires
            all_empty(players@),
        ensures
            players@.len() < 2 ==> r == Err::<Self, GameError>(GameError::NotEnoughPlayers),
            players@.len() > MAX_NUMBER_OF_PLAYERS ==> r == Err::<Self, GameError>(
                GameError::ToManyPlayers,
            ),
            r is Ok <==> 2 <= players@.len() <= MAX_NUMBER_OF_PLAYERS,
            r matches Ok(s) ==> {
                &&& s.wf()
                &&& s.hands().len() == players@.len()
                &&& forall|q: int|
                    0 <= q < players@.len() ==> (#[trigger] s.hands()[q]).cards().len()
                        == INITIAL_HAND_CARDS && s.hands()[q].id() == players@[q].id()
                        && s.hands()[q].state() == players@[q].state()
                &&& s.deck().len() == MAX_CARD_NUMBER - 1 - INITIAL_HAND_CARDS * players@.len()
                &&& s.stack().len() == 1
                &&& valid_initial(card_of(s.top()))
                &&& s.current() == 0
                &&& s.direction() == GameDirection::Clockwise
                &&& s.phase() is Init
                &&& s.wish() is None
                &&& s.pending().len() == 0
            },
    {
        let player_number: usize = players.len();
        if player_number < 2 {
            return Err(GameError::NotEnoughPlayers);
        } else if player_number > MAX_NUMBER_OF_PLAYERS {
            return Err(GameError::ToManyPlayers);
        }
        let mut deck = create_deck();
        proof {
            assert(crate::cards::holds_index(deck@, 8));
            let i = choose|i: int| 0 <= i < deck@.len() && #[trigger] deck@[i]@ == 8;
            assert(valid_initial(card_of(deck@[i])));
        }
        let ghost full_deck = deck@;
        let starting_card = match GameSession::find_starting_card(&mut deck) {
            Ok(card) => card,
            Err(e) => {
                return Err(e);
            },
        };
        proof {
            broadcast use vstd::multiset::group_multiset_axioms;
            broadcast use vstd::seq_lib::group_to_multiset_ensures;

            let k = choose|k: int|
                first_initial_position(full_deck, k) && starting_card == full_deck[k] && deck@
                    == full_deck.remove(k);
            lemma_empty_hands_multiset(players@);
            assert(seq![starting_card].to_multiset() =~= Multiset::singleton(starting_card));
            assert(deck@.to_multiset() == full_deck.to_multiset().remove(starting_card));
            assert(full_deck.to_multiset().count(starting_card) > 0);
            assert(deck@.to_multiset().add(seq![starting_card].to_multiset()).add(
                hands_multiset(players@),
            ) =~= full_deck.to_multiset());
        }
        let session = ActualSession {
            stack: vec![starting_card],
            deck,
            players,
            game_direction: GameDirection::Clockwise,
            current_player: 0,
            player_number,
            game_id: Uuid::new_v4(),
            phase: GameState::Init,
            pending: Vec::new(),
            color_wish: None,
        };
        assert(session.stack@ == seq![starting_card]);
        assert(session.conserved());
        let init = GameSession { session_state: session, game_state: GameSetup {  } };
        Ok(init.deal_out_hand_cards())
    }

    pub fn start_game(self) -> (r: GameSession<Play>)
        requires
            self.wf(),
        ensures
            r.wf(),
            r.deck() == self.deck(),
            r.stack() == self.stack(),
            r.hands() == self.hands(),
            r.current() == self.current(),
            r.direction() == self.direction(),
            r.wish() == self.wish(),
            r.pending() == self.pending(),
            r.identity() == self.identity(),
            r.phase() matches GameState::Regular { turn_state } && turn_state matches TurnState::PlayCard {
                card_action,
            } && card_action == CardAction::Regular,
            is_play_for(r.state(), r.top(), r.hands()[r.current()].cards(), None),
    {
        let mut session_state = self.session_state;
        let top = session_state.stack[session_state.stack.len() - 1];
        let current_hand = &session_state.players[session_state.current_player];
        let next_play = possible_next_card(top, &current_hand.held_cards, None);
        session_state.phase = GameState::Regular {
            turn_state: TurnState::PlayCard { card_action: CardAction::Regular },
        };
        GameSession::<Play> { session_state, game_state: next_play }
    }
}

impl ActualSession {
    /// How one call of `progress` changes the session, phase by phase: a
    /// finished game stays as it is; a play or a draw goes as `played` and
    /// `drew` say, a draw being followed by a play; skip and next-player pass
    /// the turn on, a color wish sets the wished color, a change of direction
    /// reverses it, and each of these moves on to the next pending phase.
    pub closed spec fn stepped(
        o: ActualSession,
        f: ActualSession,
        selected: Option<CardReference>,
        wished_color: Option<Color>,
    ) -> bool {
        let passed_on = following_player(
            o.current_player as int,
            o.player_number as int,
            o.game_direction,
        );
        &&& f.game_id == o.game_id
        &&& f.player_number == o.player_number
        &&& match o.phase {
            GameState::Finished => f == o,
            GameState::Init => {
                &&& ActualSession::same_cards(o, f)
                &&& is_play_phase(f.phase, o.color_wish)
                &&& f.pending == o.pending
                &&& f.color_wish == o.color_wish
                &&& f.current_player == o.current_player
                &&& f.game_direction == o.game_direction
            },
            GameState::Regular { turn_state } => match turn_state {
                TurnState::Init => {
                    &&& ActualSession::same_cards(o, f)
                    &&& is_play_phase(f.phase, o.color_wish)
                    &&& f.pending == o.pending
                    &&& f.color_wish == o.color_wish
                    &&& f.current_player == o.current_player
                    &&& f.game_direction == o.game_direction
                },
                TurnState::PlayCard { .. } => ActualSession::played(o, f, selected, wished_color),
                TurnState::Draw { draw_action } => {
                    &&& ActualSession::drew(o, f, draw_action@)
                    &&& is_play_phase(f.phase, o.color_wish)
                },
                TurnState::Skip => {
                    &&& ActualSession::same_cards(o, f)
                    &&& f.current_player == passed_on
                    &&& takes_pending(o.pending@, o.color_wish, f.phase, f.pending@)
                    &&& f.color_wish == o.color_wish
                    &&& f.game_direction == o.game_direction
                },
                TurnState::NextPlayer => {
                    &&& ActualSession::same_cards(o, f)
                    &&& f.current_player == passed_on
                    &&& takes_pending(o.pending@, o.color_wish, f.phase, f.pending@)
                    &&& f.color_wish == o.color_wish
                    &&& f.game_direction == o.game_direction
                },
                TurnState::ColorWish { color } => {
                    &&& ActualSession::same_cards(o, f)
                    &&& f.color_wish == Some(color)
                    &&& takes_pending(o.pending@, Some(color), f.phase, f.pending@)
                    &&& f.current_player == o.current_player
                    &&& f.game_direction == o.game_direction
                },
                TurnState::ChangeDirection => {
                    &&& ActualSession::same_cards(o, f)
                    &&& f.game_direction == reversed(o.game_direction)
                    &&& takes_pending(o.pending@, o.color_wish, f.phase, f.pending@)
                    &&& f.current_player == o.current_player
                    &&& f.color_wish == o.color_wish
                },
            },
        }
    }
}

impl<G: GameSessionState> GameSession<G> {
    /// Passes the turn to the following player in the direction of play.
    pub fn next_player(self) -> (r: Self)
        requires
            self.wf(),
        ensures
            r.wf(),
            r.state() == self.state(),
            r.current() == following_player(
                self.current(),
                self.hands().len() as int,
                self.direction(),
            ),
            ActualSession::same_cards(self.session(), r.session()),
            r.direction() == self.direction(),
            r.phase() == self.phase(),
            r.pending() == self.pending(),
            r.wish() == self.wish(),
            r.identity() == self.identity(),
    {
        let GameSession { game_state, session_state } = self;
        let mut session = session_state;
        session.advance();
        GameSession { game_state, session_state: session }
    }

    /// Reverses the direction of play.
    pub fn change_direction(self) -> (r: Self)
        requires
            self.wf(),
        ensures
            r.wf(),
            r.state() == self.state(),
            r.direction() == reversed(self.direction()),
            ActualSession::same_cards(self.session(), r.session()),
            r.current() == self.current(),
            r.phase() == self.phase(),
            r.pending() == self.pending(),
            r.wish() == self.wish(),
            r.identity() == self.identity(),
    {
        let GameSession { game_state, session_state } = self;
        let mut session = session_state;
        session.game_direction = match session.game_direction {
            GameDirection::Clockwise => GameDirection::CounterClockwise,
            GameDirection::CounterClockwise => GameDirection::Clockwise,
        };
        GameSession { game_state, session_state: session }
    }

    /// The hands, in seating order.
    pub fn players(&self) -> (r: &Vec<Hand>)
        ensures
            r@ == self.hands(),
    {
        &self.session_state.players
    }

    /// Index of the player whose turn it is.
    pub fn current_player(&self) -> (r: usize)
        ensures
            r == self.current(),
    {
        self.session_state.current_player
    }

    pub fn id(&self) -> (r: &Uuid)
        ensures
            *r == self.identity(),
    {
        &self.session_state.game_id
    }

    pub fn get_session(&self) -> (r: &ActualSession)
        ensures
            *r == self.session(),
    {
        &self.session_state
    }

    pub fn direction_of_play(&self) -> (r: GameDirection)
        ensures
            r == self.direction(),
    {
        self.session_state.game_direction
    }

    /// Number of references left in the deck.
    pub fn deck_len(&self) -> (r: usize)
        ensures
            r == self.deck().len(),
    {
        self.session_state.deck.len()
    }

    /// The reference on top of the stack.
    pub fn top_of_stack(&self) -> (r: CardReference)
        requires
            self.wf(),
        ensures
            r == self.top(),
    {
        self.session_state.stack[self.session_state.stack.len() - 1]
    }

    /// The color that a wild card asked for, while it holds.
    pub fn color_wish(&self) -> (r: Option<Color>)
        ensures
            r == self.wish(),
    {
        self.session_state.color_wish
    }

    pub fn is_finished(&self) -> (r: bool)
        ensures
            r == self.phase() is Finished,
    {
        match self.session_state.phase {
            GameState::Finished => true,
            _ => false,
        }
    }
}

fn view_of(session: &ActualSession) -> (r: Play)
    requires
        session.wf(),
    ensures
        is_play_for(
            r,
            session.stack@.last(),
            session.players@[session.current_player as int].cards(),
            session.color_wish,
        ),
{
    let top = session.stack[session.stack.len() - 1];
    possible_next_card(top, &session.players[session.current_player].held_cards, session.color_wish)
}

impl GameSession<Play> {
    /// What the current player may do: the legal references, or a forced
    /// draw.
    pub fn current_play(&self) -> (r: &Play)
        ensures
            *r == self.state(),
    {
        &self.game_state
    }

    /// The current player draws the cards that `draw_actions` add up to.
    pub fn draw_cards(self, draw_actions: &Vec<DrawAction>) -> (r: Self)
        requires
            self.wf(),
        ensures
            r.wf(),
            ActualSession::drew(self.session(), r.session(), draw_actions@),
            r.phase() == self.phase(),
            is_play_for(r.state(), r.top(), r.hands()[r.current()].cards(), r.wish()),
    {
        let mut session = self.session_state;
        session.draw_all(draw_actions);
        let view = view_of(&session);
        GameSession { session_state: session, game_state: view }
    }

    /// Carries out the current phase: one step of the turn, after which the
    /// view of the current player is brought up to date. `selected` and
    /// `wished_color` are read only in a play phase.
    pub fn progress(self, selected: Option<CardReference>, wished_color: Option<Color>) -> (r: Self)
        requires
            self.wf(),
        ensures
            r.wf(),
            ActualSession::stepped(self.session(), r.session(), selected, wished_color),
            is_play_for(r.state(), r.top(), r.hands()[r.current()].cards(), r.wish()),
    {
        let mut session = self.session_state;
        let mut phase = GameState::Finished;
        core::mem::swap(&mut phase, &mut session.phase);
        match phase {
            GameState::Finished => {
                session.phase = GameState::Finished;
            },
            GameState::Init => {
                session.phase = play_phase(session.color_wish);
            },
            GameState::Regular { turn_state } => match turn_state {
                TurnState::Init => {
                    session.phase = play_phase(session.color_wish);
                },
                TurnState::PlayCard { card_action } => {
                    session.phase = GameState::Regular {
                        turn_state: TurnState::PlayCard { card_action },
                    };
                    session.play_card(selected, wished_color);
                },
                TurnState::Draw { draw_action } => {
                    session.draw_all(&draw_action);
                    session.phase = play_phase(session.color_wish);
                },
                TurnState::Skip => {
                    session.advance();
                    session.take_pending();
                },
                TurnState::NextPlayer => {
                    session.advance();
                    session.take_pending();
                },
                TurnState::ColorWish { color } => {
                    session.color_wish = Some(color);
                    session.take_pending();
                },
                TurnState::ChangeDirection => {
                    session.game_direction = match session.game_direction {
                        GameDirection::Clockwise => GameDirection::CounterClockwise,
                        GameDirection::CounterClockwise => GameDirection::Clockwise,
                    };
                    session.take_pending();
                },
            },
        }
        let view = view_of(&session);
        GameSession { session_state: session, game_state: view }
    }
}

} // verus!

//! Jokers that look at the cards: at the card that scores, at the card held
//! in hand, or at all of them.

use crate::cards::{Card, JokerCard, Rank, Suit};
use crate::errors::GameResult;
use crate::game::{Change, Factor, GameState, GameView, Reason, ScoreStep};
use crate::jokers::{ActivationType, JokerEffect};
use vstd::prelude::*;

verus! {

/// Twice the rank of the lowest card held in hand, as mult.
#[derive(Clone, Copy, Debug, PartialEq, Eq, Structural)]
pub struct RaisedFist;

impl JokerEffect for RaisedFist {
    open spec fn spec_activation_type(&self) -> ActivationType {
        ActivationType::OnHeld
    }

    fn activation_type(&self) -> (activation: ActivationType) {
        ActivationType::OnHeld
    }

    open spec fn spec_can_apply(&self, state: GameView) -> bool {
        true
    }

    fn can_apply(&self, game_state: &GameState) -> (ready: bool) {
        true
    }

    open spec fn effect(&self, state: GameView, joker_card: JokerCard, current_card: Card) -> GameView {
        state.with_step(
            Reason::JokerOnCard(joker_card, current_card),
            Change::AddMult((2 * current_card.rank.spec_rank_value()) as u128),
        )
    }

    fn apply(&self, game_state: &mut GameState, joker_card: &JokerCard, current_card: &Card) -> (done: GameResult<()>) {
        let rank_value = current_card.rank.rank_value();
        game_state.record(
            Reason::JokerOnCard(*joker_card, *current_card),
            Change::AddMult(2 * (rank_value as u128)),
        );
        Ok(())
    }
}

/// True when every card is a spade, a club or wild.
pub open spec fn all_black(cards: Seq<Card>) -> bool {
    forall|i: int|
        0 <= i < cards.len() ==> (#[trigger] cards[i]).suit == Suit::Spades || cards[i].suit
            == Suit::Clubs || cards[i].spec_is_wild()
}

/// True when every card is a spade, a club or wild.
pub fn is_all_black(cards: &Vec<Card>) -> (black: bool)
    ensures
        black == all_black(cards@),
{
    let mut i: usize = 0;
    while i < cards.len()
        invariant
            i <= cards@.len(),
            forall|j: int|
                0 <= j < i ==> (#[trigger] cards@[j]).suit == Suit::Spades || cards@[j].suit
                    == Suit::Clubs || cards@[j].spec_is_wild(),
        decreases cards@.len() - i,
    {
        let card = &cards[i];
        if !(card.suit == Suit::Spades || card.suit == Suit::Clubs || card.is_wild()) {
            return false;
        }
        i += 1;
    }
    true
}

/// Three times the mult when every card held in hand is a spade, a club or wild.
#[derive(Clone, Copy, Debug, PartialEq, Eq, Structural)]
pub struct Blackboard;

impl JokerEffect for Blackboard {
    open spec fn spec_activation_type(&self) -> ActivationType {
        ActivationType::Independent
    }

    fn activation_type(&self) -> (activation: ActivationType) {
        ActivationType::Independent
    }

    open spec fn spec_can_apply(&self, state: GameView) -> bool {
        all_black(state.cards_held_in_hand)
    }

    fn can_apply(&self, game_state: &GameState) -> (ready: bool) {
        is_all_black(&game_state.round.cards_held_in_hand)
    }

    open spec fn effect(&self, state: GameView, joker_card: JokerCard, current_card: Card) -> GameView {
        state.with_step(Reason::Joker(joker_card), Change::TimesMult(Factor::Triple))
    }

    fn apply(&self, game_state: &mut GameState, joker_card: &JokerCard, current_card: &Card) -> (done: GameResult<()>) {
        game_state.record(Reason::Joker(*joker_card), Change::TimesMult(Factor::Triple));
        Ok(())
    }
}

/// Half the mult again for each king held in hand.
#[derive(Clone, Copy, Debug, PartialEq, Eq, Structural)]
pub struct Baron;

impl JokerEffect for Baron {
    open spec fn spec_activation_type(&self) -> ActivationType {
        ActivationType::OnHeld
    }

    fn activation_type(&self) -> (activation: ActivationType) {
        ActivationType::OnHeld
    }

    open spec fn spec_can_apply(&self, state: GameView) -> bool {
        true
    }

    fn can_apply(&self, game_state: &GameState) -> (ready: bool) {
        true
    }

    open spec fn effect(&self, state: GameView, joker_card: JokerCard, current_card: Card) -> GameView {
        if current_card.rank == Rank::King {
            state.with_step(Reason::JokerOnCard(joker_card, current_card), Change::TimesMult(Factor::OneAndHalf))
        } else {
            state
        }
    }

    fn apply(&self, game_state: &mut GameState, joker_card: &JokerCard, current_card: &Card) -> (done: GameResult<()>) {
        if current_card.rank == Rank::King {
            game_state.record(Reason::JokerOnCard(*joker_card, *current_card), Change::TimesMult(Factor::OneAndHalf));
        }
        Ok(())
    }
}

/// 3 mult more for each diamond that scores.
#[derive(Clone, Copy, Debug, PartialEq, Eq, Structural)]
pub struct GreedyJoker;

impl JokerEffect for GreedyJoker {
    open spec fn spec_activation_type(&self) -> ActivationType {
        ActivationType::OnScored
    }

    fn activation_type(&self) -> (activation: ActivationType) {
        ActivationType::OnScored
    }

    open spec fn spec_can_apply(&self, state: GameView) -> bool {
        true
    }

    fn can_apply(&self, game_state: &GameState) -> (ready: bool) {
        true
    }

    open spec fn effect(&self, state: GameView, joker_card: JokerCard, current_card: Card) -> GameView {
        if current_card.suit == Suit::Diamonds || current_card.spec_is_wild() {
            state.with_step(Reason::JokerOnCard(joker_card, current_card), Change::AddMult(3))
        } else {
            state
        }
    }

    fn apply(&self, game_state: &mut GameState, joker_card: &JokerCard, current_card: &Card) -> (done: GameResult<()>) {
        if current_card.suit == Suit::Diamonds || current_card.is_wild() {
            game_state.record(Reason::JokerOnCard(*joker_card, *current_card), Change::AddMult(3));
        }
        Ok(())
    }
}

/// 3 mult more for each heart that scores.
#[derive(Clone, Copy, Debug, PartialEq, Eq, Structural)]
pub struct LustyJoker;

impl JokerEffect for LustyJoker {
    open spec fn spec_activation_type(&self) -> ActivationType {
        ActivationType::OnScored
    }

    fn activation_type(&self) -> (activation: ActivationType) {
        ActivationType::OnScored
    }

    open spec fn spec_can_apply(&self, state: GameView) -> bool {
        true
    }

    fn can_apply(&self, game_state: &GameState) -> (ready: bool) {
        true
    }

    open spec fn effect(&self, state: GameView, joker_card: JokerCard, current_card: Card) -> GameView {
        if current_card.suit == Suit::Hearts || current_card.spec_is_wild() {
            state.with_step(Reason::JokerOnCard(joker_card, current_card), Change::AddMult(3))
        } else {
            state
        }
    }

    fn apply(&self, game_state: &mut GameState, joker_card: &JokerCard, current_card: &Card) -> (done: GameResult<()>) {
        if current_card.suit == Suit::Hearts || current_card.is_wild() {
            game_state.record(Reason::JokerOnCard(*joker_card, *current_card), Change::AddMult(3));
        }
        Ok(())
    }
}

/// 3 mult more for each spade that scores.
#[derive(Clone, Copy, Debug, PartialEq, Eq, Structural)]
pub struct WrathfulJoker;

impl JokerEffect for WrathfulJoker {
    open spec fn spec_activation_type(&self) -> ActivationType {
        ActivationType::OnScored
    }

    fn activation_type(&self) -> (activation: ActivationType) {
        ActivationType::OnScored
    }

    open spec fn spec_can_apply(&self, state: GameView) -> bool {
        true
    }

    fn can_apply(&self, game_state: &GameState) -> (ready: bool) {
        true
    }

    open spec fn effect(&self, state: GameView, joker_card: JokerCard, current_card: Card) -> GameView {
        if current_card.suit == Suit::Spades || current_card.spec_is_wild() {
            state.with_step(Reason::JokerOnCard(joker_card, current_card), Change::AddMult(3))
        } else {
            state
        }
    }

    fn apply(&self, game_state: &mut GameState, joker_card: &JokerCard, current_card: &Card) -> (done: GameResult<()>) {
        if current_card.suit == Suit::Spades || current_card.is_wild() {
            game_state.record(Reason::JokerOnCard(*joker_card, *current_card), Change::AddMult(3));
        }
        Ok(())
    }
}

/// 3 mult more for each club that scores.
#[derive(Clone, Copy, Debug, PartialEq, Eq, Structural)]
pub struct GluttonousJoker;

impl JokerEffect for GluttonousJoker {
    open spec fn spec_activation_type(&self) -> ActivationType {
        ActivationType::OnScored
    }

    fn activation_type(&self) -> (activation: ActivationType) {
        ActivationType::OnScored
    }

    open spec fn spec_can_apply(&self, state: GameView) -> bool {
        true
    }

    fn can_apply(&self, game_state: &GameState) -> (ready: bool) {
        true
    }

    open spec fn effect(&self, state: GameView, joker_card: JokerCard, current_card: Card) -> GameView {
        if current_card.suit == Suit::Clubs || current_card.spec_is_wild() {
            state.with_step(Reason::JokerOnCard(joker_card, current_card), Change::AddMult(3))
        } else {
            state
        }
    }

    fn apply(&self, game_state: &mut GameState, joker_card: &JokerCard, current_card: &Card) -> (done: GameResult<()>) {
        if current_card.suit == Suit::Clubs || current_card.is_wild() {
            game_state.record(Reason::JokerOnCard(*joker_card, *current_card), Change::AddMult(3));
        }
        Ok(())
    }
}

/// True for the ace, the two, the three, the five and the eight.
pub open spec fn is_fibonacci(rank: Rank) -> bool {
    rank == Rank::Ace || rank == Rank::Two || rank == Rank::Three || rank == Rank::Five || rank
        == Rank::Eight
}

/// The steps that the scoring cards of Fibonacci rank give, one for each, in
/// their order.
pub open spec fn fibonacci_steps(joker_card: JokerCard, cards: Seq<Card>) -> Seq<ScoreStep>
    decreases cards.len(),
{
    if cards.len() == 0 {
        Seq::empty()
    } else if is_fibonacci(cards.last().rank) {
        fibonacci_steps(joker_card, cards.drop_last()).push(
            ScoreStep {
                reason: Reason::JokerOnCard(joker_card, cards.last()),
                change: Change::AddMult(8),
            },
        )
    } else {
        fibonacci_steps(joker_card, cards.drop_last())
    }
}

/// 8 mult more for each scoring card that is an ace, a two, a three, a five
/// or an eight, each time a card scores.
#[derive(Clone, Copy, Debug, PartialEq, Eq, Structural)]
pub struct Fibonacci;

impl JokerEffect for Fibonacci {
    open spec fn spec_activation_type(&self) -> ActivationType {
        ActivationType::OnScored
    }

    fn activation_type(&self) -> (activation: ActivationType) {
        ActivationType::OnScored
    }

    open spec fn spec_can_apply(&self, state: GameView) -> bool {
        true
    }

    fn can_apply(&self, game_state: &GameState) -> (ready: bool) {
        true
    }

    open spec fn effect(&self, state: GameView, joker_card: JokerCard, current_card: Card) -> GameView {
        GameView { steps: state.steps + fibonacci_steps(joker_card, state.scoring_cards), ..state }
    }

    fn apply(&self, game_state: &mut GameState, joker_card: &JokerCard, current_card: &Card) -> (done: GameResult<()>) {
        let mut steps = fibonacci_scan(joker_card, &game_state.scoring_cards);
        game_state.steps.append(&mut steps);
        Ok(())
    }
}

/// One step for each card of Fibonacci rank, in the order of the cards.
pub fn fibonacci_scan(joker_card: &JokerCard, cards: &Vec<Card>) -> (steps: Vec<ScoreStep>)
    ensures
        steps@ == fibonacci_steps(*joker_card, cards@),
{
    let mut steps: Vec<ScoreStep> = Vec::new();
    let mut i: usize = 0;
    while i < cards.len()
        invariant
            i <= cards@.len(),
            steps@ == fibonacci_steps(*joker_card, cards@.take(i as int)),
        decreases cards@.len() - i,
    {
        let card = cards[i];
        proof {
            assert(cards@.take(i + 1).drop_last() == cards@.take(i as int));
            assert(cards@.take(i + 1).last() == card);
        }
        let rank = card.rank;
        if rank == Rank::Ace || rank == Rank::Two || rank == Rank::Three || rank == Rank::Five
            || rank == Rank::Eight {
            steps.push(
                ScoreStep { reason: Reason::JokerOnCard(*joker_card, card), change: Change::AddMult(8) },
            );
        }
        i += 1;
    }
    proof {
        assert(cards@.take(cards@.len() as int) == cards@);
    }
    steps
}

/// 30 chips more for each face card that scores.
#[derive(Clone, Copy, Debug, PartialEq, Eq, Structural)]
pub struct ScaryFace;

impl JokerEffect for ScaryFace {
    open spec fn spec_activation_type(&self) -> ActivationType {
        ActivationType::OnScored
    }

    fn activation_type(&self) -> (activation: ActivationType) {
        ActivationType::OnScored
    }

    open spec fn spec_can_apply(&self, state: GameView) -> bool {
        true
    }

    fn can_apply(&self, game_state: &GameState) -> (ready: bool) {
        true
    }

    open spec fn effect(&self, state: GameView, joker_card: JokerCard, current_card: Card) -> GameView {
        if state.pareidolia_active || current_card.rank.spec_is_face() {
            state.with_step(Reason::JokerOnCard(joker_card, current_card), Change::AddChips(30))
        } else {
            state
        }
    }

    fn apply(&self, game_state: &mut GameState, joker_card: &JokerCard, current_card: &Card) -> (done: GameResult<()>) {
        if game_state.pareidolia_active || current_card.rank.is_face() {
            game_state.record(Reason::JokerOnCard(*joker_card, *current_card), Change::AddChips(30));
        }
        Ok(())
    }
}

/// True for the ten, the eight, the six, the four and the two.
pub open spec fn is_even_rank(rank: Rank) -> bool {
    rank == Rank::Ten || rank == Rank::Eight || rank == Rank::Six || rank == Rank::Four || rank
        == Rank::Two
}

/// True for the ace, the nine, the seven, the five and the three.
pub open spec fn is_odd_rank(rank: Rank) -> bool {
    rank == Rank::Ace || rank == Rank::Nine || rank == Rank::Seven || rank == Rank::Five || rank
        == Rank::Three
}

/// True for the ten, the eight, the six, the four and the two.
pub fn even_rank(rank: Rank) -> (even: bool)
    ensures
        even == is_even_rank(rank),
{
    match rank {
        Rank::Ten => true,
        Rank::Eight => true,
        Rank::Six => true,
        Rank::Four => true,
        Rank::Two => true,
        _ => false,
    }
}

/// True for the ace, the nine, the seven, the five and the three.
pub fn odd_rank(rank: Rank) -> (odd: bool)
    ensures
        odd == is_odd_rank(rank),
{
    match rank {
        Rank::Ace => true,
        Rank::Nine => true,
        Rank::Seven => true,
        Rank::Five => true,
        Rank::Three => true,
        _ => false,
    }
}

/// 4 mult more for each card of even rank that scores.
#[derive(Clone, Copy, Debug, PartialEq, Eq, Structural)]
pub struct EvenSteven;

impl JokerEffect for EvenSteven {
    open spec fn spec_activation_type(&self) -> ActivationType {
        ActivationType::OnScored
    }

    fn activation_type(&self) -> (activation: ActivationType) {
        ActivationType::OnScored
    }

    open spec fn spec_can_apply(&self, state: GameView) -> bool {
        true
    }

    fn can_apply(&self, game_state: &GameState) -> (ready: bool) {
        true
    }

    open spec fn effect(&self, state: GameView, joker_card: JokerCard, current_card: Card) -> GameView {
        if is_even_rank(current_card.rank) {
            state.with_step(Reason::JokerOnCard(joker_card, current_card), Change::AddMult(4))
        } else {
            state
        }
    }

    fn apply(&self, game_state: &mut GameState, joker_card: &JokerCard, current_card: &Card) -> (done: GameResult<()>) {
        if even_rank(current_card.rank) {
            game_state.record(Reason::JokerOnCard(*joker_card, *current_card), Change::AddMult(4));
        }
        Ok(())
    }
}

/// 31 chips more for each card of odd rank that scores.
#[derive(Clone, Copy, Debug, PartialEq, Eq, Structural)]
pub struct OddTodd;

impl JokerEffect for OddTodd {
    open spec fn spec_activation_type(&self) -> ActivationType {
        ActivationType::OnScored
    }

    fn activation_type(&self) -> (activation: ActivationType) {
        ActivationType::OnScored
    }

    open spec fn spec_can_apply(&self, state: GameView) -> bool {
        true
    }

    fn can_apply(&self, game_state: &GameState) -> (ready: bool) {
        true
    }

    open spec fn effect(&self, state: GameView, joker_card: JokerCard, current_card: Card) -> GameView {
        if is_odd_rank(current_card.rank) {
            state.with_step(Reason::JokerOnCard(joker_card, current_card), Change::AddChips(31))
        } else {
            state
        }
    }

    fn apply(&self, game_state: &mut GameState, joker_card: &JokerCard, current_card: &Card) -> (done: GameResult<()>) {
        if odd_rank(current_card.rank) {
            game_state.record(Reason::JokerOnCard(*joker_card, *current_card), Change::AddChips(31));
        }
        Ok(())
    }
}

/// Twice the mult for the first face card that scores.
#[derive(Clone, Copy, Debug, PartialEq, Eq, Structural)]
pub struct Photograph;

impl JokerEffect for Photograph {
    open spec fn spec_activation_type(&self) -> ActivationType {
        ActivationType::OnScored
    }

    fn activation_type(&self) -> (activation: ActivationType) {
        ActivationType::OnScored
    }

    open spec fn spec_can_apply(&self, state: GameView) -> bool {
        true
    }

    fn can_apply(&self, game_state: &GameState) -> (ready: bool) {
        true
    }

    open spec fn effect(&self, state: GameView, joker_card: JokerCard, current_card: Card) -> GameView {
        if (state.pareidolia_active || current_card.rank.spec_is_face())
            && !state.first_face_card_processed {
            GameView {
                first_face_card_processed: true,
                ..state.with_step(
                    Reason::JokerOnCard(joker_card, current_card),
                    Change::TimesMult(Factor::Double),
                )
            }
        } else {
            state
        }
    }

    fn apply(&self, game_state: &mut GameState, joker_card: &JokerCard, current_card: &Card) -> (done: GameResult<()>) {
        let is_face = game_state.pareidolia_active || current_card.rank.is_face();
        if is_face && !game_state.first_face_card_processed {
            game_state.record(
                Reason::JokerOnCard(*joker_card, *current_card),
                Change::TimesMult(Factor::Double),
            );
            game_state.first_face_card_processed = true;
        }
        Ok(())
    }
}

/// 5 mult more for each face card that scores.
#[derive(Clone, Copy, Debug, PartialEq, Eq, Structural)]
pub struct SmileyFace;

impl JokerEffect for SmileyFace {
    open spec fn spec_activation_type(&self) -> ActivationType {
        ActivationType::OnScored
    }

    fn activation_type(&self) -> (activation: ActivationType) {
        ActivationType::OnScored
    }

    open spec fn spec_can_apply(&self, state: GameView) -> bool {
        true
    }

    fn can_apply(&self, game_state: &GameState) -> (ready: bool) {
        true
    }

    open spec fn effect(&self, state: GameView, joker_card: JokerCard, current_card: Card) -> GameView {
        if state.pareidolia_active || current_card.rank.spec_is_face() {
            state.with_step(Reason::JokerOnCard(joker_card, current_card), Change::AddMult(5))
        } else {
            state
        }
    }

    fn apply(&self, game_state: &mut GameState, joker_card: &JokerCard, current_card: &Card) -> (done: GameResult<()>) {
        if game_state.pareidolia_active || current_card.rank.is_face() {
            game_state.record(Reason::JokerOnCard(*joker_card, *current_card), Change::AddMult(5));
        }
        Ok(())
    }
}

/// How many of the cards are wild.
pub open spec fn count_wild(cards: Seq<Card>) -> nat
    decreases cards.len(),
{
    if cards.len() == 0 {
        0
    } else {
        count_wild(cards.drop_last()) + if cards.last().spec_is_wild() {
            1nat
        } else {
            0nat
        }
    }
}

/// How many of the cards are of the suit and not wild.
pub open spec fn count_natural(cards: Seq<Card>, suit: Suit) -> nat
    decreases cards.len(),
{
    if cards.len() == 0 {
        0
    } else {
        count_natural(cards.drop_last(), suit) + if !cards.last().spec_is_wild() && cards.last().suit
            == suit {
            1nat
        } else {
            0nat
        }
    }
}

/// How many cards one colour is short of two.
pub open spec fn short_of_two(count: nat) -> nat {
    if count <= 2 {
        (2 - count) as nat
    } else {
        0
    }
}

/// How many of the four suits no card that is not wild has.
pub open spec fn missing_suits(cards: Seq<Card>) -> nat {
    (if count_natural(cards, Suit::Hearts) == 0 {
        1nat
    } else {
        0nat
    }) + (if count_natural(cards, Suit::Diamonds) == 0 {
        1nat
    } else {
        0nat
    }) + (if count_natural(cards, Suit::Clubs) == 0 {
        1nat
    } else {
        0nat
    }) + (if count_natural(cards, Suit::Spades) == 0 {
        1nat
    } else {
        0nat
    })
}

/// True when the scoring cards, four at least, show all four suits, wild
/// cards standing in for the suits that are missing. Where suits of one
/// colour count as the same, two cards of each colour do.
pub open spec fn shows_all_suits(cards: Seq<Card>, smeared: bool) -> bool {
    cards.len() >= 4 && if smeared {
        count_wild(cards) >= short_of_two(
            count_natural(cards, Suit::Diamonds) + count_natural(cards, Suit::Hearts),
        ) + short_of_two(count_natural(cards, Suit::Clubs) + count_natural(cards, Suit::Spades))
    } else {
        count_wild(cards) >= missing_suits(cards)
    }
}

/// True when the scoring cards show all four suits.
pub fn has_all_suits(cards: &Vec<Card>, smeared: bool) -> (shown: bool)
    ensures
        shown == shows_all_suits(cards@, smeared),
{
    if cards.len() < 4 {
        return false;
    }
    let mut wild: usize = 0;
    let mut hearts: usize = 0;
    let mut diamonds: usize = 0;
    let mut clubs: usize = 0;
    let mut spades: usize = 0;
    let mut i: usize = 0;
    while i < cards.len()
        invariant
            i <= cards@.len(),
            wild == count_wild(cards@.take(i as int)),
            hearts == count_natural(cards@.take(i as int), Suit::Hearts),
            diamonds == count_natural(cards@.take(i as int), Suit::Diamonds),
            clubs == count_natural(cards@.take(i as int), Suit::Clubs),
            spades == count_natural(cards@.take(i as int), Suit::Spades),
            wild + hearts + diamonds + clubs + spades == i,
        decreases cards@.len() - i,
    {
        proof {
            assert(cards@.take(i + 1).drop_last() == cards@.take(i as int));
            assert(cards@.take(i + 1).last() == cards@[i as int]);
        }
        let card = &cards[i];
        if card.is_wild() {
            wild += 1;
        } else {
            match card.suit {
                Suit::Hearts => {
                    hearts += 1;
                },
                Suit::Diamonds => {
                    diamonds += 1;
                },
                Suit::Clubs => {
                    clubs += 1;
                },
                Suit::Spades => {
                    spades += 1;
                },
            }
        }
        i += 1;
    }
    proof {
        assert(cards@.take(cards@.len() as int) == cards@);
    }
    if smeared {
        let red = diamonds + hearts;
        let black = clubs + spades;
        let missing = (if red <= 2 {
            2 - red
        } else {
            0
        }) + (if black <= 2 {
            2 - black
        } else {
            0
        });
        wild >= missing
    } else {
        let mut missing: usize = 0;
        if hearts == 0 {
            missing += 1;
        }
        if diamonds == 0 {
            missing += 1;
        }
        if clubs == 0 {
            missing += 1;
        }
        if spades == 0 {
            missing += 1;
        }
        wild >= missing
    }
}

/// Three times the mult when the scoring cards show all four suits.
#[derive(Clone, Copy, Debug, PartialEq, Eq, Structural)]
pub struct FlowerPot;

impl JokerEffect for FlowerPot {
    open spec fn spec_activation_type(&self) -> ActivationType {
        ActivationType::Independent
    }

    fn activation_type(&self) -> (activation: ActivationType) {
        ActivationType::Independent
    }

    open spec fn spec_can_apply(&self, state: GameView) -> bool {
        shows_all_suits(state.scoring_cards, state.smeared_joker_active)
    }

    fn can_apply(&self, game_state: &GameState) -> (ready: bool) {
        has_all_suits(&game_state.scoring_cards, game_state.smeared_joker_active)
    }

    open spec fn effect(&self, state: GameView, joker_card: JokerCard, current_card: Card) -> GameView {
        state.with_step(Reason::Joker(joker_card), Change::TimesMult(Factor::Triple))
    }

    fn apply(&self, game_state: &mut GameState, joker_card: &JokerCard, current_card: &Card) -> (done: GameResult<()>) {
        game_state.record(Reason::Joker(*joker_card), Change::TimesMult(Factor::Triple));
        Ok(())
    }
}

} // verus!

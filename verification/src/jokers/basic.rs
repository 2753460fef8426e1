//! Jokers that act once, after the cards: a fixed bonus, given always or
//! when the cards played contain a certain hand.

use crate::cards::{Card, JokerCard};
use crate::errors::GameResult;
use crate::game::{Change, GameState, GameView, Reason};
use crate::jokers::{ActivationType, JokerEffect};
use vstd::prelude::*;

verus! {

/// 4 mult more.
#[derive(Clone, Copy, Debug, PartialEq, Eq, Structural)]
pub struct Joker;

impl JokerEffect for Joker {
    open spec fn spec_activation_type(&self) -> ActivationType {
        ActivationType::Independent
    }

    fn activation_type(&self) -> (activation: ActivationType) {
        ActivationType::Independent
    }

    open spec fn spec_can_apply(&self, state: GameView) -> bool {
        true
    }

    fn can_apply(&self, game_state: &GameState) -> (ready: bool) {
        true
    }

    open spec fn effect(&self, state: GameView, joker_card: JokerCard, current_card: Card) -> GameView {
        state.with_step(Reason::Joker(joker_card), Change::AddMult(4))
    }

    fn apply(&self, game_state: &mut GameState, joker_card: &JokerCard, current_card: &Card) -> (done: GameResult<()>) {
        game_state.record(Reason::Joker(*joker_card), Change::AddMult(4));
        Ok(())
    }
}

/// 8 mult more when the cards played contain a pair.
#[derive(Clone, Copy, Debug, PartialEq, Eq, Structural)]
pub struct JollyJoker;

impl JokerEffect for JollyJoker {
    open spec fn spec_activation_type(&self) -> ActivationType {
        ActivationType::Independent
    }

    fn activation_type(&self) -> (activation: ActivationType) {
        ActivationType::Independent
    }

    open spec fn spec_can_apply(&self, state: GameView) -> bool {
        state.contains_pair
    }

    fn can_apply(&self, game_state: &GameState) -> (ready: bool) {
        game_state.contains_pair
    }

    open spec fn effect(&self, state: GameView, joker_card: JokerCard, current_card: Card) -> GameView {
        state.with_step(Reason::Joker(joker_card), Change::AddMult(8))
    }

    fn apply(&self, game_state: &mut GameState, joker_card: &JokerCard, current_card: &Card) -> (done: GameResult<()>) {
        game_state.record(Reason::Joker(*joker_card), Change::AddMult(8));
        Ok(())
    }
}

/// 12 mult more when the cards played contain three of a kind.
#[derive(Clone, Copy, Debug, PartialEq, Eq, Structural)]
pub struct ZanyJoker;

impl JokerEffect for ZanyJoker {
    open spec fn spec_activation_type(&self) -> ActivationType {
        ActivationType::Independent
    }

    fn activation_type(&self) -> (activation: ActivationType) {
        ActivationType::Independent
    }

    open spec fn spec_can_apply(&self, state: GameView) -> bool {
        state.contains_three_of_a_kind
    }

    fn can_apply(&self, game_state: &GameState) -> (ready: bool) {
        game_state.contains_three_of_a_kind
    }

    open spec fn effect(&self, state: GameView, joker_card: JokerCard, current_card: Card) -> GameView {
        state.with_step(Reason::Joker(joker_card), Change::AddMult(12))
    }

    fn apply(&self, game_state: &mut GameState, joker_card: &JokerCard, current_card: &Card) -> (done: GameResult<()>) {
        game_state.record(Reason::Joker(*joker_card), Change::AddMult(12));
        Ok(())
    }
}

/// 10 mult more when the cards played contain two pairs.
#[derive(Clone, Copy, Debug, PartialEq, Eq, Structural)]
pub struct MadJoker;

impl JokerEffect for MadJoker {
    open spec fn spec_activation_type(&self) -> ActivationType {
        ActivationType::Independent
    }

    fn activation_type(&self) -> (activation: ActivationType) {
        ActivationType::Independent
    }

    open spec fn spec_can_apply(&self, state: GameView) -> bool {
        state.contains_two_pair
    }

    fn can_apply(&self, game_state: &GameState) -> (ready: bool) {
        game_state.contains_two_pair
    }

    open spec fn effect(&self, state: GameView, joker_card: JokerCard, current_card: Card) -> GameView {
        state.with_step(Reason::Joker(joker_card), Change::AddMult(10))
    }

    fn apply(&self, game_state: &mut GameState, joker_card: &JokerCard, current_card: &Card) -> (done: GameResult<()>) {
        game_state.record(Reason::Joker(*joker_card), Change::AddMult(10));
        Ok(())
    }
}

/// 12 mult more when the cards played contain a straight.
#[derive(Clone, Copy, Debug, PartialEq, Eq, Structural)]
pub struct CrazyJoker;

impl JokerEffect for CrazyJoker {
    open spec fn spec_activation_type(&self) -> ActivationType {
        ActivationType::Independent
    }

    fn activation_type(&self) -> (activation: ActivationType) {
        ActivationType::Independent
    }

    open spec fn spec_can_apply(&self, state: GameView) -> bool {
        state.contains_straight
    }

    fn can_apply(&self, game_state: &GameState) -> (ready: bool) {
        game_state.contains_straight
    }

    open spec fn effect(&self, state: GameView, joker_card: JokerCard, current_card: Card) -> GameView {
        state.with_step(Reason::Joker(joker_card), Change::AddMult(12))
    }

    fn apply(&self, game_state: &mut GameState, joker_card: &JokerCard, current_card: &Card) -> (done: GameResult<()>) {
        game_state.record(Reason::Joker(*joker_card), Change::AddMult(12));
        Ok(())
    }
}

/// 10 mult more when the cards played contain a flush.
#[derive(Clone, Copy, Debug, PartialEq, Eq, Structural)]
pub struct DrollJoker;

impl JokerEffect for DrollJoker {
    open spec fn spec_activation_type(&self) -> ActivationType {
        ActivationType::Independent
    }

    fn activation_type(&self) -> (activation: ActivationType) {
        ActivationType::Independent
    }

    open spec fn spec_can_apply(&self, state: GameView) -> bool {
        state.contains_flush
    }

    fn can_apply(&self, game_state: &GameState) -> (ready: bool) {
        game_state.contains_flush
    }

    open spec fn effect(&self, state: GameView, joker_card: JokerCard, current_card: Card) -> GameView {
        state.with_step(Reason::Joker(joker_card), Change::AddMult(10))
    }

    fn apply(&self, game_state: &mut GameState, joker_card: &JokerCard, current_card: &Card) -> (done: GameResult<()>) {
        game_state.record(Reason::Joker(*joker_card), Change::AddMult(10));
        Ok(())
    }
}

/// 50 chips more when the cards played contain a pair.
#[derive(Clone, Copy, Debug, PartialEq, Eq, Structural)]
pub struct SlyJoker;

impl JokerEffect for SlyJoker {
    open spec fn spec_activation_type(&self) -> ActivationType {
        ActivationType::Independent
    }

    fn activation_type(&self) -> (activation: ActivationType) {
        ActivationType::Independent
    }

    open spec fn spec_can_apply(&self, state: GameView) -> bool {
        state.contains_pair
    }

    fn can_apply(&self, game_state: &GameState) -> (ready: bool) {
        game_state.contains_pair
    }

    open spec fn effect(&self, state: GameView, joker_card: JokerCard, current_card: Card) -> GameView {
        state.with_step(Reason::Joker(joker_card), Change::AddChips(50))
    }

    fn apply(&self, game_state: &mut GameState, joker_card: &JokerCard, current_card: &Card) -> (done: GameResult<()>) {
        game_state.record(Reason::Joker(*joker_card), Change::AddChips(50));
        Ok(())
    }
}

/// 100 chips more when the cards played contain three of a kind.
#[derive(Clone, Copy, Debug, PartialEq, Eq, Structural)]
pub struct WilyJoker;

impl JokerEffect for WilyJoker {
    open spec fn spec_activation_type(&self) -> ActivationType {
        ActivationType::Independent
    }

    fn activation_type(&self) -> (activation: ActivationType) {
        ActivationType::Independent
    }

    open spec fn spec_can_apply(&self, state: GameView) -> bool {
        state.contains_three_of_a_kind
    }

    fn can_apply(&self, game_state: &GameState) -> (ready: bool) {
        game_state.contains_three_of_a_kind
    }

    open spec fn effect(&self, state: GameView, joker_card: JokerCard, current_card: Card) -> GameView {
        state.with_step(Reason::Joker(joker_card), Change::AddChips(100))
    }

    fn apply(&self, game_state: &mut GameState, joker_card: &JokerCard, current_card: &Card) -> (done: GameResult<()>) {
        game_state.record(Reason::Joker(*joker_card), Change::AddChips(100));
        Ok(())
    }
}

/// 80 chips more when the cards played contain two pairs.
#[derive(Clone, Copy, Debug, PartialEq, Eq, Structural)]
pub struct CleverJoker;

impl JokerEffect for CleverJoker {
    open spec fn spec_activation_type(&self) -> ActivationType {
        ActivationType::Independent
    }

    fn activation_type(&self) -> (activation: ActivationType) {
        ActivationType::Independent
    }

    open spec fn spec_can_apply(&self, state: GameView) -> bool {
        state.contains_two_pair
    }

    fn can_apply(&self, game_state: &GameState) -> (ready: bool) {
        game_state.contains_two_pair
    }

    open spec fn effect(&self, state: GameView, joker_card: JokerCard, current_card: Card) -> GameView {
        state.with_step(Reason::Joker(joker_card), Change::AddChips(80))
    }

    fn apply(&self, game_state: &mut GameState, joker_card: &JokerCard, current_card: &Card) -> (done: GameResult<()>) {
        game_state.record(Reason::Joker(*joker_card), Change::AddChips(80));
        Ok(())
    }
}

/// 100 chips more when the cards played contain a straight.
#[derive(Clone, Copy, Debug, PartialEq, Eq, Structural)]
pub struct DeviousJoker;

impl JokerEffect for DeviousJoker {
    open spec fn spec_activation_type(&self) -> ActivationType {
        ActivationType::Independent
    }

    fn activation_type(&self) -> (activation: ActivationType) {
        ActivationType::Independent
    }

    open spec fn spec_can_apply(&self, state: GameView) -> bool {
        state.contains_straight
    }

    fn can_apply(&self, game_state: &GameState) -> (ready: bool) {
        game_state.contains_straight
    }

    open spec fn effect(&self, state: GameView, joker_card: JokerCard, current_card: Card) -> GameView {
        state.with_step(Reason::Joker(joker_card), Change::AddChips(100))
    }

    fn apply(&self, game_state: &mut GameState, joker_card: &JokerCard, current_card: &Card) -> (done: GameResult<()>) {
        game_state.record(Reason::Joker(*joker_card), Change::AddChips(100));
        Ok(())
    }
}

/// 80 chips more when the cards played contain a flush.
#[derive(Clone, Copy, Debug, PartialEq, Eq, Structural)]
pub struct CraftyJoker;

impl JokerEffect for CraftyJoker {
    open spec fn spec_activation_type(&self) -> ActivationType {
        ActivationType::Independent
    }

    fn activation_type(&self) -> (activation: ActivationType) {
        ActivationType::Independent
    }

    open spec fn spec_can_apply(&self, state: GameView) -> bool {
        state.contains_flush
    }

    fn can_apply(&self, game_state: &GameState) -> (ready: bool) {
        game_state.contains_flush
    }

    open spec fn effect(&self, state: GameView, joker_card: JokerCard, current_card: Card) -> GameView {
        state.with_step(Reason::Joker(joker_card), Change::AddChips(80))
    }

    fn apply(&self, game_state: &mut GameState, joker_card: &JokerCard, current_card: &Card) -> (done: GameResult<()>) {
        game_state.record(Reason::Joker(*joker_card), Change::AddChips(80));
        Ok(())
    }
}

/// 3 mult more for each joker in the row.
#[derive(Clone, Copy, Debug, PartialEq, Eq, Structural)]
pub struct AbstractJoker;

impl JokerEffect for AbstractJoker {
    open spec fn spec_activation_type(&self) -> ActivationType {
        ActivationType::Independent
    }

    fn activation_type(&self) -> (activation: ActivationType) {
        ActivationType::Independent
    }

    open spec fn spec_can_apply(&self, state: GameView) -> bool {
        true
    }

    fn can_apply(&self, game_state: &GameState) -> (ready: bool) {
        true
    }

    open spec fn effect(&self, state: GameView, joker_card: JokerCard, current_card: Card) -> GameView {
        state.with_step(Reason::Joker(joker_card), Change::AddMult((3 * state.jokers.len()) as u128))
    }

    fn apply(&self, game_state: &mut GameState, joker_card: &JokerCard, current_card: &Card) -> (done: GameResult<()>) {
        let joker_count = game_state.round.jokers.len();
        game_state.record(Reason::Joker(*joker_card), Change::AddMult(3 * (joker_count as u128)));
        Ok(())
    }
}

} // verus!

//! The jokers: when each one acts and what it does to the score.

pub mod basic;
pub mod complex;
pub mod medium;

use crate::cards::{Card, Edition, Joker, JokerCard};
use crate::errors::GameResult;
use crate::game::{Change, Factor, GameState, GameView, Reason};
use vstd::prelude::*;

verus! {

/// When a joker acts.
#[derive(Debug, Clone, Copy, PartialEq, Eq, Structural)]
pub enum ActivationType {
    /// Once, after all cards are scored.
    Independent,
    /// Each time a card scores.
    OnScored,
    /// For each card held in hand.
    OnHeld,
}

/// What every joker can be asked.
pub trait JokerEffect {
    /// When the joker acts.
    spec fn spec_activation_type(&self) -> ActivationType;

    /// When the joker acts.
    fn activation_type(&self) -> (activation: ActivationType)
        ensures
            activation == self.spec_activation_type(),
    ;

    /// Whether the joker acts in this state.
    spec fn spec_can_apply(&self, state: GameView) -> bool;

    /// Whether the joker acts in this state.
    fn can_apply(&self, game_state: &GameState) -> (ready: bool)
        ensures
            ready == self.spec_can_apply(game_state@),
    ;

    /// The state after the joker has acted.
    spec fn effect(&self, state: GameView, joker_card: JokerCard, current_card: Card) -> GameView;

    /// Lets the joker act: `joker_card` is its place in the row, and
    /// `current_card` the card that set it off, if a card did.
    fn apply(&self, game_state: &mut GameState, joker_card: &JokerCard, current_card: &Card) -> (done:
        GameResult<()>)
        ensures
            done is Ok,
            final(game_state)@ == self.effect(old(game_state)@, *joker_card, *current_card),
    ;
}

/// When the joker acts.
pub open spec fn activation_of(joker: Joker) -> ActivationType {
    match joker {
        Joker::Joker => basic::Joker.spec_activation_type(),
        Joker::JollyJoker => basic::JollyJoker.spec_activation_type(),
        Joker::ZanyJoker => basic::ZanyJoker.spec_activation_type(),
        Joker::MadJoker => basic::MadJoker.spec_activation_type(),
        Joker::CrazyJoker => basic::CrazyJoker.spec_activation_type(),
        Joker::DrollJoker => basic::DrollJoker.spec_activation_type(),
        Joker::SlyJoker => basic::SlyJoker.spec_activation_type(),
        Joker::WilyJoker => basic::WilyJoker.spec_activation_type(),
        Joker::CleverJoker => basic::CleverJoker.spec_activation_type(),
        Joker::DeviousJoker => basic::DeviousJoker.spec_activation_type(),
        Joker::CraftyJoker => basic::CraftyJoker.spec_activation_type(),
        Joker::AbstractJoker => basic::AbstractJoker.spec_activation_type(),
        Joker::RaisedFist => medium::RaisedFist.spec_activation_type(),
        Joker::Blackboard => medium::Blackboard.spec_activation_type(),
        Joker::Baron => medium::Baron.spec_activation_type(),
        Joker::GreedyJoker => medium::GreedyJoker.spec_activation_type(),
        Joker::LustyJoker => medium::LustyJoker.spec_activation_type(),
        Joker::WrathfulJoker => medium::WrathfulJoker.spec_activation_type(),
        Joker::GluttonousJoker => medium::GluttonousJoker.spec_activation_type(),
        Joker::Fibonacci => medium::Fibonacci.spec_activation_type(),
        Joker::ScaryFace => medium::ScaryFace.spec_activation_type(),
        Joker::EvenSteven => medium::EvenSteven.spec_activation_type(),
        Joker::OddTodd => medium::OddTodd.spec_activation_type(),
        Joker::Photograph => medium::Photograph.spec_activation_type(),
        Joker::SmileyFace => medium::SmileyFace.spec_activation_type(),
        Joker::FlowerPot => medium::FlowerPot.spec_activation_type(),
        Joker::FourFingers => complex::FourFingers.spec_activation_type(),
        Joker::Shortcut => complex::Shortcut.spec_activation_type(),
        Joker::Mime => complex::Mime.spec_activation_type(),
        Joker::Pareidolia => complex::Pareidolia.spec_activation_type(),
        Joker::Splash => complex::Splash.spec_activation_type(),
        Joker::SockAndBuskin => complex::SockAndBuskin.spec_activation_type(),
        Joker::SmearedJoker => complex::SmearedJoker.spec_activation_type(),
        Joker::Blueprint => complex::Blueprint.spec_activation_type(),
    }
}

/// When the joker acts.
pub fn activation_type_of(joker: Joker) -> (activation: ActivationType)
    ensures
        activation == activation_of(joker),
{
    match joker {
        Joker::Joker => basic::Joker.activation_type(),
        Joker::JollyJoker => basic::JollyJoker.activation_type(),
        Joker::ZanyJoker => basic::ZanyJoker.activation_type(),
        Joker::MadJoker => basic::MadJoker.activation_type(),
        Joker::CrazyJoker => basic::CrazyJoker.activation_type(),
        Joker::DrollJoker => basic::DrollJoker.activation_type(),
        Joker::SlyJoker => basic::SlyJoker.activation_type(),
        Joker::WilyJoker => basic::WilyJoker.activation_type(),
        Joker::CleverJoker => basic::CleverJoker.activation_type(),
        Joker::DeviousJoker => basic::DeviousJoker.activation_type(),
        Joker::CraftyJoker => basic::CraftyJoker.activation_type(),
        Joker::AbstractJoker => basic::AbstractJoker.activation_type(),
        Joker::RaisedFist => medium::RaisedFist.activation_type(),
        Joker::Blackboard => medium::Blackboard.activation_type(),
        Joker::Baron => medium::Baron.activation_type(),
        Joker::GreedyJoker => medium::GreedyJoker.activation_type(),
        Joker::LustyJoker => medium::LustyJoker.activation_type(),
        Joker::WrathfulJoker => medium::WrathfulJoker.activation_type(),
        Joker::GluttonousJoker => medium::GluttonousJoker.activation_type(),
        Joker::Fibonacci => medium::Fibonacci.activation_type(),
        Joker::ScaryFace => medium::ScaryFace.activation_type(),
        Joker::EvenSteven => medium::EvenSteven.activation_type(),
        Joker::OddTodd => medium::OddTodd.activation_type(),
        Joker::Photograph => medium::Photograph.activation_type(),
        Joker::SmileyFace => medium::SmileyFace.activation_type(),
        Joker::FlowerPot => medium::FlowerPot.activation_type(),
        Joker::FourFingers => complex::FourFingers.activation_type(),
        Joker::Shortcut => complex::Shortcut.activation_type(),
        Joker::Mime => complex::Mime.activation_type(),
        Joker::Pareidolia => complex::Pareidolia.activation_type(),
        Joker::Splash => complex::Splash.activation_type(),
        Joker::SockAndBuskin => complex::SockAndBuskin.activation_type(),
        Joker::SmearedJoker => complex::SmearedJoker.activation_type(),
        Joker::Blueprint => complex::Blueprint.activation_type(),
    }
}

/// Whether the joker acts in this state.
pub open spec fn can_apply_of(joker: Joker, state: GameView) -> bool {
    match joker {
        Joker::Joker => basic::Joker.spec_can_apply(state),
        Joker::JollyJoker => basic::JollyJoker.spec_can_apply(state),
        Joker::ZanyJoker => basic::ZanyJoker.spec_can_apply(state),
        Joker::MadJoker => basic::MadJoker.spec_can_apply(state),
        Joker::CrazyJoker => basic::CrazyJoker.spec_can_apply(state),
        Joker::DrollJoker => basic::DrollJoker.spec_can_apply(state),
        Joker::SlyJoker => basic::SlyJoker.spec_can_apply(state),
        Joker::WilyJoker => basic::WilyJoker.spec_can_apply(state),
        Joker::CleverJoker => basic::CleverJoker.spec_can_apply(state),
        Joker::DeviousJoker => basic::DeviousJoker.spec_can_apply(state),
        Joker::CraftyJoker => basic::CraftyJoker.spec_can_apply(state),
        Joker::AbstractJoker => basic::AbstractJoker.spec_can_apply(state),
        Joker::RaisedFist => medium::RaisedFist.spec_can_apply(state),
        Joker::Blackboard => medium::Blackboard.spec_can_apply(state),
        Joker::Baron => medium::Baron.spec_can_apply(state),
        Joker::GreedyJoker => medium::GreedyJoker.spec_can_apply(state),
        Joker::LustyJoker => medium::LustyJoker.spec_can_apply(state),
        Joker::WrathfulJoker => medium::WrathfulJoker.spec_can_apply(state),
        Joker::GluttonousJoker => medium::GluttonousJoker.spec_can_apply(state),
        Joker::Fibonacci => medium::Fibonacci.spec_can_apply(state),
        Joker::ScaryFace => medium::ScaryFace.spec_can_apply(state),
        Joker::EvenSteven => medium::EvenSteven.spec_can_apply(state),
        Joker::OddTodd => medium::OddTodd.spec_can_apply(state),
        Joker::Photograph => medium::Photograph.spec_can_apply(state),
        Joker::SmileyFace => medium::SmileyFace.spec_can_apply(state),
        Joker::FlowerPot => medium::FlowerPot.spec_can_apply(state),
        Joker::FourFingers => complex::FourFingers.spec_can_apply(state),
        Joker::Shortcut => complex::Shortcut.spec_can_apply(state),
        Joker::Mime => complex::Mime.spec_can_apply(state),
        Joker::Pareidolia => complex::Pareidolia.spec_can_apply(state),
        Joker::Splash => complex::Splash.spec_can_apply(state),
        Joker::SockAndBuskin => complex::SockAndBuskin.spec_can_apply(state),
        Joker::SmearedJoker => complex::SmearedJoker.spec_can_apply(state),
        Joker::Blueprint => complex::Blueprint.spec_can_apply(state),
    }
}

/// Whether the joker acts in this state.
pub fn joker_can_apply(joker: Joker, game_state: &GameState) -> (ready: bool)
    ensures
        ready == can_apply_of(joker, game_state@),
{
    match joker {
        Joker::Joker => basic::Joker.can_apply(game_state),
        Joker::JollyJoker => basic::JollyJoker.can_apply(game_state),
        Joker::ZanyJoker => basic::ZanyJoker.can_apply(game_state),
        Joker::MadJoker => basic::MadJoker.can_apply(game_state),
        Joker::CrazyJoker => basic::CrazyJoker.can_apply(game_state),
        Joker::DrollJoker => basic::DrollJoker.can_apply(game_state),
        Joker::SlyJoker => basic::SlyJoker.can_apply(game_state),
        Joker::WilyJoker => basic::WilyJoker.can_apply(game_state),
        Joker::CleverJoker => basic::CleverJoker.can_apply(game_state),
        Joker::DeviousJoker => basic::DeviousJoker.can_apply(game_state),
        Joker::CraftyJoker => basic::CraftyJoker.can_apply(game_state),
        Joker::AbstractJoker => basic::AbstractJoker.can_apply(game_state),
        Joker::RaisedFist => medium::RaisedFist.can_apply(game_state),
        Joker::Blackboard => medium::Blackboard.can_apply(game_state),
        Joker::Baron => medium::Baron.can_apply(game_state),
        Joker::GreedyJoker => medium::GreedyJoker.can_apply(game_state),
        Joker::LustyJoker => medium::LustyJoker.can_apply(game_state),
        Joker::WrathfulJoker => medium::WrathfulJoker.can_apply(game_state),
        Joker::GluttonousJoker => medium::GluttonousJoker.can_apply(game_state),
        Joker::Fibonacci => medium::Fibonacci.can_apply(game_state),
        Joker::ScaryFace => medium::ScaryFace.can_apply(game_state),
        Joker::EvenSteven => medium::EvenSteven.can_apply(game_state),
        Joker::OddTodd => medium::OddTodd.can_apply(game_state),
        Joker::Photograph => medium::Photograph.can_apply(game_state),
        Joker::SmileyFace => medium::SmileyFace.can_apply(game_state),
        Joker::FlowerPot => medium::FlowerPot.can_apply(game_state),
        Joker::FourFingers => complex::FourFingers.can_apply(game_state),
        Joker::Shortcut => complex::Shortcut.can_apply(game_state),
        Joker::Mime => complex::Mime.can_apply(game_state),
        Joker::Pareidolia => complex::Pareidolia.can_apply(game_state),
        Joker::Splash => complex::Splash.can_apply(game_state),
        Joker::SockAndBuskin => complex::SockAndBuskin.can_apply(game_state),
        Joker::SmearedJoker => complex::SmearedJoker.can_apply(game_state),
        Joker::Blueprint => complex::Blueprint.can_apply(game_state),
    }
}

/// The state after the joker has acted.
pub open spec fn effect_of(joker: Joker, state: GameView, joker_card: JokerCard, current_card: Card) -> GameView {
    match joker {
        Joker::Joker => basic::Joker.effect(state, joker_card, current_card),
        Joker::JollyJoker => basic::JollyJoker.effect(state, joker_card, current_card),
        Joker::ZanyJoker => basic::ZanyJoker.effect(state, joker_card, current_card),
        Joker::MadJoker => basic::MadJoker.effect(state, joker_card, current_card),
        Joker::CrazyJoker => basic::CrazyJoker.effect(state, joker_card, current_card),
        Joker::DrollJoker => basic::DrollJoker.effect(state, joker_card, current_card),
        Joker::SlyJoker => basic::SlyJoker.effect(state, joker_card, current_card),
        Joker::WilyJoker => basic::WilyJoker.effect(state, joker_card, current_card),
        Joker::CleverJoker => basic::CleverJoker.effect(state, joker_card, current_card),
        Joker::DeviousJoker => basic::DeviousJoker.effect(state, joker_card, current_card),
        Joker::CraftyJoker => basic::CraftyJoker.effect(state, joker_card, current_card),
        Joker::AbstractJoker => basic::AbstractJoker.effect(state, joker_card, current_card),
        Joker::RaisedFist => medium::RaisedFist.effect(state, joker_card, current_card),
        Joker::Blackboard => medium::Blackboard.effect(state, joker_card, current_card),
        Joker::Baron => medium::Baron.effect(state, joker_card, current_card),
        Joker::GreedyJoker => medium::GreedyJoker.effect(state, joker_card, current_card),
        Joker::LustyJoker => medium::LustyJoker.effect(state, joker_card, current_card),
        Joker::WrathfulJoker => medium::WrathfulJoker.effect(state, joker_card, current_card),
        Joker::GluttonousJoker => medium::GluttonousJoker.effect(state, joker_card, current_card),
        Joker::Fibonacci => medium::Fibonacci.effect(state, joker_card, current_card),
        Joker::ScaryFace => medium::ScaryFace.effect(state, joker_card, current_card),
        Joker::EvenSteven => medium::EvenSteven.effect(state, joker_card, current_card),
        Joker::OddTodd => medium::OddTodd.effect(state, joker_card, current_card),
        Joker::Photograph => medium::Photograph.effect(state, joker_card, current_card),
        Joker::SmileyFace => medium::SmileyFace.effect(state, joker_card, current_card),
        Joker::FlowerPot => medium::FlowerPot.effect(state, joker_card, current_card),
        Joker::FourFingers => complex::FourFingers.effect(state, joker_card, current_card),
        Joker::Shortcut => complex::Shortcut.effect(state, joker_card, current_card),
        Joker::Mime => complex::Mime.effect(state, joker_card, current_card),
        Joker::Pareidolia => complex::Pareidolia.effect(state, joker_card, current_card),
        Joker::Splash => complex::Splash.effect(state, joker_card, current_card),
        Joker::SockAndBuskin => complex::SockAndBuskin.effect(state, joker_card, current_card),
        Joker::SmearedJoker => complex::SmearedJoker.effect(state, joker_card, current_card),
        Joker::Blueprint => complex::Blueprint.effect(state, joker_card, current_card),
    }
}

/// Lets the joker act.
pub fn apply_joker(joker: Joker, game_state: &mut GameState, joker_card: &JokerCard, current_card: &Card) -> (done: GameResult<()>)
    ensures
        done is Ok,
        final(game_state)@ == effect_of(joker, old(game_state)@, *joker_card, *current_card),
{
    match joker {
        Joker::Joker => basic::Joker.apply(game_state, joker_card, current_card),
        Joker::JollyJoker => basic::JollyJoker.apply(game_state, joker_card, current_card),
        Joker::ZanyJoker => basic::ZanyJoker.apply(game_state, joker_card, current_card),
        Joker::MadJoker => basic::MadJoker.apply(game_state, joker_card, current_card),
        Joker::CrazyJoker => basic::CrazyJoker.apply(game_state, joker_card, current_card),
        Joker::DrollJoker => basic::DrollJoker.apply(game_state, joker_card, current_card),
        Joker::SlyJoker => basic::SlyJoker.apply(game_state, joker_card, current_card),
        Joker::WilyJoker => basic::WilyJoker.apply(game_state, joker_card, current_card),
        Joker::CleverJoker => basic::CleverJoker.apply(game_state, joker_card, current_card),
        Joker::DeviousJoker => basic::DeviousJoker.apply(game_state, joker_card, current_card),
        Joker::CraftyJoker => basic::CraftyJoker.apply(game_state, joker_card, current_card),
        Joker::AbstractJoker => basic::AbstractJoker.apply(game_state, joker_card, current_card),
        Joker::RaisedFist => medium::RaisedFist.apply(game_state, joker_card, current_card),
        Joker::Blackboard => medium::Blackboard.apply(game_state, joker_card, current_card),
        Joker::Baron => medium::Baron.apply(game_state, joker_card, current_card),
        Joker::GreedyJoker => medium::GreedyJoker.apply(game_state, joker_card, current_card),
        Joker::LustyJoker => medium::LustyJoker.apply(game_state, joker_card, current_card),
        Joker::WrathfulJoker => medium::WrathfulJoker.apply(game_state, joker_card, current_card),
        Joker::GluttonousJoker => medium::GluttonousJoker.apply(game_state, joker_card, current_card),
        Joker::Fibonacci => medium::Fibonacci.apply(game_state, joker_card, current_card),
        Joker::ScaryFace => medium::ScaryFace.apply(game_state, joker_card, current_card),
        Joker::EvenSteven => medium::EvenSteven.apply(game_state, joker_card, current_card),
        Joker::OddTodd => medium::OddTodd.apply(game_state, joker_card, current_card),
        Joker::Photograph => medium::Photograph.apply(game_state, joker_card, current_card),
        Joker::SmileyFace => medium::SmileyFace.apply(game_state, joker_card, current_card),
        Joker::FlowerPot => medium::FlowerPot.apply(game_state, joker_card, current_card),
        Joker::FourFingers => complex::FourFingers.apply(game_state, joker_card, current_card),
        Joker::Shortcut => complex::Shortcut.apply(game_state, joker_card, current_card),
        Joker::Mime => complex::Mime.apply(game_state, joker_card, current_card),
        Joker::Pareidolia => complex::Pareidolia.apply(game_state, joker_card, current_card),
        Joker::Splash => complex::Splash.apply(game_state, joker_card, current_card),
        Joker::SockAndBuskin => complex::SockAndBuskin.apply(game_state, joker_card, current_card),
        Joker::SmearedJoker => complex::SmearedJoker.apply(game_state, joker_card, current_card),
        Joker::Blueprint => complex::Blueprint.apply(game_state, joker_card, current_card),
    }
}

/// A joker's ability, whichever joker it is.
#[derive(Clone, Copy, Debug, PartialEq, Eq, Structural)]
pub struct AnyJoker {
    pub joker: Joker,
}

impl JokerEffect for AnyJoker {
    open spec fn spec_activation_type(&self) -> ActivationType {
        activation_of(self.joker)
    }

    fn activation_type(&self) -> (activation: ActivationType) {
        activation_type_of(self.joker)
    }

    open spec fn spec_can_apply(&self, state: GameView) -> bool {
        can_apply_of(self.joker, state)
    }

    fn can_apply(&self, game_state: &GameState) -> (ready: bool) {
        joker_can_apply(self.joker, game_state)
    }

    open spec fn effect(&self, state: GameView, joker_card: JokerCard, current_card: Card) -> GameView {
        effect_of(self.joker, state, joker_card, current_card)
    }

    fn apply(&self, game_state: &mut GameState, joker_card: &JokerCard, current_card: &Card) -> (done:
        GameResult<()>) {
        apply_joker(self.joker, game_state, joker_card, current_card)
    }
}

/// The ability of the given joker.
pub fn create_joker_effect(joker: Joker) -> (effect: AnyJoker)
    ensures
        effect.joker == joker,
{
    AnyJoker { joker }
}

/// The state after the edition of a joker has acted: 50 chips more for
/// foil, 10 mult more for holographic, half the mult again for polychrome.
pub open spec fn joker_edition_effect(state: GameView, joker_card: JokerCard) -> GameView {
    match joker_card.edition {
        Some(Edition::Foil) => state.with_step(Reason::JokerEdition(joker_card), Change::AddChips(50)),
        Some(Edition::Holographic) => state.with_step(
            Reason::JokerEdition(joker_card),
            Change::AddMult(10),
        ),
        Some(Edition::Polychrome) => state.with_step(
            Reason::JokerEdition(joker_card),
            Change::TimesMult(Factor::OneAndHalf),
        ),
        None => state,
    }
}

/// Lets the edition of a joker act.
pub fn apply_joker_edition(joker_card: &JokerCard, game_state: &mut GameState) -> (done: GameResult<()>)
    ensures
        done is Ok,
        final(game_state)@ == joker_edition_effect(old(game_state)@, *joker_card),
{
    match joker_card.edition {
        Some(Edition::Foil) => {
            game_state.record(Reason::JokerEdition(*joker_card), Change::AddChips(50));
        },
        Some(Edition::Holographic) => {
            game_state.record(Reason::JokerEdition(*joker_card), Change::AddMult(10));
        },
        Some(Edition::Polychrome) => {
            game_state.record(
                Reason::JokerEdition(*joker_card),
                Change::TimesMult(Factor::OneAndHalf),
            );
        },
        None => {},
    }
    Ok(())
}

/// The state after the editions of the jokers have acted, in the order of
/// the row: the polychrome ones where `polychrome` is set, else the foil and
/// holographic ones.
pub open spec fn editions_effect(state: GameView, jokers: Seq<JokerCard>, polychrome: bool) -> GameView
    decreases jokers.len(),
{
    if jokers.len() == 0 {
        state
    } else {
        let before = editions_effect(state, jokers.drop_last(), polychrome);
        if jokers.last().edition is Some && (jokers.last().edition == Some(Edition::Polychrome))
            == polychrome {
            joker_edition_effect(before, jokers.last())
        } else {
            before
        }
    }
}

/// The state after the jokers that act once have acted, in the order of the
/// row, each when it is ready in the state that the ones before it left.
pub open spec fn independent_effect(state: GameView, jokers: Seq<JokerCard>, card: Card) -> GameView
    decreases jokers.len(),
{
    if jokers.len() == 0 {
        state
    } else {
        let before = independent_effect(state, jokers.drop_last(), card);
        if activation_of(jokers.last().joker) == ActivationType::Independent && can_apply_of(
            jokers.last().joker,
            before,
        ) {
            effect_of(jokers.last().joker, before, jokers.last(), card)
        } else {
            before
        }
    }
}

/// The state after the jokers have had their turn at the end of scoring:
/// first the foil and holographic editions, then the jokers that act once,
/// then the polychrome editions.
pub open spec fn jokers_effect(state: GameView, card: Card) -> GameView {
    editions_effect(
        independent_effect(editions_effect(state, state.jokers, false), state.jokers, card),
        state.jokers,
        true,
    )
}

/// Lets the editions of the jokers act.
pub fn process_editions(game_state: &mut GameState, polychrome: bool)
    ensures
        final(game_state)@ == editions_effect(old(game_state)@, old(game_state)@.jokers, polychrome),
{
    let count = game_state.round.jokers.len();
    let mut i: usize = 0;
    proof {
        assert(game_state@ == editions_effect(old(game_state)@, old(game_state)@.jokers.take(0), polychrome));
    }
    while i < count
        invariant
            i <= count,
            count == old(game_state)@.jokers.len(),
            game_state@.jokers == old(game_state)@.jokers,
            game_state@ == editions_effect(
                old(game_state)@,
                old(game_state)@.jokers.take(i as int),
                polychrome,
            ),
        decreases count - i,
    {
        let joker_card = game_state.round.jokers[i];
        proof {
            let jokers = old(game_state)@.jokers;
            assert(jokers.take(i + 1).drop_last() == jokers.take(i as int));
            assert(jokers.take(i + 1).last() == joker_card);
        }
        let wanted = match joker_card.edition {
            Some(Edition::Polychrome) => polychrome,
            Some(_) => !polychrome,
            None => false,
        };
        if wanted {
            let _ = apply_joker_edition(&joker_card, game_state);
        }
        i += 1;
    }
    proof {
        let jokers = old(game_state)@.jokers;
        assert(jokers.take(jokers.len() as int) == jokers);
    }
}

/// Gives the jokers their turn at the end of scoring. `placeholder` stands
/// for the card that no joker of this turn looks at.
pub fn process_jokers(game_state: &mut GameState, placeholder: &Card) -> (done: GameResult<()>)
    ensures
        done is Ok,
        final(game_state)@ == jokers_effect(old(game_state)@, *placeholder),
{
    process_editions(game_state, false);
    let ghost start = game_state@;
    proof {
        lemma_editions_keep_table(old(game_state)@, old(game_state)@.jokers, false);
    }
    let count = game_state.round.jokers.len();
    let mut i: usize = 0;
    proof {
        assert(game_state@ == independent_effect(start, start.jokers.take(0), *placeholder));
    }
    while i < count
        invariant
            i <= count,
            count == start.jokers.len(),
            start.jokers == old(game_state)@.jokers,
            game_state@.jokers == start.jokers,
            game_state@ == independent_effect(start, start.jokers.take(i as int), *placeholder),
        decreases count - i,
    {
        let joker_card = game_state.round.jokers[i];
        proof {
            assert(start.jokers.take(i + 1).drop_last() == start.jokers.take(i as int));
            assert(start.jokers.take(i + 1).last() == joker_card);
        }
        if activation_type_of(joker_card.joker) == ActivationType::Independent && joker_can_apply(
            joker_card.joker,
            game_state,
        ) {
            let ghost before = game_state@;
            let _ = apply_joker(joker_card.joker, game_state, &joker_card, placeholder);
            proof {
                lemma_effect_keeps_table(joker_card.joker, before, joker_card, *placeholder);
            }
        }
        i += 1;
    }
    proof {
        assert(start.jokers.take(start.jokers.len() as int) == start.jokers);
        lemma_editions_keep_table(old(game_state)@, old(game_state)@.jokers, false);
    }
    process_editions(game_state, true);
    Ok(())
}

/// No joker changes the cards or the jokers on the table.
pub proof fn lemma_effect_keeps_table(joker: Joker, state: GameView, joker_card: JokerCard, current_card: Card)
    ensures
        effect_of(joker, state, joker_card, current_card).jokers == state.jokers,
        effect_of(joker, state, joker_card, current_card).cards_played == state.cards_played,
        effect_of(joker, state, joker_card, current_card).cards_held_in_hand
            == state.cards_held_in_hand,
        effect_of(joker, state, joker_card, current_card).scoring_cards == state.scoring_cards,
{
}

/// No edition changes the cards or the jokers on the table.
pub proof fn lemma_editions_keep_table(state: GameView, jokers: Seq<JokerCard>, polychrome: bool)
    ensures
        editions_effect(state, jokers, polychrome).jokers == state.jokers,
        editions_effect(state, jokers, polychrome).cards_played == state.cards_played,
        editions_effect(state, jokers, polychrome).cards_held_in_hand == state.cards_held_in_hand,
        editions_effect(state, jokers, polychrome).scoring_cards == state.scoring_cards,
    decreases jokers.len(),
{
    if jokers.len() > 0 {
        lemma_editions_keep_table(state, jokers.drop_last(), polychrome);
    }
}

} // verus!

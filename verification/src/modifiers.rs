//! What the enhancement and the edition of a card do to the score.

use crate::cards::{Card, Edition, Enhancement};
use crate::errors::GameResult;
use crate::game::{Change, Factor, GameState, GameView, Reason};
use vstd::prelude::*;

verus! {

/// The state after the enhancement of a scoring card has acted: 30 chips
/// more for a bonus card, 4 mult more for a mult card, twice the mult for a
/// glass card.
pub open spec fn enhancement_effect(state: GameView, card: Card) -> GameView {
    match card.enhancement {
        Some(Enhancement::Bonus) => state.with_step(Reason::Enhanced(card), Change::AddChips(30)),
        Some(Enhancement::Mult) => state.with_step(Reason::Enhanced(card), Change::AddMult(4)),
        Some(Enhancement::Glass) => state.with_step(
            Reason::Enhanced(card),
            Change::TimesMult(Factor::Double),
        ),
        _ => state,
    }
}

/// Lets the enhancement of a scoring card act.
pub fn apply_enhancement(card: &Card, game_state: &mut GameState) -> (done: GameResult<()>)
    ensures
        done is Ok,
        final(game_state)@ == enhancement_effect(old(game_state)@, *card),
{
    match card.enhancement {
        Some(Enhancement::Bonus) => {
            game_state.record(Reason::Enhanced(*card), Change::AddChips(30));
        },
        Some(Enhancement::Mult) => {
            game_state.record(Reason::Enhanced(*card), Change::AddMult(4));
        },
        Some(Enhancement::Glass) => {
            game_state.record(Reason::Enhanced(*card), Change::TimesMult(Factor::Double));
        },
        _ => {},
    }
    Ok(())
}

/// The state after the edition of a scoring card has acted: 50 chips more
/// for foil, 10 mult more for holographic, half the mult again for
/// polychrome.
pub open spec fn edition_effect(state: GameView, card: Card) -> GameView {
    match card.edition {
        Some(Edition::Foil) => state.with_step(Reason::CardEdition(card), Change::AddChips(50)),
        Some(Edition::Holographic) => state.with_step(
            Reason::CardEdition(card),
            Change::AddMult(10),
        ),
        Some(Edition::Polychrome) => state.with_step(
            Reason::CardEdition(card),
            Change::TimesMult(Factor::OneAndHalf),
        ),
        None => state,
    }
}

/// Lets the edition of a scoring card act.
pub fn apply_edition(card: &Card, game_state: &mut GameState) -> (done: GameResult<()>)
    ensures
        done is Ok,
        final(game_state)@ == edition_effect(old(game_state)@, *card),
{
    match card.edition {
        Some(Edition::Foil) => {
            game_state.record(Reason::CardEdition(*card), Change::AddChips(50));
        },
        Some(Edition::Holographic) => {
            game_state.record(Reason::CardEdition(*card), Change::AddMult(10));
        },
        Some(Edition::Polychrome) => {
            game_state.record(Reason::CardEdition(*card), Change::TimesMult(Factor::OneAndHalf));
        },
        None => {},
    }
    Ok(())
}

/// The state after a card held in hand has acted: half the mult again for
/// a steel card.
pub open spec fn steel_effect(state: GameView, card: Card) -> GameView {
    if card.spec_is_steel() {
        state.with_step(Reason::Held(card), Change::TimesMult(Factor::OneAndHalf))
    } else {
        state
    }
}

/// Lets a steel card held in hand act.
pub fn apply_steel_enhancement(card: &Card, game_state: &mut GameState) -> (done: GameResult<()>)
    ensures
        done is Ok,
        final(game_state)@ == steel_effect(old(game_state)@, *card),
{
    if card.is_steel() {
        game_state.record(Reason::Held(*card), Change::TimesMult(Factor::OneAndHalf));
    }
    Ok(())
}

} // verus!

//! Jokers that change the rules: what counts as a hand, which cards score,
//! which cards act again, and the joker that copies its neighbour.

use crate::cards::{Card, Joker, JokerCard};
use crate::errors::GameResult;
use crate::game::{one_more, Change, GameState, GameView, Note, Reason};
use crate::jokers::basic;
use crate::jokers::medium;
use crate::jokers::{activation_of, activation_type_of, can_apply_of, joker_can_apply, ActivationType, JokerEffect};
use vstd::prelude::*;

verus! {

/// Flushes and straights can be made with four cards.
#[derive(Clone, Copy, Debug, PartialEq, Eq, Structural)]
pub struct FourFingers;

impl JokerEffect for FourFingers {
    open spec fn spec_activation_type(&self) -> ActivationType {
        ActivationType::Independent
    }

    fn activation_type(&self) -> (activation: ActivationType) {
        ActivationType::Independent
    }

    open spec fn spec_can_apply(&self, state: GameView) -> bool {
        true
    }

    fn can_apply(&self, game_state: &GameState) -> (ready: bool) {
        true
    }

    open spec fn effect(&self, state: GameView, joker_card: JokerCard, current_card: Card) -> GameView {
        GameView {
            four_fingers_active: true,
            ..state.with_step(Reason::Joker(joker_card), Change::Note(Note::FourCardHands))
        }
    }

    fn apply(&self, game_state: &mut GameState, joker_card: &JokerCard, current_card: &Card) -> (done: GameResult<()>) {
        game_state.four_fingers_active = true;
        game_state.record(Reason::Joker(*joker_card), Change::Note(Note::FourCardHands));
        Ok(())
    }
}

/// Straights can be made with gaps of one rank.
#[derive(Clone, Copy, Debug, PartialEq, Eq, Structural)]
pub struct Shortcut;

impl JokerEffect for Shortcut {
    open spec fn spec_activation_type(&self) -> ActivationType {
        ActivationType::Independent
    }

    fn activation_type(&self) -> (activation: ActivationType) {
        ActivationType::Independent
    }

    open spec fn spec_can_apply(&self, state: GameView) -> bool {
        true
    }

    fn can_apply(&self, game_state: &GameState) -> (ready: bool) {
        true
    }

    open spec fn effect(&self, state: GameView, joker_card: JokerCard, current_card: Card) -> GameView {
        GameView {
            shortcut_active: true,
            ..state.with_step(Reason::Joker(joker_card), Change::Note(Note::GapStraights))
        }
    }

    fn apply(&self, game_state: &mut GameState, joker_card: &JokerCard, current_card: &Card) -> (done: GameResult<()>) {
        game_state.shortcut_active = true;
        game_state.record(Reason::Joker(*joker_card), Change::Note(Note::GapStraights));
        Ok(())
    }
}

/// The abilities of cards held in hand act once more.
#[derive(Clone, Copy, Debug, PartialEq, Eq, Structural)]
pub struct Mime;

impl JokerEffect for Mime {
    open spec fn spec_activation_type(&self) -> ActivationType {
        ActivationType::OnHeld
    }

    fn activation_type(&self) -> (activation: ActivationType) {
        ActivationType::OnHeld
    }

    open spec fn spec_can_apply(&self, state: GameView) -> bool {
        true
    }

    fn can_apply(&self, game_state: &GameState) -> (ready: bool) {
        true
    }

    open spec fn effect(&self, state: GameView, joker_card: JokerCard, current_card: Card) -> GameView {
        GameView {
            mime_retriggers: one_more(state.mime_retriggers),
            ..state.with_step(Reason::Joker(joker_card), Change::Note(Note::RetriggerHeld))
        }
    }

    fn apply(&self, game_state: &mut GameState, joker_card: &JokerCard, current_card: &Card) -> (done: GameResult<()>) {
        if game_state.mime_retriggers < usize::MAX {
            game_state.mime_retriggers += 1;
        }
        game_state.record(Reason::Joker(*joker_card), Change::Note(Note::RetriggerHeld));
        Ok(())
    }
}

/// Every card counts as a face card.
#[derive(Clone, Copy, Debug, PartialEq, Eq, Structural)]
pub struct Pareidolia;

impl JokerEffect for Pareidolia {
    open spec fn spec_activation_type(&self) -> ActivationType {
        ActivationType::Independent
    }

    fn activation_type(&self) -> (activation: ActivationType) {
        ActivationType::Independent
    }

    open spec fn spec_can_apply(&self, state: GameView) -> bool {
        true
    }

    fn can_apply(&self, game_state: &GameState) -> (ready: bool) {
        true
    }

    open spec fn effect(&self, state: GameView, joker_card: JokerCard, current_card: Card) -> GameView {
        GameView {
            pareidolia_active: true,
            ..state.with_step(Reason::Joker(joker_card), Change::Note(Note::AllFaces))
        }
    }

    fn apply(&self, game_state: &mut GameState, joker_card: &JokerCard, current_card: &Card) -> (done: GameResult<()>) {
        game_state.pareidolia_active = true;
        game_state.record(Reason::Joker(*joker_card), Change::Note(Note::AllFaces));
        Ok(())
    }
}

/// Every played card scores.
#[derive(Clone, Copy, Debug, PartialEq, Eq, Structural)]
pub struct Splash;

impl JokerEffect for Splash {
    open spec fn spec_activation_type(&self) -> ActivationType {
        ActivationType::Independent
    }

    fn activation_type(&self) -> (activation: ActivationType) {
        ActivationType::Independent
    }

    open spec fn spec_can_apply(&self, state: GameView) -> bool {
        true
    }

    fn can_apply(&self, game_state: &GameState) -> (ready: bool) {
        true
    }

    open spec fn effect(&self, state: GameView, joker_card: JokerCard, current_card: Card) -> GameView {
        GameView {
            splash_active: true,
            ..state.with_step(Reason::Joker(joker_card), Change::Note(Note::AllScore))
        }
    }

    fn apply(&self, game_state: &mut GameState, joker_card: &JokerCard, current_card: &Card) -> (done: GameResult<()>) {
        game_state.splash_active = true;
        game_state.record(Reason::Joker(*joker_card), Change::Note(Note::AllScore));
        Ok(())
    }
}

/// Scoring face cards act once more.
#[derive(Clone, Copy, Debug, PartialEq, Eq, Structural)]
pub struct SockAndBuskin;

impl JokerEffect for SockAndBuskin {
    open spec fn spec_activation_type(&self) -> ActivationType {
        ActivationType::OnScored
    }

    fn activation_type(&self) -> (activation: ActivationType) {
        ActivationType::OnScored
    }

    open spec fn spec_can_apply(&self, state: GameView) -> bool {
        true
    }

    fn can_apply(&self, game_state: &GameState) -> (ready: bool) {
        true
    }

    open spec fn effect(&self, state: GameView, joker_card: JokerCard, current_card: Card) -> GameView {
        GameView {
            sock_and_buskin_retriggers: one_more(state.sock_and_buskin_retriggers),
            ..state.with_step(Reason::Joker(joker_card), Change::Note(Note::RetriggerFaces))
        }
    }

    fn apply(&self, game_state: &mut GameState, joker_card: &JokerCard, current_card: &Card) -> (done: GameResult<()>) {
        if game_state.sock_and_buskin_retriggers < usize::MAX {
            game_state.sock_and_buskin_retriggers += 1;
        }
        game_state.record(Reason::Joker(*joker_card), Change::Note(Note::RetriggerFaces));
        Ok(())
    }
}

/// Hearts and diamonds count as one suit, and spades and clubs as one.
#[derive(Clone, Copy, Debug, PartialEq, Eq, Structural)]
pub struct SmearedJoker;

impl JokerEffect for SmearedJoker {
    open spec fn spec_activation_type(&self) -> ActivationType {
        ActivationType::Independent
    }

    fn activation_type(&self) -> (activation: ActivationType) {
        ActivationType::Independent
    }

    open spec fn spec_can_apply(&self, state: GameView) -> bool {
        true
    }

    fn can_apply(&self, game_state: &GameState) -> (ready: bool) {
        true
    }

    open spec fn effect(&self, state: GameView, joker_card: JokerCard, current_card: Card) -> GameView {
        GameView {
            smeared_joker_active: true,
            ..state.with_step(Reason::Joker(joker_card), Change::Note(Note::SmearedSuits))
        }
    }

    fn apply(&self, game_state: &mut GameState, joker_card: &JokerCard, current_card: &Card) -> (done: GameResult<()>) {
        game_state.smeared_joker_active = true;
        game_state.record(Reason::Joker(*joker_card), Change::Note(Note::SmearedSuits));
        Ok(())
    }
}

/// True when `i` is the place of the first joker card of the row that is
/// `joker_card`.
pub open spec fn is_first_at(jokers: Seq<JokerCard>, joker_card: JokerCard, i: int) -> bool {
    &&& 0 <= i < jokers.len()
    &&& jokers[i] == joker_card
    &&& forall|j: int| 0 <= j < i ==> jokers[j] != joker_card
}

/// The place of the first joker card of the row that is `joker_card`.
pub open spec fn position_of(jokers: Seq<JokerCard>, joker_card: JokerCard) -> Option<int> {
    if exists|i: int| is_first_at(jokers, joker_card, i) {
        Some(choose|i: int| is_first_at(jokers, joker_card, i))
    } else {
        None
    }
}

/// Finds the first joker card of the row that is `joker_card`.
pub fn find_joker_card(jokers: &Vec<JokerCard>, joker_card: &JokerCard) -> (place: Option<usize>)
    ensures
        match place {
            Some(i) => i < jokers@.len() && jokers@[i as int] == *joker_card && forall|j: int|
                0 <= j < i ==> jokers@[j] != *joker_card,
            None => forall|j: int| 0 <= j < jokers@.len() ==> jokers@[j] != *joker_card,
        },
        match place {
            Some(i) => position_of(jokers@, *joker_card) == Some(i as int),
            None => position_of(jokers@, *joker_card) is None,
        },
{
    let mut i: usize = 0;
    while i < jokers.len()
        invariant
            i <= jokers@.len(),
            forall|j: int| 0 <= j < i ==> jokers@[j] != *joker_card,
        decreases jokers@.len() - i,
    {
        if jokers[i] == *joker_card {
            proof {
                assert(is_first_at(jokers@, *joker_card, i as int));
                let found = choose|k: int| is_first_at(jokers@, *joker_card, k);
                if found < i {
                    assert(jokers@[found] != *joker_card);
                }
                if found > i {
                    assert(jokers@[i as int] != *joker_card);
                }
            }
            return Some(i);
        }
        i += 1;
    }
    proof {
        assert forall|k: int| !is_first_at(jokers@, *joker_card, k) by {
            if 0 <= k < jokers@.len() {
                assert(jokers@[k] != *joker_card);
            }
        }
    }
    None
}

/// The first joker to the right of place `start` that is no blueprint, with
/// its place.
pub open spec fn blueprint_target(jokers: Seq<JokerCard>, start: int) -> Option<(int, Joker)>
    decreases jokers.len() - start,
{
    if start + 1 >= jokers.len() || start < -1 {
        None
    } else if jokers[start + 1].joker != Joker::Blueprint {
        Some((start + 1, jokers[start + 1].joker))
    } else {
        blueprint_target(jokers, start + 1)
    }
}

/// Follows the blueprints to the right of place `start_index` to the first
/// joker that is none.
pub fn follow_blueprint_chain(game_state: &GameState, start_index: usize) -> (target: Option<
    (usize, Joker),
>)
    ensures
        match target {
            Some((place, joker)) => blueprint_target(game_state@.jokers, start_index as int)
                == Some((place as int, joker)),
            None => blueprint_target(game_state@.jokers, start_index as int) is None,
        },
{
    let jokers = &game_state.round.jokers;
    proof {
        assert(game_state@.jokers == jokers@);
    }
    if start_index >= jokers.len() {
        return None;
    }
    let mut current_index = start_index + 1;
    while current_index < jokers.len()
        invariant
            start_index < current_index <= jokers@.len(),
            game_state@.jokers == jokers@,
            blueprint_target(jokers@, start_index as int) == blueprint_target(
                jokers@,
                current_index - 1,
            ),
        decreases jokers@.len() - current_index,
    {
        let current_joker = jokers[current_index].joker;
        if current_joker != Joker::Blueprint {
            proof {
                assert(blueprint_target(jokers@, current_index - 1) == Some(
                    (current_index as int, current_joker),
                ));
            }
            return Some((current_index, current_joker));
        }
        proof {
            assert(blueprint_target(jokers@, current_index - 1) == blueprint_target(
                jokers@,
                current_index as int,
            ));
        }
        current_index += 1;
    }
    proof {
        assert(blueprint_target(jokers@, current_index - 1) is None);
    }
    None
}

/// True for the jokers that act once, after the cards, by changing chips or
/// mult: the ones whose ability a blueprint can use at once.
pub open spec fn is_plain(joker: Joker) -> bool {
    activation_of(joker) == ActivationType::Independent && joker != Joker::FourFingers && joker
        != Joker::Shortcut && joker != Joker::Pareidolia && joker != Joker::Splash && joker
        != Joker::SmearedJoker && joker != Joker::Blueprint
}

/// What a joker that changes chips or mult once, after the cards, does.
pub open spec fn plain_effect(joker: Joker, state: GameView, joker_card: JokerCard, current_card: Card) -> GameView {
    match joker {
        Joker::Joker => basic::Joker.effect(state, joker_card, current_card),
        Joker::JollyJoker => basic::JollyJoker.effect(state, joker_card, current_card),
        Joker::ZanyJoker => basic::ZanyJoker.effect(state, joker_card, current_card),
        Joker::MadJoker => basic::MadJoker.effect(state, joker_card, current_card),
        Joker::CrazyJoker => basic::CrazyJoker.effect(state, joker_card, current_card),
        Joker::DrollJoker => basic::DrollJoker.effect(state, joker_card, current_card),
        Joker::SlyJoker => basic::SlyJoker.effect(state, joker_card, current_card),
        Joker::WilyJoker => basic::WilyJoker.effect(state, joker_card, current_card),
        Joker::CleverJoker => basic::CleverJoker.effect(state, joker_card, current_card),
        Joker::DeviousJoker => basic::DeviousJoker.effect(state, joker_card, current_card),
        Joker::CraftyJoker => basic::CraftyJoker.effect(state, joker_card, current_card),
        Joker::AbstractJoker => basic::AbstractJoker.effect(state, joker_card, current_card),
        Joker::Blackboard => medium::Blackboard.effect(state, joker_card, current_card),
        Joker::FlowerPot => medium::FlowerPot.effect(state, joker_card, current_card),
        _ => state,
    }
}

/// Lets a joker that changes chips or mult once, after the cards, act.
pub fn apply_plain(joker: Joker, game_state: &mut GameState, joker_card: &JokerCard, current_card: &Card) -> (done: GameResult<()>)
    ensures
        done is Ok,
        final(game_state)@ == plain_effect(joker, old(game_state)@, *joker_card, *current_card),
{
    match joker {
        Joker::Joker => basic::Joker.apply(game_state, joker_card, current_card),
        Joker::JollyJoker => basic::JollyJoker.apply(game_state, joker_card, current_card),
        Joker::ZanyJoker => basic::ZanyJoker.apply(game_state, joker_card, current_card),
        Joker::MadJoker => basic::MadJoker.apply(game_state, joker_card, current_card),
        Joker::CrazyJoker => basic::CrazyJoker.apply(game_state, joker_card, current_card),
        Joker::DrollJoker => basic::DrollJoker.apply(game_state, joker_card, current_card),
        Joker::SlyJoker => basic::SlyJoker.apply(game_state, joker_card, current_card),
        Joker::WilyJoker => basic::WilyJoker.apply(game_state, joker_card, current_card),
        Joker::CleverJoker => basic::CleverJoker.apply(game_state, joker_card, current_card),
        Joker::DeviousJoker => basic::DeviousJoker.apply(game_state, joker_card, current_card),
        Joker::CraftyJoker => basic::CraftyJoker.apply(game_state, joker_card, current_card),
        Joker::AbstractJoker => basic::AbstractJoker.apply(game_state, joker_card, current_card),
        Joker::Blackboard => medium::Blackboard.apply(game_state, joker_card, current_card),
        Joker::FlowerPot => medium::FlowerPot.apply(game_state, joker_card, current_card),
        _ => Ok(()),
    }
}

/// Copies the ability of the joker to its right, passing over blueprints.
/// An ability that acts once is used at once, under the blueprint's own
/// name; one that acts on cards is noted for when the cards are scored or
/// held.
#[derive(Clone, Copy, Debug, PartialEq, Eq, Structural)]
pub struct Blueprint;

impl Blueprint {
    /// The joker that the blueprint at `joker_card` copies, if there is one.
    pub open spec fn target(state: GameView, joker_card: JokerCard) -> Option<Joker> {
        match position_of(state.jokers, joker_card) {
            Some(place) => match blueprint_target(state.jokers, place) {
                Some((_, joker)) => Some(joker),
                None => None,
            },
            None => None,
        }
    }
}

impl JokerEffect for Blueprint {
    open spec fn spec_activation_type(&self) -> ActivationType {
        ActivationType::Independent
    }

    fn activation_type(&self) -> (activation: ActivationType) {
        ActivationType::Independent
    }

    open spec fn spec_can_apply(&self, state: GameView) -> bool {
        true
    }

    fn can_apply(&self, game_state: &GameState) -> (ready: bool) {
        true
    }

    open spec fn effect(&self, state: GameView, joker_card: JokerCard, current_card: Card) -> GameView {
        match Blueprint::target(state, joker_card) {
            Some(target) => match activation_of(target) {
                ActivationType::Independent => if is_plain(target) && can_apply_of(target, state) {
                    plain_effect(target, state, joker_card, current_card).with_step(
                        Reason::Joker(joker_card),
                        Change::Note(Note::Copies(target)),
                    )
                } else {
                    state.with_step(Reason::Joker(joker_card), Change::Note(Note::NothingToCopy))
                },
                ActivationType::OnScored => GameView {
                    blueprint_copied_jokers: state.blueprint_copied_jokers.push((joker_card, target)),
                    ..state.with_step(
                        Reason::Joker(joker_card),
                        Change::Note(Note::WillCopyScored(target)),
                    )
                },
                ActivationType::OnHeld => GameView {
                    blueprint_held_jokers: state.blueprint_held_jokers.push((joker_card, target)),
                    ..state.with_step(
                        Reason::Joker(joker_card),
                        Change::Note(Note::WillCopyHeld(target)),
                    )
                },
            },
            None => state.with_step(Reason::Joker(joker_card), Change::Note(Note::NothingToCopy)),
        }
    }

    #[verifier::rlimit(60)]
    fn apply(&self, game_state: &mut GameState, joker_card: &JokerCard, current_card: &Card) -> (done: GameResult<()>) {
        let target = match find_joker_card(&game_state.round.jokers, joker_card) {
            Some(joker_index) => match follow_blueprint_chain(game_state, joker_index) {
                Some((_, joker)) => Some(joker),
                None => None,
            },
            None => None,
        };
        match target {
            Some(target_joker) => {
                match activation_type_of(target_joker) {
                    ActivationType::Independent => {
                        if target_joker != Joker::FourFingers && target_joker != Joker::Shortcut
                            && target_joker != Joker::Pareidolia && target_joker != Joker::Splash
                            && target_joker != Joker::SmearedJoker && target_joker
                            != Joker::Blueprint && joker_can_apply(target_joker, game_state) {
                            let _ = apply_plain(target_joker, game_state, joker_card, current_card);
                            game_state.record(
                                Reason::Joker(*joker_card),
                                Change::Note(Note::Copies(target_joker)),
                            );
                            return Ok(());
                        }
                    },
                    ActivationType::OnScored => {
                        game_state.blueprint_copied_jokers.push((*joker_card, target_joker));
                        game_state.record(
                            Reason::Joker(*joker_card),
                            Change::Note(Note::WillCopyScored(target_joker)),
                        );
                        return Ok(());
                    },
                    ActivationType::OnHeld => {
                        game_state.blueprint_held_jokers.push((*joker_card, target_joker));
                        game_state.record(
                            Reason::Joker(*joker_card),
                            Change::Note(Note::WillCopyHeld(target_joker)),
                        );
                        return Ok(());
                    },
                }
            },
            None => {},
        }
        game_state.record(Reason::Joker(*joker_card), Change::Note(Note::NothingToCopy));
        Ok(())
    }
}

} // verus!

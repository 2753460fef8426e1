//! Scoring a round: the hand is named, each scoring card scores with its
//! enhancement, its edition and the jokers that watch it, each card held in
//! hand acts, and the jokers have their turn.

use crate::cards::{Card, Joker, JokerCard, Rank, Suit};
use crate::errors::GameResult;
use crate::game::{Change, GameState, GameView, Reason};
use crate::jokers::complex::Blueprint;
use crate::jokers::{
    activation_of, activation_type_of, apply_joker, can_apply_of, effect_of, joker_can_apply,
    jokers_effect, process_jokers, ActivationType, JokerEffect,
};
use crate::modifiers::{
    apply_edition, apply_enhancement, apply_steel_enhancement, edition_effect, enhancement_effect,
    steel_effect,
};
use crate::poker::{
    all_cards, analyse_hand_conditions, conditions_of, get_scoring_cards, hand_of, identify_hand,
    scoring_cards_of,
};
use vstd::prelude::*;

verus! {

/// The card that stands in where a joker acts without a card.
pub open spec fn spec_placeholder() -> Card {
    Card { rank: Rank::Ace, suit: Suit::Diamonds, enhancement: None, edition: None, id: usize::MAX }
}

/// The card that stands in where a joker acts without a card: an ace of
/// diamonds that is no card of the round.
pub fn placeholder() -> (card: Card)
    ensures
        card == spec_placeholder(),
{
    Card { rank: Rank::Ace, suit: Suit::Diamonds, enhancement: None, edition: None, id: usize::MAX }
}

/// The lowest rank among the cards; none where there are no cards.
pub open spec fn lowest_rank(cards: Seq<Card>) -> Option<Rank>
    decreases cards.len(),
{
    if cards.len() == 0 {
        None
    } else {
        match lowest_rank(cards.drop_last()) {
            Some(rank) => if cards.last().rank.spec_ordinal() < rank.spec_ordinal() {
                Some(cards.last().rank)
            } else {
                Some(rank)
            },
            None => Some(cards.last().rank),
        }
    }
}

/// The last of the cards that has the given rank.
pub open spec fn last_of_rank(cards: Seq<Card>, rank: Rank) -> Option<Card>
    decreases cards.len(),
{
    if cards.len() == 0 {
        None
    } else if cards.last().rank == rank {
        Some(cards.last())
    } else {
        last_of_rank(cards.drop_last(), rank)
    }
}

/// Finds the lowest rank among the cards.
pub fn find_lowest_rank(cards: &Vec<Card>) -> (lowest: Option<Rank>)
    ensures
        lowest == lowest_rank(cards@),
{
    let mut lowest: Option<Rank> = None;
    let mut i: usize = 0;
    while i < cards.len()
        invariant
            i <= cards@.len(),
            lowest == lowest_rank(cards@.take(i as int)),
        decreases cards@.len() - i,
    {
        proof {
            assert(cards@.take(i + 1).drop_last() == cards@.take(i as int));
            assert(cards@.take(i + 1).last() == cards@[i as int]);
        }
        let rank = cards[i].rank;
        lowest = match lowest {
            Some(best) => if rank.ordinal() < best.ordinal() {
                Some(rank)
            } else {
                Some(best)
            },
            None => Some(rank),
        };
        i += 1;
    }
    proof {
        assert(cards@.take(cards@.len() as int) == cards@);
    }
    lowest
}

/// Finds the last of the cards that has the given rank.
pub fn find_last_of_rank(cards: &Vec<Card>, rank: Rank) -> (found: Option<Card>)
    ensures
        found == last_of_rank(cards@, rank),
{
    let mut found: Option<Card> = None;
    let mut i: usize = 0;
    while i < cards.len()
        invariant
            i <= cards@.len(),
            found == last_of_rank(cards@.take(i as int), rank),
        decreases cards@.len() - i,
    {
        proof {
            assert(cards@.take(i + 1).drop_last() == cards@.take(i as int));
            assert(cards@.take(i + 1).last() == cards@[i as int]);
        }
        if cards[i].rank == rank {
            found = Some(cards[i]);
        }
        i += 1;
    }
    proof {
        assert(cards@.take(cards@.len() as int) == cards@);
    }
    found
}

/// True when some joker of the row is the given one.
pub open spec fn has_joker(jokers: Seq<JokerCard>, joker: Joker) -> bool {
    exists|i: int| 0 <= i < jokers.len() && (#[trigger] jokers[i]).joker == joker
}

/// True when some joker of the row is the given one.
pub fn row_has_joker(jokers: &Vec<JokerCard>, joker: Joker) -> (found: bool)
    ensures
        found == has_joker(jokers@, joker),
{
    let mut i: usize = 0;
    while i < jokers.len()
        invariant
            i <= jokers@.len(),
            forall|j: int| 0 <= j < i ==> (#[trigger] jokers@[j]).joker != joker,
        decreases jokers@.len() - i,
    {
        if jokers[i].joker == joker {
            return true;
        }
        i += 1;
    }
    false
}

/// How a joker that watches the cards held in hand is asked to act.
#[derive(Clone, Copy, Debug, PartialEq, Eq, Structural)]
pub enum FistRule {
    /// The raised fist acts on the last of the cards of the lowest rank: on
    /// a card that agrees with it in rank, suit and enhancement.
    RightMost,
    /// The raised fist acts on every card of the lowest rank.
    AnyLowest,
}

/// True when the raised fist acts on the card.
pub open spec fn fist_acts(held: Seq<Card>, card: Card, rule: FistRule) -> bool {
    match lowest_rank(held) {
        Some(lowest) => match rule {
            FistRule::RightMost => match last_of_rank(held, lowest) {
                Some(right_most) => right_most.rank == card.rank && right_most.suit == card.suit
                    && right_most.enhancement == card.enhancement,
                None => false,
            },
            FistRule::AnyLowest => card.rank == lowest,
        },
        None => false,
    }
}

/// Decides whether the raised fist acts on the card.
pub fn fist_applies(held: &Vec<Card>, card: &Card, rule: FistRule) -> (acts: bool)
    ensures
        acts == fist_acts(held@, *card, rule),
{
    match find_lowest_rank(held) {
        Some(lowest) => match rule {
            FistRule::RightMost => match find_last_of_rank(held, lowest) {
                Some(right_most) => right_most.rank == card.rank && right_most.suit == card.suit
                    && right_most.enhancement == card.enhancement,
                None => false,
            },
            FistRule::AnyLowest => card.rank == lowest,
        },
        None => false,
    }
}

/// The state after one joker of the row has had its chance on a card: it
/// acts when it watches cards at this time, is not the joker left out, and
/// is ready; the raised fist only on the card that its rule names.
pub open spec fn joker_step(
    state: GameView,
    joker_card: JokerCard,
    card: Card,
    time: ActivationType,
    skip: Option<Joker>,
    rule: FistRule,
) -> GameView {
    if Some(joker_card.joker) != skip && activation_of(joker_card.joker) == time && can_apply_of(
        joker_card.joker,
        state,
    ) && (joker_card.joker != Joker::RaisedFist || time != ActivationType::OnHeld || fist_acts(
        state.cards_held_in_hand,
        card,
        rule,
    )) {
        effect_of(joker_card.joker, state, joker_card, card)
    } else {
        state
    }
}

/// The state after each joker of the list has had its chance on a card, in
/// order.
pub open spec fn jokers_pass(
    state: GameView,
    jokers: Seq<JokerCard>,
    card: Card,
    time: ActivationType,
    skip: Option<Joker>,
    rule: FistRule,
) -> GameView
    decreases jokers.len(),
{
    if jokers.len() == 0 {
        state
    } else {
        joker_step(
            jokers_pass(state, jokers.drop_last(), card, time, skip, rule),
            jokers.last(),
            card,
            time,
            skip,
            rule,
        )
    }
}

/// The state after one copied ability has had its chance on a card: it acts
/// under the name of the copying joker; the raised fist on every card of
/// the lowest rank held, every other one when it is ready.
pub open spec fn copy_step(state: GameView, copy: (JokerCard, Joker), card: Card, held: bool) -> GameView {
    if if held && copy.1 == Joker::RaisedFist {
        fist_acts(state.cards_held_in_hand, card, FistRule::AnyLowest)
    } else {
        can_apply_of(copy.1, state)
    } {
        effect_of(copy.1, state, copy.0, card)
    } else {
        state
    }
}

/// The state after each copied ability of the list has had its chance on a
/// card, in order.
pub open spec fn copies_pass(
    state: GameView,
    copies: Seq<(JokerCard, Joker)>,
    card: Card,
    held: bool,
) -> GameView
    decreases copies.len(),
{
    if copies.len() == 0 {
        state
    } else {
        copy_step(copies_pass(state, copies.drop_last(), card, held), copies.last(), card, held)
    }
}

/// The state after a scoring face card has acted once more: it scores its
/// rank, its enhancement and its edition act, and so do the jokers that
/// watch scoring cards, but for the one that asked for it.
pub open spec fn retrigger_scored(state: GameView, card: Card) -> GameView {
    jokers_pass(
        edition_effect(
            enhancement_effect(
                state.with_step(
                    Reason::Retriggered(card),
                    Change::AddChips(card.rank.spec_rank_value() as u128),
                ),
                card,
            ),
            card,
        ),
        state.jokers,
        card,
        ActivationType::OnScored,
        Some(Joker::SockAndBuskin),
        FistRule::AnyLowest,
    )
}

/// The state after a scoring card has acted `times` times more.
pub open spec fn retriggers_scored(state: GameView, card: Card, times: nat) -> GameView
    decreases times,
{
    if times == 0 {
        state
    } else {
        retrigger_scored(retriggers_scored(state, card, (times - 1) as nat), card)
    }
}

/// The state after the jokers have watched a card score: first the jokers
/// of the row, then the copied abilities; then, where retriggers were asked
/// for and the card is a face card or all cards count as such, the card acts
/// that many times more.
pub open spec fn on_scored(state: GameView, card: Card) -> GameView {
    let watched = copies_pass(
        jokers_pass(
            state,
            state.jokers,
            card,
            ActivationType::OnScored,
            None,
            FistRule::AnyLowest,
        ),
        jokers_pass(state, state.jokers, card, ActivationType::OnScored, None, FistRule::AnyLowest).blueprint_copied_jokers,
        card,
        false,
    );
    if watched.sock_and_buskin_retriggers > 0 && (watched.pareidolia_active
        || card.rank.spec_is_face()) {
        retriggers_scored(
            GameView {
                sock_and_buskin_retriggers: 0,
                first_face_card_processed: false,
                ..watched
            },
            card,
            watched.sock_and_buskin_retriggers as nat,
        )
    } else {
        watched
    }
}

/// The state after a card held in hand has acted once more: its steel acts,
/// and so do the jokers that watch cards held, but for the one that asked
/// for it.
pub open spec fn retrigger_held(state: GameView, card: Card) -> GameView {
    jokers_pass(
        steel_effect(state, card),
        state.jokers,
        card,
        ActivationType::OnHeld,
        Some(Joker::Mime),
        FistRule::AnyLowest,
    )
}

/// The state after a card held in hand has acted `times` times more.
pub open spec fn retriggers_held(state: GameView, card: Card, times: nat) -> GameView
    decreases times,
{
    if times == 0 {
        state
    } else {
        retrigger_held(retriggers_held(state, card, (times - 1) as nat), card)
    }
}

/// The state after the jokers have watched a card held in hand: first the
/// jokers of the row, then the copied abilities; then, where retriggers
/// were asked for, the card acts that many times more.
pub open spec fn on_held(state: GameView, card: Card) -> GameView {
    let first = jokers_pass(
        state,
        state.jokers,
        card,
        ActivationType::OnHeld,
        None,
        FistRule::RightMost,
    );
    let watched = copies_pass(first, first.blueprint_held_jokers, card, true);
    if watched.mime_retriggers > 0 {
        retriggers_held(
            GameView { mime_retriggers: 0, ..watched },
            card,
            watched.mime_retriggers as nat,
        )
    } else {
        watched
    }
}

/// Gives each joker of the list its chance on a card.
pub fn run_jokers_pass(
    game_state: &mut GameState,
    jokers: &Vec<JokerCard>,
    card: &Card,
    time: ActivationType,
    skip: Option<Joker>,
    rule: FistRule,
)
    ensures
        final(game_state)@ == jokers_pass(old(game_state)@, jokers@, *card, time, skip, rule),
{
    let mut i: usize = 0;
    proof {
        assert(jokers@.take(0) == Seq::<JokerCard>::empty());
    }
    while i < jokers.len()
        invariant
            i <= jokers@.len(),
            game_state@ == jokers_pass(
                old(game_state)@,
                jokers@.take(i as int),
                *card,
                time,
                skip,
                rule,
            ),
        decreases jokers@.len() - i,
    {
        let joker_card = jokers[i];
        proof {
            assert(jokers@.take(i + 1).drop_last() == jokers@.take(i as int));
            assert(jokers@.take(i + 1).last() == joker_card);
        }
        let skipped = match skip {
            Some(left_out) => joker_card.joker == left_out,
            None => false,
        };
        if !skipped && activation_type_of(joker_card.joker) == time && joker_can_apply(
            joker_card.joker,
            game_state,
        ) {
            let fist = joker_card.joker == Joker::RaisedFist && time == ActivationType::OnHeld;
            if !fist || fist_applies(&game_state.round.cards_held_in_hand, card, rule) {
                let _ = apply_joker(joker_card.joker, game_state, &joker_card, card);
            }
        }
        i += 1;
    }
    proof {
        assert(jokers@.take(jokers@.len() as int) == jokers@);
    }
}

/// Gives each copied ability of the list its chance on a card.
pub fn run_copies_pass(
    game_state: &mut GameState,
    copies: &Vec<(JokerCard, Joker)>,
    card: &Card,
    held: bool,
)
    ensures
        final(game_state)@ == copies_pass(old(game_state)@, copies@, *card, held),
{
    let mut i: usize = 0;
    proof {
        assert(copies@.take(0) == Seq::<(JokerCard, Joker)>::empty());
    }
    while i < copies.len()
        invariant
            i <= copies@.len(),
            game_state@ == copies_pass(old(game_state)@, copies@.take(i as int), *card, held),
        decreases copies@.len() - i,
    {
        let copy = copies[i];
        proof {
            assert(copies@.take(i + 1).drop_last() == copies@.take(i as int));
            assert(copies@.take(i + 1).last() == copy);
        }
        let acts = if held && copy.1 == Joker::RaisedFist {
            fist_applies(&game_state.round.cards_held_in_hand, card, FistRule::AnyLowest)
        } else {
            joker_can_apply(copy.1, game_state)
        };
        if acts {
            let _ = apply_joker(copy.1, game_state, &copy.0, card);
        }
        i += 1;
    }
    proof {
        assert(copies@.take(copies@.len() as int) == copies@);
    }
}

/// A copy of a list of copied abilities.
pub fn copy_pairs(list: &Vec<(JokerCard, Joker)>) -> (out: Vec<(JokerCard, Joker)>)
    ensures
        out@ == list@,
{
    let mut out: Vec<(JokerCard, Joker)> = Vec::new();
    let mut i: usize = 0;
    while i < list.len()
        invariant
            i <= list@.len(),
            out@ == list@.take(i as int),
        decreases list@.len() - i,
    {
        proof {
            assert(list@.take(i + 1) == list@.take(i as int).push(list@[i as int]));
        }
        out.push((list[i].0, list[i].1));
        i += 1;
    }
    proof {
        assert(list@.take(list@.len() as int) == list@);
    }
    out
}

impl GameState {
    /// Lets a scoring card act `times` times more.
    fn retrigger_scored_card(&mut self, card: &Card, times: usize)
        ensures
            final(self)@ == retriggers_scored(old(self)@, *card, times as nat),
    {
        let mut done: usize = 0;
        while done < times
            invariant
                done <= times,
                self@ == retriggers_scored(old(self)@, *card, done as nat),
            decreases times - done,
        {
            let jokers = self.round.jokers.clone();
            self.record(
                Reason::Retriggered(*card),
                Change::AddChips(card.rank.rank_value() as u128),
            );
            let _ = apply_enhancement(card, self);
            let _ = apply_edition(card, self);
            run_jokers_pass(
                self,
                &jokers,
                card,
                ActivationType::OnScored,
                Some(Joker::SockAndBuskin),
                FistRule::AnyLowest,
            );
            done += 1;
        }
    }

    /// Lets a card held in hand act `times` times more.
    fn retrigger_held_card(&mut self, card: &Card, times: usize)
        ensures
            final(self)@ == retriggers_held(old(self)@, *card, times as nat),
    {
        let mut done: usize = 0;
        while done < times
            invariant
                done <= times,
                self@ == retriggers_held(old(self)@, *card, done as nat),
            decreases times - done,
        {
            let jokers = self.round.jokers.clone();
            let _ = apply_steel_enhancement(card, self);
            run_jokers_pass(
                self,
                &jokers,
                card,
                ActivationType::OnHeld,
                Some(Joker::Mime),
                FistRule::AnyLowest,
            );
            done += 1;
        }
    }

    /// Lets the jokers watch a card score.
    pub fn process_on_scored_jokers(&mut self, card: &Card) -> (done: GameResult<()>)
        ensures
            done is Ok,
            final(self)@ == on_scored(old(self)@, *card),
    {
        let jokers = self.round.jokers.clone();
        run_jokers_pass(self, &jokers, card, ActivationType::OnScored, None, FistRule::AnyLowest);
        let copies = copy_pairs(&self.blueprint_copied_jokers);
        run_copies_pass(self, &copies, card, false);
        let retrigger_count = self.sock_and_buskin_retriggers;
        if retrigger_count > 0 && (self.pareidolia_active || card.rank.is_face()) {
            self.sock_and_buskin_retriggers = 0;
            self.first_face_card_processed = false;
            self.retrigger_scored_card(card, retrigger_count);
        }
        Ok(())
    }

    /// Lets the jokers watch a card held in hand.
    pub fn process_on_held_jokers(&mut self, card: &Card) -> (done: GameResult<()>)
        ensures
            done is Ok,
            final(self)@ == on_held(old(self)@, *card),
    {
        let jokers = self.round.jokers.clone();
        run_jokers_pass(self, &jokers, card, ActivationType::OnHeld, None, FistRule::RightMost);
        let copies = copy_pairs(&self.blueprint_held_jokers);
        run_copies_pass(self, &copies, card, true);
        let retrigger_count = self.mime_retriggers;
        if retrigger_count > 0 {
            self.mime_retriggers = 0;
            self.retrigger_held_card(card, retrigger_count);
        }
        Ok(())
    }
}

/// The state with the passive jokers of the row noted and the counters of
/// scoring cleared.
pub open spec fn prepared(state: GameView) -> GameView {
    GameView {
        four_fingers_active: has_joker(state.jokers, Joker::FourFingers),
        shortcut_active: has_joker(state.jokers, Joker::Shortcut),
        pareidolia_active: has_joker(state.jokers, Joker::Pareidolia),
        splash_active: has_joker(state.jokers, Joker::Splash),
        smeared_joker_active: has_joker(state.jokers, Joker::SmearedJoker),
        first_face_card_processed: false,
        mime_retriggers: 0,
        sock_and_buskin_retriggers: 0,
        ..state
    }
}

/// The state after each blueprint of the list has looked for the joker
/// that it copies.
pub open spec fn blueprints_pass(state: GameView, jokers: Seq<JokerCard>) -> GameView
    decreases jokers.len(),
{
    if jokers.len() == 0 {
        state
    } else {
        let before = blueprints_pass(state, jokers.drop_last());
        if jokers.last().joker == Joker::Blueprint {
            Blueprint.effect(before, jokers.last(), spec_placeholder())
        } else {
            before
        }
    }
}

/// The state after the hand has been named: the score starts from the
/// hand's chips and mult, what the cards contain is noted, and the scoring
/// cards are chosen, all played cards where every card scores.
pub open spec fn with_hand(state: GameView) -> GameView {
    let hand = hand_of(
        state.cards_played,
        state.four_fingers_active,
        state.shortcut_active,
        state.smeared_joker_active,
    );
    let conditions = conditions_of(
        state.cards_played,
        state.four_fingers_active,
        state.shortcut_active,
        state.smeared_joker_active,
    );
    GameView {
        contains_pair: conditions.contains_pair,
        contains_two_pair: conditions.contains_two_pair,
        contains_three_of_a_kind: conditions.contains_three_of_a_kind,
        contains_straight: conditions.contains_straight,
        contains_flush: conditions.contains_flush,
        scoring_cards: if state.splash_active {
            state.cards_played
        } else {
            scoring_cards_of(
                hand,
                state.cards_played,
                state.four_fingers_active,
                state.shortcut_active,
                state.smeared_joker_active,
            )
        },
        ..state.with_step(
            Reason::Hand(hand),
            Change::Start(hand.spec_hand_value().0, hand.spec_hand_value().1),
        )
    }
}

/// The state after one card has scored: its rank as chips, its
/// enhancement, its edition, and the jokers that watch it.
pub open spec fn card_scored(state: GameView, card: Card) -> GameView {
    on_scored(
        edition_effect(
            enhancement_effect(
                state.with_step(
                    Reason::Scored(card),
                    Change::AddChips(card.rank.spec_rank_value() as u128),
                ),
                card,
            ),
            card,
        ),
        card,
    )
}

/// The state after the cards of the list have scored, in order.
pub open spec fn cards_scored(state: GameView, cards: Seq<Card>) -> GameView
    decreases cards.len(),
{
    if cards.len() == 0 {
        state
    } else {
        card_scored(cards_scored(state, cards.drop_last()), cards.last())
    }
}

/// The state after the cards of the list, held in hand, have acted, in
/// order.
pub open spec fn cards_held(state: GameView, cards: Seq<Card>) -> GameView
    decreases cards.len(),
{
    if cards.len() == 0 {
        state
    } else {
        on_held(steel_effect(cards_held(state, cards.drop_last()), cards.last()), cards.last())
    }
}

/// The state after a round has been scored; the state as it was where no
/// card was played.
pub open spec fn scored(state: GameView) -> GameView {
    if state.cards_played.len() == 0 {
        state
    } else {
        let named = with_hand(blueprints_pass(prepared(state), state.jokers));
        let after_cards = cards_scored(named, named.scoring_cards);
        jokers_effect(cards_held(after_cards, state.cards_held_in_hand), spec_placeholder())
    }
}

impl GameState {
    /// Notes the passive jokers, clears the counters, and lets each
    /// blueprint look for the joker that it copies.
    fn prepare(&mut self)
        ensures
            final(self)@ == blueprints_pass(prepared(old(self)@), old(self)@.jokers),
    {
        self.four_fingers_active = row_has_joker(&self.round.jokers, Joker::FourFingers);
        self.shortcut_active = row_has_joker(&self.round.jokers, Joker::Shortcut);
        self.pareidolia_active = row_has_joker(&self.round.jokers, Joker::Pareidolia);
        self.splash_active = row_has_joker(&self.round.jokers, Joker::Splash);
        self.smeared_joker_active = row_has_joker(&self.round.jokers, Joker::SmearedJoker);
        self.first_face_card_processed = false;
        self.mime_retriggers = 0;
        self.sock_and_buskin_retriggers = 0;
        let jokers = self.round.jokers.clone();
        let ghost start = self@;
        let stand_in = placeholder();
        let mut i: usize = 0;
        proof {
            assert(jokers@.take(0) == Seq::<JokerCard>::empty());
        }
        while i < jokers.len()
            invariant
                i <= jokers@.len(),
                stand_in == spec_placeholder(),
                self@ == blueprints_pass(start, jokers@.take(i as int)),
            decreases jokers@.len() - i,
        {
            let joker_card = jokers[i];
            proof {
                assert(jokers@.take(i + 1).drop_last() == jokers@.take(i as int));
                assert(jokers@.take(i + 1).last() == joker_card);
            }
            if joker_card.joker == Joker::Blueprint {
                let _ = Blueprint.apply(self, &joker_card, &stand_in);
            }
            i += 1;
        }
        proof {
            assert(jokers@.take(jokers@.len() as int) == jokers@);
        }
    }

    /// Names the hand, starts the score from it, notes what the cards
    /// contain and chooses the scoring cards.
    fn name_hand(&mut self)
        ensures
            final(self)@ == with_hand(old(self)@),
    {
        let named = identify_hand(
            &self.round.cards_played,
            self.four_fingers_active,
            self.shortcut_active,
            self.smeared_joker_active,
        );
        let poker_hand = match named {
            Ok(hand) => hand,
            Err(_) => crate::cards::PokerHand::HighCard,
        };
        let (base_chips, base_mult) = poker_hand.hand_value();
        self.record(Reason::Hand(poker_hand), Change::Start(base_chips, base_mult));
        let analysed = analyse_hand_conditions(
            &self.round.cards_played,
            self.four_fingers_active,
            self.shortcut_active,
            self.smeared_joker_active,
        );
        match analysed {
            Ok(conditions) => {
                self.contains_pair = conditions.contains_pair;
                self.contains_two_pair = conditions.contains_two_pair;
                self.contains_three_of_a_kind = conditions.contains_three_of_a_kind;
                self.contains_straight = conditions.contains_straight;
                self.contains_flush = conditions.contains_flush;
            },
            Err(_) => {},
        }
        self.scoring_cards = if self.splash_active {
            all_cards(&self.round.cards_played)
        } else {
            get_scoring_cards(
                &poker_hand,
                &self.round.cards_played,
                self.four_fingers_active,
                self.shortcut_active,
                self.smeared_joker_active,
            )
        };
    }

    /// Lets the scoring cards score, one after the other.
    fn score_cards(&mut self)
        ensures
            final(self)@ == cards_scored(old(self)@, old(self)@.scoring_cards),
    {
        let cards = all_cards(&self.scoring_cards);
        let mut i: usize = 0;
        proof {
            assert(cards@.take(0) == Seq::<Card>::empty());
        }
        while i < cards.len()
            invariant
                i <= cards@.len(),
                self@ == cards_scored(old(self)@, cards@.take(i as int)),
            decreases cards@.len() - i,
        {
            let card = cards[i];
            proof {
                assert(cards@.take(i + 1).drop_last() == cards@.take(i as int));
                assert(cards@.take(i + 1).last() == card);
            }
            self.record(Reason::Scored(card), Change::AddChips(card.rank.rank_value() as u128));
            let _ = apply_enhancement(&card, self);
            let _ = apply_edition(&card, self);
            let _ = self.process_on_scored_jokers(&card);
            i += 1;
        }
        proof {
            assert(cards@.take(cards@.len() as int) == cards@);
        }
    }

    /// Lets the cards held in hand act, one after the other.
    fn score_held(&mut self, held: &Vec<Card>)
        ensures
            final(self)@ == cards_held(old(self)@, held@),
    {
        let mut i: usize = 0;
        proof {
            assert(held@.take(0) == Seq::<Card>::empty());
        }
        while i < held.len()
            invariant
                i <= held@.len(),
                self@ == cards_held(old(self)@, held@.take(i as int)),
            decreases held@.len() - i,
        {
            let card = held[i];
            proof {
                assert(held@.take(i + 1).drop_last() == held@.take(i as int));
                assert(held@.take(i + 1).last() == card);
            }
            let _ = apply_steel_enhancement(&card, self);
            let _ = self.process_on_held_jokers(&card);
            i += 1;
        }
        proof {
            assert(held@.take(held@.len() as int) == held@);
        }
    }

    /// Scores the round: afterwards the steps hold every change to chips
    /// and mult, in order. Nothing happens where no card was played.
    pub fn score(&mut self) -> (done: GameResult<()>)
        ensures
            done is Ok,
            final(self)@ == scored(old(self)@),
    {
        if self.round.cards_played.len() == 0 {
            return Ok(());
        }
        let held = all_cards(&self.round.cards_held_in_hand);
        self.prepare();
        self.name_hand();
        self.score_cards();
        self.score_held(&held);
        let stand_in = placeholder();
        let _ = process_jokers(self, &stand_in);
        Ok(())
    }
}

} // verus!

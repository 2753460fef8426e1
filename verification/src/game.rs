//! The state of one scoring and the steps that scoring goes through. A
//! score is a number of chips times a mult; the state records every change
//! to the two, in order, with its reason.

use crate::cards::{Card, Joker, JokerCard, PokerHand, Round};
use vstd::prelude::*;

verus! {

/// What the mult is multiplied by.
#[derive(Clone, Copy, Debug, PartialEq, Eq, Structural)]
pub enum Factor {
    /// Half again: three halves.
    OneAndHalf,
    Double,
    Triple,
}

/// What a joker does that changes neither chips nor mult.
#[derive(Clone, Copy, Debug, PartialEq, Eq, Structural)]
pub enum Note {
    /// Flushes and straights can be made with four cards.
    FourCardHands,
    /// Straights can be made with gaps of one rank.
    GapStraights,
    /// The abilities of cards held in hand act once more.
    RetriggerHeld,
    /// Every card counts as a face card.
    AllFaces,
    /// Every played card scores.
    AllScore,
    /// Scoring face cards act once more.
    RetriggerFaces,
    /// Suits of one colour count as the same suit.
    SmearedSuits,
    /// The ability of the named joker was copied.
    Copies(Joker),
    /// The ability of the named joker will be copied for each scoring card.
    WillCopyScored(Joker),
    /// The ability of the named joker will be copied for each card held.
    WillCopyHeld(Joker),
    /// There was no joker whose ability could be copied.
    NothingToCopy,
}

/// One change to the chips and the mult.
#[derive(Clone, Copy, Debug, PartialEq, Eq, Structural)]
pub enum Change {
    /// The chips and the mult that the hand starts from.
    Start(u32, u32),
    AddChips(u128),
    AddMult(u128),
    TimesMult(Factor),
    /// No change: a remark.
    Note(Note),
}

/// Why a change was made.
#[derive(Clone, Copy, Debug, PartialEq, Eq, Structural)]
pub enum Reason {
    /// The hand that the cards played make.
    Hand(PokerHand),
    /// A card scored its rank.
    Scored(Card),
    /// A card scored its rank once more.
    Retriggered(Card),
    /// The enhancement of a scoring card.
    Enhanced(Card),
    /// The edition of a scoring card.
    CardEdition(Card),
    /// A steel card held in hand.
    Held(Card),
    /// The edition of a joker.
    JokerEdition(JokerCard),
    /// The ability of a joker.
    Joker(JokerCard),
    /// The ability of a joker, set off by a card.
    JokerOnCard(JokerCard, Card),
}

/// One step of scoring.
#[derive(Clone, Copy, Debug, PartialEq, Eq, Structural)]
pub struct ScoreStep {
    pub reason: Reason,
    pub change: Change,
}

/// Everything that scoring keeps track of.
#[derive(Debug)]
pub struct GameState {
    /// The cards and jokers on the table.
    pub round: Round,
    /// The changes to chips and mult so far, in order.
    pub steps: Vec<ScoreStep>,
    /// Whether the steps are to be explained to the player.
    pub explain_enabled: bool,
    /// The cards that score.
    pub scoring_cards: Vec<Card>,
    pub contains_pair: bool,
    pub contains_two_pair: bool,
    pub contains_three_of_a_kind: bool,
    pub contains_straight: bool,
    pub contains_flush: bool,
    pub four_fingers_active: bool,
    pub shortcut_active: bool,
    pub pareidolia_active: bool,
    pub splash_active: bool,
    pub smeared_joker_active: bool,
    /// How often the abilities of the card held are to act again.
    pub mime_retriggers: usize,
    /// How often the scoring face card is to act again.
    pub sock_and_buskin_retriggers: usize,
    /// Whether a face card has had its photograph taken.
    pub first_face_card_processed: bool,
    /// The copies that act on each scoring card: the copying joker and the
    /// joker copied.
    pub blueprint_copied_jokers: Vec<(JokerCard, Joker)>,
    /// The copies that act on each card held in hand.
    pub blueprint_held_jokers: Vec<(JokerCard, Joker)>,
}

/// A [`GameState`] as plain values.
pub ghost struct GameView {
    pub cards_played: Seq<Card>,
    pub cards_held_in_hand: Seq<Card>,
    pub jokers: Seq<JokerCard>,
    pub steps: Seq<ScoreStep>,
    pub explain_enabled: bool,
    pub scoring_cards: Seq<Card>,
    pub contains_pair: bool,
    pub contains_two_pair: bool,
    pub contains_three_of_a_kind: bool,
    pub contains_straight: bool,
    pub contains_flush: bool,
    pub four_fingers_active: bool,
    pub shortcut_active: bool,
    pub pareidolia_active: bool,
    pub splash_active: bool,
    pub smeared_joker_active: bool,
    pub mime_retriggers: usize,
    pub sock_and_buskin_retriggers: usize,
    pub first_face_card_processed: bool,
    pub blueprint_copied_jokers: Seq<(JokerCard, Joker)>,
    pub blueprint_held_jokers: Seq<(JokerCard, Joker)>,
}

impl View for GameState {
    type V = GameView;

    open spec fn view(&self) -> GameView {
        GameView {
            cards_played: self.round.cards_played@,
            cards_held_in_hand: self.round.cards_held_in_hand@,
            jokers: self.round.jokers@,
            steps: self.steps@,
            explain_enabled: self.explain_enabled,
            scoring_cards: self.scoring_cards@,
            contains_pair: self.contains_pair,
            contains_two_pair: self.contains_two_pair,
            contains_three_of_a_kind: self.contains_three_of_a_kind,
            contains_straight: self.contains_straight,
            contains_flush: self.contains_flush,
            four_fingers_active: self.four_fingers_active,
            shortcut_active: self.shortcut_active,
            pareidolia_active: self.pareidolia_active,
            splash_active: self.splash_active,
            smeared_joker_active: self.smeared_joker_active,
            mime_retriggers: self.mime_retriggers,
            sock_and_buskin_retriggers: self.sock_and_buskin_retriggers,
            first_face_card_processed: self.first_face_card_processed,
            blueprint_copied_jokers: self.blueprint_copied_jokers@,
            blueprint_held_jokers: self.blueprint_held_jokers@,
        }
    }
}

impl GameView {
    /// The state with one more step.
    pub open spec fn with_step(self, reason: Reason, change: Change) -> GameView {
        GameView { steps: self.steps.push(ScoreStep { reason, change }), ..self }
    }
}

/// The count after one more, as long as there is room for it.
pub open spec fn one_more(count: usize) -> usize {
    if count < usize::MAX {
        (count + 1) as usize
    } else {
        count
    }
}

impl GameState {
    /// The state at the start of scoring: nothing analysed, nothing scored.
    pub fn new(round: Round, explain: bool) -> (state: GameState)
        ensures
            state@ == (GameView {
                cards_played: round.cards_played@,
                cards_held_in_hand: round.cards_held_in_hand@,
                jokers: round.jokers@,
                steps: Seq::empty(),
                explain_enabled: explain,
                scoring_cards: Seq::empty(),
                contains_pair: false,
                contains_two_pair: false,
                contains_three_of_a_kind: false,
                contains_straight: false,
                contains_flush: false,
                four_fingers_active: false,
                shortcut_active: false,
                pareidolia_active: false,
                splash_active: false,
                smeared_joker_active: false,
                mime_retriggers: 0,
                sock_and_buskin_retriggers: 0,
                first_face_card_processed: false,
                blueprint_copied_jokers: Seq::empty(),
                blueprint_held_jokers: Seq::empty(),
            }),
    {
        GameState {
            round,
            steps: Vec::new(),
            explain_enabled: explain,
            scoring_cards: Vec::new(),
            contains_pair: false,
            contains_two_pair: false,
            contains_three_of_a_kind: false,
            contains_straight: false,
            contains_flush: false,
            four_fingers_active: false,
            shortcut_active: false,
            pareidolia_active: false,
            splash_active: false,
            smeared_joker_active: false,
            mime_retriggers: 0,
            sock_and_buskin_retriggers: 0,
            first_face_card_processed: false,
            blueprint_copied_jokers: Vec::new(),
            blueprint_held_jokers: Vec::new(),
        }
    }

    /// Records one more step.
    pub fn record(&mut self, reason: Reason, change: Change)
        ensures
            final(self)@ == old(self)@.with_step(reason, change),
    {
        self.steps.push(ScoreStep { reason, change });
    }
}

} // verus!

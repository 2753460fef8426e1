//! Playing cards, jokers and poker hands, with the numbers that scoring
//! rests on.

use vstd::prelude::*;

verus! {

/// The rank of a card, from the two up to the ace.
#[derive(Clone, Copy, Debug, PartialEq, Eq, Structural, Hash)]
pub enum Rank {
    Two,
    Three,
    Four,
    Five,
    Six,
    Seven,
    Eight,
    Nine,
    Ten,
    Jack,
    Queen,
    King,
    Ace,
}

impl Rank {
    /// The place of the rank in the order of ranks: 0 for the two, 12 for
    /// the ace.
    pub open spec fn spec_ordinal(self) -> u8 {
        match self {
            Rank::Two => 0,
            Rank::Three => 1,
            Rank::Four => 2,
            Rank::Five => 3,
            Rank::Six => 4,
            Rank::Seven => 5,
            Rank::Eight => 6,
            Rank::Nine => 7,
            Rank::Ten => 8,
            Rank::Jack => 9,
            Rank::Queen => 10,
            Rank::King => 11,
            Rank::Ace => 12,
        }
    }

    /// The place of the rank in the order of ranks.
    #[verifier::when_used_as_spec(spec_ordinal)]
    pub fn ordinal(self) -> (place: u8)
        ensures
            place == self.spec_ordinal(),
            place <= 12,
    {
        match self {
            Rank::Two => 0,
            Rank::Three => 1,
            Rank::Four => 2,
            Rank::Five => 3,
            Rank::Six => 4,
            Rank::Seven => 5,
            Rank::Eight => 6,
            Rank::Nine => 7,
            Rank::Ten => 8,
            Rank::Jack => 9,
            Rank::Queen => 10,
            Rank::King => 11,
            Rank::Ace => 12,
        }
    }

    /// The rank at a place of the order; the ace for every place from 12 on.
    pub open spec fn spec_at(place: u8) -> Rank {
        if place == 0 {
            Rank::Two
        } else if place == 1 {
            Rank::Three
        } else if place == 2 {
            Rank::Four
        } else if place == 3 {
            Rank::Five
        } else if place == 4 {
            Rank::Six
        } else if place == 5 {
            Rank::Seven
        } else if place == 6 {
            Rank::Eight
        } else if place == 7 {
            Rank::Nine
        } else if place == 8 {
            Rank::Ten
        } else if place == 9 {
            Rank::Jack
        } else if place == 10 {
            Rank::Queen
        } else if place == 11 {
            Rank::King
        } else {
            Rank::Ace
        }
    }

    /// The rank at a place of the order; the ace for every place from 12 on.
    #[verifier::when_used_as_spec(spec_at)]
    pub fn at(place: u8) -> (rank: Rank)
        ensures
            rank == Rank::spec_at(place),
            place <= 12 ==> rank.spec_ordinal() == place,
    {
        if place == 0 {
            Rank::Two
        } else if place == 1 {
            Rank::Three
        } else if place == 2 {
            Rank::Four
        } else if place == 3 {
            Rank::Five
        } else if place == 4 {
            Rank::Six
        } else if place == 5 {
            Rank::Seven
        } else if place == 6 {
            Rank::Eight
        } else if place == 7 {
            Rank::Nine
        } else if place == 8 {
            Rank::Ten
        } else if place == 9 {
            Rank::Jack
        } else if place == 10 {
            Rank::Queen
        } else if place == 11 {
            Rank::King
        } else {
            Rank::Ace
        }
    }

    /// The chips that a card of this rank scores: its number for the two to
    /// the ten, 10 for a face card, 11 for the ace.
    pub open spec fn spec_rank_value(&self) -> u32 {
        match self {
            Rank::Two => 2,
            Rank::Three => 3,
            Rank::Four => 4,
            Rank::Five => 5,
            Rank::Six => 6,
            Rank::Seven => 7,
            Rank::Eight => 8,
            Rank::Nine => 9,
            Rank::Ten => 10,
            Rank::Jack => 10,
            Rank::Queen => 10,
            Rank::King => 10,
            Rank::Ace => 11,
        }
    }

    /// The chips that a card of this rank scores.
    #[verifier::when_used_as_spec(spec_rank_value)]
    pub fn rank_value(&self) -> (chips: u32)
        ensures
            chips == self.spec_rank_value(),
            2 <= chips <= 11,
    {
        match self {
            Rank::Two => 2,
            Rank::Three => 3,
            Rank::Four => 4,
            Rank::Five => 5,
            Rank::Six => 6,
            Rank::Seven => 7,
            Rank::Eight => 8,
            Rank::Nine => 9,
            Rank::Ten => 10,
            Rank::Jack => 10,
            Rank::Queen => 10,
            Rank::King => 10,
            Rank::Ace => 11,
        }
    }

    /// True for the jack, the queen and the king.
    pub open spec fn spec_is_face(&self) -> bool {
        *self == Rank::Jack || *self == Rank::Queen || *self == Rank::King
    }

    /// True for the jack, the queen and the king.
    #[verifier::when_used_as_spec(spec_is_face)]
    pub fn is_face(&self) -> (face: bool)
        ensures
            face == self.spec_is_face(),
    {
        match self {
            Rank::Jack => true,
            Rank::Queen => true,
            Rank::King => true,
            _ => false,
        }
    }

    /// The rank one above this one; none above the ace.
    pub open spec fn spec_next(&self) -> Option<Rank> {
        if *self == Rank::Ace {
            None
        } else {
            Some(Rank::spec_at((self.spec_ordinal() + 1) as u8))
        }
    }

    /// The rank one above this one; none above the ace.
    #[verifier::when_used_as_spec(spec_next)]
    pub fn next(&self) -> (above: Option<Rank>)
        ensures
            above == self.spec_next(),
    {
        let place = self.ordinal();
        if place >= 12 {
            None
        } else {
            Some(Rank::at(place + 1))
        }
    }
}

/// The suit of a card.
#[derive(Clone, Copy, Debug, PartialEq, Eq, Structural, Hash)]
pub enum Suit {
    Spades,
    Hearts,
    Clubs,
    Diamonds,
}

impl Suit {
    /// The place of the suit in the order of suits.
    pub open spec fn spec_ordinal(self) -> u8 {
        match self {
            Suit::Spades => 0,
            Suit::Hearts => 1,
            Suit::Clubs => 2,
            Suit::Diamonds => 3,
        }
    }

    /// The place of the suit in the order of suits.
    #[verifier::when_used_as_spec(spec_ordinal)]
    pub fn ordinal(self) -> (place: u8)
        ensures
            place == self.spec_ordinal(),
            place <= 3,
    {
        match self {
            Suit::Spades => 0,
            Suit::Hearts => 1,
            Suit::Clubs => 2,
            Suit::Diamonds => 3,
        }
    }

    /// True for hearts and diamonds.
    pub open spec fn spec_is_red(&self) -> bool {
        *self == Suit::Hearts || *self == Suit::Diamonds
    }

    /// True for hearts and diamonds.
    #[verifier::when_used_as_spec(spec_is_red)]
    pub fn is_red(&self) -> (red: bool)
        ensures
            red == self.spec_is_red(),
    {
        match self {
            Suit::Hearts => true,
            Suit::Diamonds => true,
            _ => false,
        }
    }

    /// The other suit of the same colour.
    pub open spec fn spec_other_suit_of_same_color(&self) -> Suit {
        match self {
            Suit::Spades => Suit::Clubs,
            Suit::Hearts => Suit::Diamonds,
            Suit::Clubs => Suit::Spades,
            Suit::Diamonds => Suit::Hearts,
        }
    }

    /// The other suit of the same colour.
    #[verifier::when_used_as_spec(spec_other_suit_of_same_color)]
    pub fn other_suit_of_same_color(&self) -> (other: Suit)
        ensures
            other == self.spec_other_suit_of_same_color(),
    {
        match self {
            Suit::Spades => Suit::Clubs,
            Suit::Hearts => Suit::Diamonds,
            Suit::Clubs => Suit::Spades,
            Suit::Diamonds => Suit::Hearts,
        }
    }
}

/// What a card has been enhanced with.
#[derive(Clone, Copy, Debug, PartialEq, Eq, Structural, Hash)]
pub enum Enhancement {
    /// 30 chips more when scored.
    Bonus,
    /// 4 mult more when scored.
    Mult,
    /// Counts as a card of every suit.
    Wild,
    /// Doubles the mult when scored.
    Glass,
    /// Half the mult again while held in hand.
    Steel,
}

/// The edition of a card or of a joker.
#[derive(Clone, Copy, Debug, PartialEq, Eq, Structural, Hash)]
pub enum Edition {
    /// 50 chips more.
    Foil,
    /// 10 mult more.
    Holographic,
    /// Half the mult again.
    Polychrome,
}

/// One card. Two cards are the same card when they agree in everything,
/// `id` included: the cards of one round carry ids of their own.
#[derive(Clone, Copy, Debug, PartialEq, Eq, Structural, Hash)]
pub struct Card {
    pub rank: Rank,
    pub suit: Suit,
    pub enhancement: Option<Enhancement>,
    pub edition: Option<Edition>,
    pub id: usize,
}

impl Card {
    pub fn new(
        rank: Rank,
        suit: Suit,
        enhancement: Option<Enhancement>,
        edition: Option<Edition>,
        id: usize,
    ) -> (card: Card)
        ensures
            card == (Card { rank, suit, enhancement, edition, id }),
    {
        Card { rank, suit, enhancement, edition, id }
    }

    /// True when the card counts as a card of every suit.
    pub open spec fn spec_is_wild(&self) -> bool {
        self.enhancement == Some(Enhancement::Wild)
    }

    /// True when the card counts as a card of every suit.
    #[verifier::when_used_as_spec(spec_is_wild)]
    pub fn is_wild(&self) -> (wild: bool)
        ensures
            wild == self.spec_is_wild(),
    {
        match self.enhancement {
            Some(Enhancement::Wild) => true,
            _ => false,
        }
    }

    /// True when the card is made of steel.
    pub open spec fn spec_is_steel(&self) -> bool {
        self.enhancement == Some(Enhancement::Steel)
    }

    /// True when the card is made of steel.
    #[verifier::when_used_as_spec(spec_is_steel)]
    pub fn is_steel(&self) -> (steel: bool)
        ensures
            steel == self.spec_is_steel(),
    {
        match self.enhancement {
            Some(Enhancement::Steel) => true,
            _ => false,
        }
    }
}

/// The jokers that take part in scoring.
#[derive(Clone, Copy, Debug, PartialEq, Eq, Structural, Hash)]
pub enum Joker {
    Joker,
    JollyJoker,
    ZanyJoker,
    MadJoker,
    CrazyJoker,
    DrollJoker,
    SlyJoker,
    WilyJoker,
    CleverJoker,
    DeviousJoker,
    CraftyJoker,
    AbstractJoker,
    RaisedFist,
    Blackboard,
    Baron,
    GreedyJoker,
    LustyJoker,
    WrathfulJoker,
    GluttonousJoker,
    Fibonacci,
    ScaryFace,
    EvenSteven,
    OddTodd,
    Photograph,
    SmileyFace,
    FlowerPot,
    FourFingers,
    Shortcut,
    Mime,
    Pareidolia,
    Splash,
    SockAndBuskin,
    SmearedJoker,
    Blueprint,
}

/// One joker in the row of jokers. Two joker cards are the same when they
/// agree in everything, `id` included.
#[derive(Clone, Copy, Debug, PartialEq, Eq, Structural, Hash)]
pub struct JokerCard {
    pub joker: Joker,
    pub edition: Option<Edition>,
    pub id: usize,
}

impl JokerCard {
    pub fn new(joker: Joker, edition: Option<Edition>, id: usize) -> (card: JokerCard)
        ensures
            card == (JokerCard { joker, edition, id }),
    {
        JokerCard { joker, edition, id }
    }
}

/// The hands of poker, the weakest first.
#[derive(Clone, Copy, Debug, PartialEq, Eq, Structural, Hash)]
pub enum PokerHand {
    HighCard,
    Pair,
    TwoPair,
    ThreeOfAKind,
    Straight,
    Flush,
    FullHouse,
    FourOfAKind,
    StraightFlush,
    FiveOfAKind,
    FlushHouse,
    FlushFive,
}

impl PokerHand {
    /// The chips and the mult that a hand starts from.
    pub open spec fn spec_hand_value(&self) -> (u32, u32) {
        match self {
            PokerHand::HighCard => (5, 1),
            PokerHand::Pair => (10, 2),
            PokerHand::TwoPair => (20, 2),
            PokerHand::ThreeOfAKind => (30, 3),
            PokerHand::Straight => (30, 4),
            PokerHand::Flush => (35, 4),
            PokerHand::FullHouse => (40, 4),
            PokerHand::FourOfAKind => (60, 7),
            PokerHand::StraightFlush => (100, 8),
            PokerHand::FiveOfAKind => (120, 12),
            PokerHand::FlushHouse => (140, 14),
            PokerHand::FlushFive => (160, 16),
        }
    }

    /// The chips and the mult that a hand starts from.
    #[verifier::when_used_as_spec(spec_hand_value)]
    pub fn hand_value(&self) -> (value: (u32, u32))
        ensures
            value == self.spec_hand_value(),
    {
        match self {
            PokerHand::HighCard => (5, 1),
            PokerHand::Pair => (10, 2),
            PokerHand::TwoPair => (20, 2),
            PokerHand::ThreeOfAKind => (30, 3),
            PokerHand::Straight => (30, 4),
            PokerHand::Flush => (35, 4),
            PokerHand::FullHouse => (40, 4),
            PokerHand::FourOfAKind => (60, 7),
            PokerHand::StraightFlush => (100, 8),
            PokerHand::FiveOfAKind => (120, 12),
            PokerHand::FlushHouse => (140, 14),
            PokerHand::FlushFive => (160, 16),
        }
    }
}

impl Suit {
    /// The suit at a place of the order of suits; diamonds for every place from 3 on.
    pub open spec fn spec_at(place: u8) -> Suit {
        if place == 0 {
            Suit::Spades
        } else if place == 1 {
            Suit::Hearts
        } else if place == 2 {
            Suit::Clubs
        } else {
            Suit::Diamonds
        }
    }

    /// The suit at a place of the order of suits; diamonds for every place from 3 on.
    #[verifier::when_used_as_spec(spec_at)]
    pub fn at(place: u8) -> (found: Suit)
        ensures
            found == Suit::spec_at(place),
    {
        if place == 0 {
            Suit::Spades
        } else if place == 1 {
            Suit::Hearts
        } else if place == 2 {
            Suit::Clubs
        } else {
            Suit::Diamonds
        }
    }
}

impl Enhancement {
    /// The enhancement at a place of their order; steel for every place from 4 on.
    pub open spec fn spec_at(place: u8) -> Enhancement {
        if place == 0 {
            Enhancement::Bonus
        } else if place == 1 {
            Enhancement::Mult
        } else if place == 2 {
            Enhancement::Wild
        } else if place == 3 {
            Enhancement::Glass
        } else {
            Enhancement::Steel
        }
    }

    /// The enhancement at a place of their order; steel for every place from 4 on.
    #[verifier::when_used_as_spec(spec_at)]
    pub fn at(place: u8) -> (found: Enhancement)
        ensures
            found == Enhancement::spec_at(place),
    {
        if place == 0 {
            Enhancement::Bonus
        } else if place == 1 {
            Enhancement::Mult
        } else if place == 2 {
            Enhancement::Wild
        } else if place == 3 {
            Enhancement::Glass
        } else {
            Enhancement::Steel
        }
    }
}

impl Edition {
    /// The edition at a place of their order; polychrome for every place from 2 on.
    pub open spec fn spec_at(place: u8) -> Edition {
        if place == 0 {
            Edition::Foil
        } else if place == 1 {
            Edition::Holographic
        } else {
            Edition::Polychrome
        }
    }

    /// The edition at a place of their order; polychrome for every place from 2 on.
    #[verifier::when_used_as_spec(spec_at)]
    pub fn at(place: u8) -> (found: Edition)
        ensures
            found == Edition::spec_at(place),
    {
        if place == 0 {
            Edition::Foil
        } else if place == 1 {
            Edition::Holographic
        } else {
            Edition::Polychrome
        }
    }
}

impl Joker {
    /// The joker at a place of their order; the blueprint for every place from 33 on.
    pub open spec fn spec_at(place: u8) -> Joker {
        if place == 0 {
            Joker::Joker
        } else if place == 1 {
            Joker::JollyJoker
        } else if place == 2 {
            Joker::ZanyJoker
        } else if place == 3 {
            Joker::MadJoker
        } else if place == 4 {
            Joker::CrazyJoker
        } else if place == 5 {
            Joker::DrollJoker
        } else if place == 6 {
            Joker::SlyJoker
        } else if place == 7 {
            Joker::WilyJoker
        } else if place == 8 {
            Joker::CleverJoker
        } else if place == 9 {
            Joker::DeviousJoker
        } else if place == 10 {
            Joker::CraftyJoker
        } else if place == 11 {
            Joker::AbstractJoker
        } else if place == 12 {
            Joker::RaisedFist
        } else if place == 13 {
            Joker::Blackboard
        } else if place == 14 {
            Joker::Baron
        } else if place == 15 {
            Joker::GreedyJoker
        } else if place == 16 {
            Joker::LustyJoker
        } else if place == 17 {
            Joker::WrathfulJoker
        } else if place == 18 {
            Joker::GluttonousJoker
        } else if place == 19 {
            Joker::Fibonacci
        } else if place == 20 {
            Joker::ScaryFace
        } else if place == 21 {
            Joker::EvenSteven
        } else if place == 22 {
            Joker::OddTodd
        } else if place == 23 {
            Joker::Photograph
        } else if place == 24 {
            Joker::SmileyFace
        } else if place == 25 {
            Joker::FlowerPot
        } else if place == 26 {
            Joker::FourFingers
        } else if place == 27 {
            Joker::Shortcut
        } else if place == 28 {
            Joker::Mime
        } else if place == 29 {
            Joker::Pareidolia
        } else if place == 30 {
            Joker::Splash
        } else if place == 31 {
            Joker::SockAndBuskin
        } else if place == 32 {
            Joker::SmearedJoker
        } else {
            Joker::Blueprint
        }
    }

    /// The joker at a place of their order; the blueprint for every place from 33 on.
    #[verifier::when_used_as_spec(spec_at)]
    pub fn at(place: u8) -> (found: Joker)
        ensures
            found == Joker::spec_at(place),
    {
        if place == 0 {
            Joker::Joker
        } else if place == 1 {
            Joker::JollyJoker
        } else if place == 2 {
            Joker::ZanyJoker
        } else if place == 3 {
            Joker::MadJoker
        } else if place == 4 {
            Joker::CrazyJoker
        } else if place == 5 {
            Joker::DrollJoker
        } else if place == 6 {
            Joker::SlyJoker
        } else if place == 7 {
            Joker::WilyJoker
        } else if place == 8 {
            Joker::CleverJoker
        } else if place == 9 {
            Joker::DeviousJoker
        } else if place == 10 {
            Joker::CraftyJoker
        } else if place == 11 {
            Joker::AbstractJoker
        } else if place == 12 {
            Joker::RaisedFist
        } else if place == 13 {
            Joker::Blackboard
        } else if place == 14 {
            Joker::Baron
        } else if place == 15 {
            Joker::GreedyJoker
        } else if place == 16 {
            Joker::LustyJoker
        } else if place == 17 {
            Joker::WrathfulJoker
        } else if place == 18 {
            Joker::GluttonousJoker
        } else if place == 19 {
            Joker::Fibonacci
        } else if place == 20 {
            Joker::ScaryFace
        } else if place == 21 {
            Joker::EvenSteven
        } else if place == 22 {
            Joker::OddTodd
        } else if place == 23 {
            Joker::Photograph
        } else if place == 24 {
            Joker::SmileyFace
        } else if place == 25 {
            Joker::FlowerPot
        } else if place == 26 {
            Joker::FourFingers
        } else if place == 27 {
            Joker::Shortcut
        } else if place == 28 {
            Joker::Mime
        } else if place == 29 {
            Joker::Pareidolia
        } else if place == 30 {
            Joker::Splash
        } else if place == 31 {
            Joker::SockAndBuskin
        } else if place == 32 {
            Joker::SmearedJoker
        } else {
            Joker::Blueprint
        }
    }
}

/// What is on the table when a hand is scored.
#[derive(Debug)]
pub struct Round {
    pub cards_played: Vec<Card>,
    pub cards_held_in_hand: Vec<Card>,
    pub jokers: Vec<JokerCard>,
}

} // verus!

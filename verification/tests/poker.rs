use rsheet::cards::{Card, Edition, Enhancement, Joker, JokerCard, PokerHand, Rank, Round, Suit};
use rsheet::errors::GameError;
use rsheet::game::{Change, Factor, GameState, Note, Reason, ScoreStep};
use rsheet::jokers::complex::{follow_blueprint_chain, Blueprint};
use rsheet::jokers::medium::{has_all_suits, is_all_black};
use rsheet::jokers::{
    activation_type_of, apply_joker_edition, create_joker_effect, joker_can_apply, ActivationType,
    JokerEffect,
};
use rsheet::poker::{
    analyse_hand_conditions, find_four_card_flush, find_four_card_shortcut_straight,
    find_four_card_straight, find_shortcut_straight_cards, get_scoring_cards, group_rank,
    has_four_card_flush, has_four_card_shortcut_straight, has_four_card_straight,
    has_shortcut_straight, has_three_two_pattern, identify_hand, is_flush, is_straight,
};
use rsheet::sorting::{drop_repeats, sort};

fn cards(list: &[(Rank, Suit)]) -> Vec<Card> {
    let mut out = Vec::new();
    for (i, (rank, suit)) in list.iter().enumerate() {
        out.push(Card::new(*rank, *suit, None, None, i));
    }
    out
}

fn ranks(list: &Vec<Card>) -> Vec<Rank> {
    list.iter().map(|card| card.rank).collect()
}

fn hand(list: &Vec<Card>, four: bool, shortcut: bool, smeared: bool) -> PokerHand {
    identify_hand(list, four, shortcut, smeared).unwrap()
}

fn jokers(list: &[Joker]) -> Vec<JokerCard> {
    let mut out = Vec::new();
    for (i, joker) in list.iter().enumerate() {
        out.push(JokerCard::new(*joker, None, 100 + i));
    }
    out
}

fn total(steps: &Vec<ScoreStep>) -> (f64, f64) {
    let mut chips = 0.0;
    let mut mult = 0.0;
    for step in steps {
        match step.change {
            Change::Start(c, m) => {
                chips = c as f64;
                mult = m as f64;
            }
            Change::AddChips(n) => chips += n as f64,
            Change::AddMult(n) => mult += n as f64,
            Change::TimesMult(Factor::OneAndHalf) => mult *= 1.5,
            Change::TimesMult(Factor::Double) => mult *= 2.0,
            Change::TimesMult(Factor::Triple) => mult *= 3.0,
            Change::Note(_) => {}
        }
    }
    (chips, mult)
}

fn score(played: Vec<Card>, held: Vec<Card>, row: Vec<JokerCard>) -> (f64, f64) {
    let round = Round { cards_played: played, cards_held_in_hand: held, jokers: row };
    let mut state = GameState::new(round, false);
    assert!(state.score().is_ok());
    total(&state.steps)
}

use Rank::{Ace, Eight, Five, Four, Jack, King, Nine, Queen, Seven, Six, Ten, Three, Two};
use Suit::{Clubs, Diamonds, Hearts, Spades};

#[test]
fn sorting_orders_and_drops_repeats() {
    assert_eq!(sort(&vec![3, 1, 2, 1, 12, 0]), vec![0, 1, 1, 2, 3, 12]);
    assert_eq!(sort(&Vec::new()), Vec::<i32>::new());
    assert_eq!(drop_repeats(&vec![0, 1, 1, 2, 2, 2, 1]), vec![0, 1, 2, 1]);
}

#[test]
fn ranks_have_their_chips_and_order() {
    assert_eq!(Two.rank_value(), 2);
    assert_eq!(Nine.rank_value(), 9);
    assert_eq!(Ten.rank_value(), 10);
    assert_eq!(Jack.rank_value(), 10);
    assert_eq!(King.rank_value(), 10);
    assert_eq!(Ace.rank_value(), 11);
    assert!(Queen.is_face());
    assert!(!Ten.is_face());
    assert!(!Ace.is_face());
    assert_eq!(Two.next(), Some(Three));
    assert_eq!(King.next(), Some(Ace));
    assert_eq!(Ace.next(), None);
    assert_eq!(Rank::at(Seven.ordinal()), Seven);
    assert_eq!(Spades.other_suit_of_same_color(), Clubs);
    assert_eq!(Hearts.other_suit_of_same_color(), Diamonds);
    assert_eq!(PokerHand::HighCard.hand_value(), (5, 1));
    assert_eq!(PokerHand::FullHouse.hand_value(), (40, 4));
    assert_eq!(PokerHand::FlushFive.hand_value(), (160, 16));
}

#[test]
fn cards_are_counted_by_rank() {
    let list = cards(&[(Ten, Hearts), (Two, Spades), (Ten, Clubs), (Ten, Diamonds)]);
    assert_eq!(group_rank(&list), vec![(Ten, 3), (Two, 1)]);
}

#[test]
fn hands_are_named() {
    assert_eq!(hand(&cards(&[]), false, false, false), PokerHand::HighCard);
    assert_eq!(hand(&cards(&[(Ace, Spades)]), false, false, false), PokerHand::HighCard);
    assert_eq!(
        hand(&cards(&[(Ace, Spades), (King, Hearts)]), false, false, false),
        PokerHand::HighCard
    );
    assert_eq!(hand(&cards(&[(Ace, Spades), (Ace, Hearts)]), false, false, false), PokerHand::Pair);
    assert_eq!(
        hand(
            &cards(&[(Ace, Spades), (Ace, Hearts), (Two, Hearts), (Two, Clubs), (Nine, Clubs)]),
            false,
            false,
            false
        ),
        PokerHand::TwoPair
    );
    assert_eq!(
        hand(&cards(&[(Six, Spades), (Six, Hearts), (Six, Clubs)]), false, false, false),
        PokerHand::ThreeOfAKind
    );
    assert_eq!(
        hand(
            &cards(&[(Five, Spades), (Six, Hearts), (Seven, Clubs), (Eight, Clubs), (Nine, Hearts)]),
            false,
            false,
            false
        ),
        PokerHand::Straight
    );
    assert_eq!(
        hand(
            &cards(&[(Ace, Spades), (Two, Hearts), (Three, Clubs), (Four, Clubs), (Five, Hearts)]),
            false,
            false,
            false
        ),
        PokerHand::Straight
    );
    assert_eq!(
        hand(
            &cards(&[(Two, Hearts), (Nine, Hearts), (Jack, Hearts), (Four, Hearts), (King, Hearts)]),
            false,
            false,
            false
        ),
        PokerHand::Flush
    );
    assert_eq!(
        hand(
            &cards(&[(Two, Hearts), (Two, Spades), (Jack, Hearts), (Jack, Clubs), (Jack, Spades)]),
            false,
            false,
            false
        ),
        PokerHand::FullHouse
    );
    assert_eq!(
        hand(
            &cards(&[(Two, Hearts), (Two, Spades), (Two, Clubs), (Two, Diamonds), (Jack, Spades)]),
            false,
            false,
            false
        ),
        PokerHand::FourOfAKind
    );
    assert_eq!(
        hand(
            &cards(&[(Ten, Hearts), (Jack, Hearts), (Queen, Hearts), (King, Hearts), (Ace, Hearts)]),
            false,
            false,
            false
        ),
        PokerHand::StraightFlush
    );
    assert_eq!(
        hand(
            &cards(&[(Ten, Hearts), (Ten, Spades), (Ten, Clubs), (Ten, Diamonds), (Ten, Hearts)]),
            false,
            false,
            false
        ),
        PokerHand::FiveOfAKind
    );
    assert_eq!(
        hand(
            &cards(&[(Two, Hearts), (Two, Hearts), (Jack, Hearts), (Jack, Hearts), (Jack, Hearts)]),
            false,
            false,
            false
        ),
        PokerHand::FlushHouse
    );
    assert_eq!(
        hand(
            &cards(&[(Ten, Hearts), (Ten, Hearts), (Ten, Hearts), (Ten, Hearts), (Ten, Hearts)]),
            false,
            false,
            false
        ),
        PokerHand::FlushFive
    );
}

#[test]
fn jokers_bend_the_rules_of_hands() {
    let four_flush = cards(&[(Two, Hearts), (Nine, Hearts), (Jack, Hearts), (Four, Hearts), (King, Spades)]);
    assert_eq!(hand(&four_flush, false, false, false), PokerHand::HighCard);
    assert_eq!(hand(&four_flush, true, false, false), PokerHand::Flush);
    assert!(!is_flush(&four_flush, false));
    assert!(has_four_card_flush(&four_flush, false));

    let smeared = cards(&[(Two, Hearts), (Nine, Diamonds), (Jack, Hearts), (Four, Diamonds), (King, Hearts)]);
    assert_eq!(hand(&smeared, false, false, false), PokerHand::HighCard);
    assert_eq!(hand(&smeared, false, false, true), PokerHand::Flush);

    let gaps = cards(&[(Two, Hearts), (Four, Spades), (Five, Hearts), (Seven, Clubs), (Eight, Hearts)]);
    assert!(!is_straight(&gaps));
    assert!(has_shortcut_straight(&gaps));
    assert_eq!(hand(&gaps, false, false, false), PokerHand::HighCard);
    assert_eq!(hand(&gaps, false, true, false), PokerHand::Straight);

    let four_run = cards(&[(Two, Hearts), (Three, Spades), (Four, Hearts), (Five, Clubs), (King, Hearts)]);
    assert!(has_four_card_straight(&four_run));
    assert_eq!(hand(&four_run, true, false, false), PokerHand::Straight);
    assert_eq!(hand(&four_run, false, false, false), PokerHand::HighCard);

    let four_gaps = cards(&[(Two, Hearts), (Four, Spades), (Five, Hearts), (Six, Clubs), (King, Hearts)]);
    assert!(has_four_card_shortcut_straight(&four_gaps));
    assert!(!has_four_card_straight(&four_gaps));
    assert_eq!(hand(&four_gaps, true, true, false), PokerHand::Straight);

    let mut wild = cards(&[(Two, Hearts), (Nine, Hearts), (Jack, Hearts), (Four, Hearts), (King, Spades)]);
    wild[4].enhancement = Some(Enhancement::Wild);
    assert!(is_flush(&wild, false));

    let house = cards(&[(Two, Hearts), (Two, Spades), (Jack, Hearts), (Jack, Clubs), (Jack, Spades)]);
    assert!(has_three_two_pattern(&house));
    assert!(!has_three_two_pattern(&four_run));
}

#[test]
fn conditions_are_analysed() {
    let list = cards(&[(Two, Hearts), (Two, Spades), (Jack, Hearts), (Jack, Clubs), (Jack, Spades)]);
    let conditions = analyse_hand_conditions(&list, false, false, false).unwrap();
    assert!(conditions.contains_pair);
    assert!(conditions.contains_two_pair);
    assert!(conditions.contains_three_of_a_kind);
    assert!(!conditions.contains_straight);
    assert!(!conditions.contains_flush);
    let lone = analyse_hand_conditions(&cards(&[(Two, Hearts)]), true, true, true).unwrap();
    assert!(!lone.contains_pair && !lone.contains_two_pair && !lone.contains_three_of_a_kind);
}

#[test]
fn the_scoring_cards_are_chosen() {
    let high = cards(&[(Two, Hearts), (King, Spades), (Five, Hearts), (King, Clubs)]);
    let scoring = get_scoring_cards(&PokerHand::HighCard, &high, false, false, false);
    assert_eq!(scoring, vec![high[1]]);

    let pair = cards(&[(Two, Hearts), (King, Spades), (Five, Hearts), (King, Clubs)]);
    assert_eq!(
        get_scoring_cards(&PokerHand::Pair, &pair, false, false, false),
        vec![pair[1], pair[3]]
    );

    let two_pair = cards(&[(Two, Hearts), (King, Spades), (Two, Clubs), (King, Clubs), (Nine, Clubs)]);
    assert_eq!(
        get_scoring_cards(&PokerHand::TwoPair, &two_pair, false, false, false),
        vec![two_pair[0], two_pair[2], two_pair[1], two_pair[3]]
    );

    let three = cards(&[(Two, Hearts), (King, Spades), (Two, Clubs), (Two, Spades)]);
    assert_eq!(
        get_scoring_cards(&PokerHand::ThreeOfAKind, &three, false, false, false),
        vec![three[0], three[2], three[3]]
    );

    let flush = cards(&[(Two, Hearts), (Nine, Hearts), (Jack, Hearts), (Four, Hearts), (King, Spades)]);
    assert_eq!(
        get_scoring_cards(&PokerHand::Flush, &flush, true, false, false),
        vec![flush[0], flush[1], flush[2], flush[3]]
    );
    assert_eq!(find_four_card_flush(&flush, false), vec![flush[0], flush[1], flush[2], flush[3]]);

    let four_run = cards(&[(King, Hearts), (Two, Hearts), (Three, Spades), (Four, Hearts), (Five, Clubs)]);
    assert_eq!(
        ranks(&get_scoring_cards(&PokerHand::Straight, &four_run, true, false, false)),
        vec![Two, Three, Four, Five]
    );
    assert_eq!(ranks(&find_four_card_straight(&four_run)), vec![Two, Three, Four, Five]);

    let gaps = cards(&[(Two, Hearts), (Four, Spades), (Five, Hearts), (Seven, Clubs), (Six, Hearts)]);
    assert_eq!(
        ranks(&find_shortcut_straight_cards(&gaps)),
        vec![Two, Four, Five, Six, Seven]
    );

    let four_gaps = cards(&[(King, Hearts), (Two, Hearts), (Four, Spades), (Five, Hearts), (Six, Clubs)]);
    assert_eq!(
        ranks(&find_four_card_shortcut_straight(&four_gaps)),
        vec![Two, Four, Five, Six]
    );

    let full = cards(&[(Two, Hearts), (Two, Spades), (Jack, Hearts), (Jack, Clubs), (Jack, Spades)]);
    assert_eq!(get_scoring_cards(&PokerHand::FullHouse, &full, false, false, false), full);
}

#[test]
fn a_plain_hand_scores_its_cards() {
    let played = cards(&[(Ten, Hearts), (Jack, Hearts), (Queen, Hearts), (King, Hearts), (Ace, Hearts)]);
    assert_eq!(score(played, Vec::new(), Vec::new()), (151.0, 8.0));
    let pair = cards(&[(Ace, Spades), (Ace, Hearts), (Two, Clubs)]);
    assert_eq!(score(pair, Vec::new(), Vec::new()), (32.0, 2.0));
    assert_eq!(score(Vec::new(), Vec::new(), Vec::new()), (0.0, 0.0));
}

#[test]
fn enhancements_and_editions_score() {
    let mut played = cards(&[(Ace, Spades), (Ace, Hearts)]);
    played[0].enhancement = Some(Enhancement::Bonus);
    played[0].edition = Some(Edition::Holographic);
    played[1].enhancement = Some(Enhancement::Glass);
    played[1].edition = Some(Edition::Polychrome);
    let mut held = cards(&[(King, Spades), (Two, Hearts)]);
    held[0].enhancement = Some(Enhancement::Steel);
    // pair: 10 x 2; ace +11, bonus +30, holo +10 mult; ace +11, glass x2, poly x1.5; steel x1.5
    assert_eq!(score(played, held, Vec::new()), (62.0, 54.0));
}

#[test]
fn jokers_add_their_bonus() {
    let played = cards(&[(Ace, Spades), (Ace, Hearts)]);
    let row = jokers(&[Joker::Joker, Joker::JollyJoker, Joker::ZanyJoker, Joker::SlyJoker, Joker::AbstractJoker]);
    // pair 10 x 2, aces +22; joker +4, jolly +8, zany not, sly +50, abstract +15
    assert_eq!(score(played, Vec::new(), row), (82.0, 29.0));
}

#[test]
fn joker_editions_act_before_and_after() {
    let played = cards(&[(Ace, Spades)]);
    let row = vec![
        JokerCard::new(Joker::Joker, Some(Edition::Polychrome), 1),
        JokerCard::new(Joker::Joker, Some(Edition::Foil), 2),
        JokerCard::new(Joker::Joker, Some(Edition::Holographic), 3),
    ];
    // high card 5 x 1, ace +11; foil +50, holo +10; three jokers +12; polychrome x1.5
    assert_eq!(score(played, Vec::new(), row), (66.0, 34.5));
}

#[test]
fn jokers_watch_the_scoring_cards() {
    let played = cards(&[(King, Diamonds), (King, Hearts)]);
    let row = jokers(&[
        Joker::GreedyJoker,
        Joker::LustyJoker,
        Joker::ScaryFace,
        Joker::SmileyFace,
        Joker::Photograph,
        Joker::EvenSteven,
        Joker::OddTodd,
    ]);
    // pair 10 x 2; K♦ +10, greedy +3, scary +30, smiley +5, photo x2 -> 50 x 20
    // K♥ +10, lusty +3, scary +30, smiley +5 -> 90 x 28
    assert_eq!(score(played, Vec::new(), row), (90.0, 28.0));
}

#[test]
fn fibonacci_counts_every_scoring_card_each_time() {
    let played = cards(&[(Ace, Spades), (Ace, Hearts)]);
    let row = jokers(&[Joker::Fibonacci]);
    // pair 10 x 2; each ace scores and sets off both aces: 4 times +8
    assert_eq!(score(played, Vec::new(), row), (32.0, 34.0));
}

#[test]
fn cards_held_in_hand_act() {
    let played = cards(&[(Ace, Spades)]);
    let held = cards(&[(King, Clubs), (Two, Spades), (King, Spades), (Two, Clubs)]);
    let row = jokers(&[Joker::Baron, Joker::RaisedFist, Joker::Blackboard]);
    // high card 5 x 1, ace +11; kings x1.5 twice; fist on the last two: +4; blackboard x3
    let (chips, mult) = score(played, held, row);
    assert_eq!(chips, 16.0);
    assert_eq!(mult, ((1.0 * 1.5) * 1.5 + 4.0) * 3.0);
}

#[test]
fn mime_and_sock_and_buskin_retrigger() {
    let played = cards(&[(King, Spades)]);
    let mut held = cards(&[(Two, Hearts)]);
    held[0].enhancement = Some(Enhancement::Steel);
    let row = jokers(&[Joker::SockAndBuskin, Joker::Mime]);
    // high card 5 x 1; king +10, retriggered +10; steel x1.5, retriggered x1.5
    assert_eq!(score(played, held, row), (25.0, 2.25));
}

#[test]
fn splash_scores_every_card() {
    let played = cards(&[(Ace, Spades), (Two, Hearts)]);
    assert_eq!(score(played.clone(), Vec::new(), Vec::new()), (16.0, 1.0));
    assert_eq!(score(played, Vec::new(), jokers(&[Joker::Splash])), (18.0, 1.0));
}

#[test]
fn flower_pot_wants_all_suits() {
    let all = cards(&[(Two, Hearts), (Three, Spades), (Four, Clubs), (Five, Diamonds)]);
    assert!(has_all_suits(&all, false));
    let three = cards(&[(Two, Hearts), (Three, Spades), (Four, Clubs), (Five, Clubs)]);
    assert!(!has_all_suits(&three, false));
    let mut wild = three.clone();
    wild[3].enhancement = Some(Enhancement::Wild);
    assert!(has_all_suits(&wild, false));
    let colours = cards(&[(Two, Hearts), (Three, Hearts), (Four, Clubs), (Five, Clubs)]);
    assert!(has_all_suits(&colours, true));
    assert!(!has_all_suits(&colours, false));
    assert!(!has_all_suits(&cards(&[(Two, Hearts), (Three, Spades), (Four, Clubs)]), false));
    assert!(is_all_black(&cards(&[(Two, Spades), (Three, Clubs)])));
    assert!(is_all_black(&Vec::new()));
    assert!(!is_all_black(&cards(&[(Two, Spades), (Three, Hearts)])));
}

#[test]
fn blueprint_copies_the_joker_to_its_right() {
    let played = cards(&[(Ace, Spades)]);
    let row = jokers(&[Joker::Blueprint, Joker::Blueprint, Joker::Joker]);
    // high card 5 x 1, ace +11; each blueprint +4, joker +4
    assert_eq!(score(played.clone(), Vec::new(), row), (16.0, 13.0));
    let row = jokers(&[Joker::Blueprint, Joker::GreedyJoker]);
    let diamonds = cards(&[(Ace, Diamonds)]);
    // ace of diamonds: greedy +3 and its copy +3
    assert_eq!(score(diamonds, Vec::new(), row), (16.0, 7.0));
    assert_eq!(score(played, Vec::new(), jokers(&[Joker::Blueprint])), (16.0, 1.0));

    let round = Round {
        cards_played: Vec::new(),
        cards_held_in_hand: Vec::new(),
        jokers: jokers(&[Joker::Blueprint, Joker::Blueprint, Joker::Mime, Joker::Blueprint]),
    };
    let state = GameState::new(round, false);
    assert_eq!(follow_blueprint_chain(&state, 0), Some((2, Joker::Mime)));
    assert_eq!(follow_blueprint_chain(&state, 2), None);
    assert_eq!(follow_blueprint_chain(&state, 3), None);
    assert_eq!(follow_blueprint_chain(&state, 9), None);
}

#[test]
fn blueprint_notes_what_it_will_copy() {
    let round = Round {
        cards_played: Vec::new(),
        cards_held_in_hand: Vec::new(),
        jokers: jokers(&[Joker::Blueprint, Joker::Baron]),
    };
    let mut state = GameState::new(round, true);
    let own = state.round.jokers[0];
    let card = Card::new(Ace, Diamonds, None, None, 0);
    assert!(Blueprint.apply(&mut state, &own, &card).is_ok());
    assert_eq!(state.blueprint_held_jokers, vec![(own, Joker::Baron)]);
    assert_eq!(
        state.steps,
        vec![ScoreStep { reason: Reason::Joker(own), change: Change::Note(Note::WillCopyHeld(Joker::Baron)) }]
    );
}

#[test]
fn jokers_say_when_they_act() {
    assert_eq!(activation_type_of(Joker::Joker), ActivationType::Independent);
    assert_eq!(activation_type_of(Joker::Baron), ActivationType::OnHeld);
    assert_eq!(activation_type_of(Joker::Mime), ActivationType::OnHeld);
    assert_eq!(activation_type_of(Joker::OddTodd), ActivationType::OnScored);
    assert_eq!(activation_type_of(Joker::Blueprint), ActivationType::Independent);
    let effect = create_joker_effect(Joker::SockAndBuskin);
    assert_eq!(effect.activation_type(), ActivationType::OnScored);
    let round = Round { cards_played: Vec::new(), cards_held_in_hand: Vec::new(), jokers: Vec::new() };
    let mut state = GameState::new(round, false);
    assert!(!joker_can_apply(Joker::JollyJoker, &state));
    state.contains_pair = true;
    assert!(joker_can_apply(Joker::JollyJoker, &state));
    assert!(create_joker_effect(Joker::SlyJoker).can_apply(&state));
    let foil = JokerCard::new(Joker::Joker, Some(Edition::Foil), 7);
    assert!(apply_joker_edition(&foil, &mut state).is_ok());
    assert_eq!(
        state.steps,
        vec![ScoreStep { reason: Reason::JokerEdition(foil), change: Change::AddChips(50) }]
    );
}

#[test]
fn errors_say_what_went_wrong() {
    let error = GameError::InvalidHand("no cards".to_string());
    assert_eq!(error.message(), "Invalid hand: no cards");
}

#[test]
fn places_give_ranks_suits_and_jokers() {
    assert_eq!(Rank::at(0), Two);
    assert_eq!(Rank::at(12), Ace);
    assert_eq!(Rank::at(200), Ace);
    assert_eq!(Suit::at(0), Spades);
    assert_eq!(Suit::at(2), Clubs);
    assert_eq!(Suit::at(9), Diamonds);
    assert_eq!(Enhancement::at(2), Enhancement::Wild);
    assert_eq!(Enhancement::at(4), Enhancement::Steel);
    assert_eq!(Edition::at(0), Edition::Foil);
    assert_eq!(Edition::at(7), Edition::Polychrome);
    assert_eq!(Joker::at(0), Joker::Joker);
    assert_eq!(Joker::at(18), Joker::GluttonousJoker);
    assert_eq!(Joker::at(33), Joker::Blueprint);
    assert_eq!(Joker::at(34), Joker::Blueprint);
}

#[test]
fn windows_of_every_width_are_judged() {
    let mut entries = Vec::new();
    for k in 0..1500usize {
        let value = if k < 100 { 2 * k as i32 } else { 100 + k as i32 };
        entries.push(rsheet::sorting::Entry { place: k, rank: value, value });
    }
    assert_eq!(rsheet::poker::find_first_window(&entries, 0, rsheet::poker::Fit::Exact), None);
    assert_eq!(rsheet::poker::find_first_window(&entries, 1, rsheet::poker::Fit::Exact), Some(0));
    assert_eq!(rsheet::poker::find_first_window(&entries, 2, rsheet::poker::Fit::Tight), Some(0));
    assert_eq!(rsheet::poker::find_first_window(&entries, 2, rsheet::poker::Fit::Exact), Some(100));
    assert_eq!(rsheet::poker::find_first_window(&entries, 1200, rsheet::poker::Fit::Exact), Some(100));
    assert_eq!(rsheet::poker::find_first_window(&entries, 1400, rsheet::poker::Fit::Exact), Some(100));
    assert_eq!(rsheet::poker::find_first_window(&entries, 1401, rsheet::poker::Fit::Exact), None);
    assert_eq!(rsheet::poker::find_first_window(&entries, 1401, rsheet::poker::Fit::Tight), Some(99));
    assert_eq!(rsheet::poker::find_first_window(&entries, 1403, rsheet::poker::Fit::Tight), None);
    assert_eq!(rsheet::poker::find_first_window(&entries, 1501, rsheet::poker::Fit::Tight), None);
    assert_eq!(rsheet::poker::find_first_window(&entries, usize::MAX, rsheet::poker::Fit::Tight), None);
    assert!(rsheet::poker::fits(&entries, 100, 1400, rsheet::poker::Fit::Exact));
    assert!(!rsheet::poker::fits(&entries, 99, 1401, rsheet::poker::Fit::Exact));
    assert!(rsheet::poker::fits(&entries, 99, 1401, rsheet::poker::Fit::Tight));
    assert!(!rsheet::poker::fits(&entries, 98, 1401, rsheet::poker::Fit::Tight));
    assert!(!rsheet::poker::fits(&entries, 99, 1401, rsheet::poker::Fit::OneGap));
}

#[test]
fn every_scoring_card_was_played() {
    let hands = [
        cards(&[(Two, Hearts), (Five, Clubs), (Nine, Spades), (King, Diamonds), (Seven, Hearts)]),
        cards(&[(Two, Hearts), (Two, Clubs), (Nine, Spades), (Nine, Diamonds), (Seven, Hearts)]),
        cards(&[(Ace, Hearts), (Two, Hearts), (Three, Hearts), (Four, Hearts), (Five, Spades)]),
        cards(&[(Ten, Clubs), (Jack, Clubs), (Queen, Clubs), (King, Clubs), (Ace, Clubs)]),
        cards(&[(Two, Clubs), (Four, Clubs), (Six, Clubs), (Eight, Clubs), (Ten, Hearts)]),
        cards(&[(Three, Spades), (Three, Hearts), (Three, Clubs)]),
        cards(&[]),
    ];
    let kinds = [
        PokerHand::HighCard,
        PokerHand::Pair,
        PokerHand::TwoPair,
        PokerHand::ThreeOfAKind,
        PokerHand::Straight,
        PokerHand::Flush,
        PokerHand::FullHouse,
        PokerHand::FourOfAKind,
        PokerHand::StraightFlush,
    ];
    for played in hands.iter() {
        for kind in kinds.iter() {
            for flags in 0..8 {
                let scoring =
                    get_scoring_cards(kind, played, flags & 1 != 0, flags & 2 != 0, flags & 4 != 0);
                for card in scoring.iter() {
                    assert!(played.contains(card), "{:?} {:?} {}", kind, card, flags);
                }
            }
        }
    }
}

//! Reading a poker hand from the cards played: which hand they make, what
//! they contain, and which of them score. Jokers bend the rules: flushes
//! and straights of four cards, straights with gaps of one rank, and suits
//! of one colour that count as the same.

use crate::cards::{Card, PokerHand, Rank, Suit};
use crate::errors::GameResult;
use crate::groups::{
    add_to_group, any_group_at_least, any_group_of, count_groups, count_groups_at_least,
    count_groups_of, find_group, first_group_at_least, first_group_of, group_at, group_count,
    distinct_keys, groups_of, groups_within, lemma_groups_by_members, lemma_with_member_members,
    lemma_with_member_within, members, new_groups, with_member,
};
use crate::jokers::medium::count_natural;
use crate::sorting::{
    dedup, dedup_entries, drop_repeated_entries, drop_repeats, holds, lemma_dedup,
    lemma_dedup_entries, lemma_sorted, lemma_sorted_entries, places_below, sort, sort_entries,
    sorted, sorted_entries, Entry,
};
use indexmap::IndexMap;
use vstd::prelude::*;

verus! {

/// The place of the ace in the order of ranks.
pub const ACE: i32 = 12;

/// The cards by rank: one group for each rank, in the order in which the
/// ranks first come up, each with the places of its cards.
pub open spec fn rank_groups(cards: Seq<Card>) -> Seq<(u8, Seq<usize>)>
    decreases cards.len(),
{
    if cards.len() == 0 {
        Seq::empty()
    } else {
        with_member(
            rank_groups(cards.drop_last()),
            cards.last().rank.spec_ordinal(),
            (cards.len() - 1) as usize,
        )
    }
}

/// The groups after the card at `place` has been filed under its suits: a
/// wild card under clubs, diamonds, hearts and spades, in this order; where
/// suits of one colour count as the same, a card under its suit and then
/// under the other suit of its colour; else under its suit.
pub open spec fn with_suits(
    groups: Seq<(u8, Seq<usize>)>,
    card: Card,
    place: usize,
    smeared: bool,
) -> Seq<(u8, Seq<usize>)> {
    if card.spec_is_wild() {
        with_member(
            with_member(
                with_member(
                    with_member(groups, Suit::Clubs.spec_ordinal(), place),
                    Suit::Diamonds.spec_ordinal(),
                    place,
                ),
                Suit::Hearts.spec_ordinal(),
                place,
            ),
            Suit::Spades.spec_ordinal(),
            place,
        )
    } else if smeared {
        with_member(
            with_member(groups, card.suit.spec_ordinal(), place),
            card.suit.spec_other_suit_of_same_color().spec_ordinal(),
            place,
        )
    } else {
        with_member(groups, card.suit.spec_ordinal(), place)
    }
}

/// The cards by suit: one group for each suit, in the order in which the
/// suits first come up, each with the places of its cards.
pub open spec fn suit_groups(cards: Seq<Card>, smeared: bool) -> Seq<(u8, Seq<usize>)>
    decreases cards.len(),
{
    if cards.len() == 0 {
        Seq::empty()
    } else {
        with_suits(
            suit_groups(cards.drop_last(), smeared),
            cards.last(),
            (cards.len() - 1) as usize,
            smeared,
        )
    }
}

/// The groups by rank hold places of the cards under keys of ranks, and
/// there are no more groups than cards.
pub proof fn lemma_rank_groups(cards: Seq<Card>)
    requires
        cards.len() <= usize::MAX,
    ensures
        groups_within(rank_groups(cards), cards.len(), 12),
        rank_groups(cards).len() <= cards.len(),
    decreases cards.len(),
{
    if cards.len() > 0 {
        lemma_rank_groups(cards.drop_last());
        let before = rank_groups(cards.drop_last());
        assert(groups_within(before, cards.len(), 12));
        lemma_with_member_within(
            before,
            cards.last().rank.spec_ordinal(),
            (cards.len() - 1) as usize,
            cards.len(),
            12,
        );
    }
}

/// The groups by suit hold places of the cards under keys of suits.
pub proof fn lemma_suit_groups(cards: Seq<Card>, smeared: bool)
    requires
        cards.len() <= usize::MAX,
    ensures
        groups_within(suit_groups(cards, smeared), cards.len(), 3),
    decreases cards.len(),
{
    if cards.len() > 0 {
        lemma_suit_groups(cards.drop_last(), smeared);
        let before = suit_groups(cards.drop_last(), smeared);
        let card = cards.last();
        let place = (cards.len() - 1) as usize;
        let bound = cards.len();
        assert(groups_within(before, bound, 3));
        if card.spec_is_wild() {
            let a = with_member(before, Suit::Clubs.spec_ordinal(), place);
            lemma_with_member_within(before, Suit::Clubs.spec_ordinal(), place, bound, 3);
            let b = with_member(a, Suit::Diamonds.spec_ordinal(), place);
            lemma_with_member_within(a, Suit::Diamonds.spec_ordinal(), place, bound, 3);
            let c = with_member(b, Suit::Hearts.spec_ordinal(), place);
            lemma_with_member_within(b, Suit::Hearts.spec_ordinal(), place, bound, 3);
            lemma_with_member_within(c, Suit::Spades.spec_ordinal(), place, bound, 3);
        } else if smeared {
            let a = with_member(before, card.suit.spec_ordinal(), place);
            lemma_with_member_within(before, card.suit.spec_ordinal(), place, bound, 3);
            lemma_with_member_within(
                a,
                card.suit.spec_other_suit_of_same_color().spec_ordinal(),
                place,
                bound,
                3,
            );
        } else {
            lemma_with_member_within(before, card.suit.spec_ordinal(), place, bound, 3);
        }
    }
}

/// Sorts the cards into groups by rank.
pub fn group_by_rank(cards: &Vec<Card>) -> (map: IndexMap<u8, Vec<usize>>)
    ensures
        groups_of(map) == rank_groups(cards@),
        groups_within(groups_of(map), cards@.len(), 12),
        groups_of(map).len() <= cards@.len(),
{
    let mut map = new_groups();
    let mut i: usize = 0;
    while i < cards.len()
        invariant
            i <= cards@.len(),
            groups_of(map) == rank_groups(cards@.take(i as int)),
        decreases cards@.len() - i,
    {
        proof {
            assert(cards@.take(i + 1).drop_last() == cards@.take(i as int));
            assert(cards@.take(i + 1).last() == cards@[i as int]);
        }
        add_to_group(&mut map, cards[i].rank.ordinal(), i);
        i += 1;
    }
    proof {
        assert(cards@.take(cards@.len() as int) == cards@);
        lemma_rank_groups(cards@);
    }
    map
}

/// Sorts the cards into groups by suit.
pub fn group_by_suit(cards: &Vec<Card>, smeared_joker_active: bool) -> (map: IndexMap<
    u8,
    Vec<usize>,
>)
    ensures
        groups_of(map) == suit_groups(cards@, smeared_joker_active),
        groups_within(groups_of(map), cards@.len(), 3),
{
    let mut map = new_groups();
    let mut i: usize = 0;
    while i < cards.len()
        invariant
            i <= cards@.len(),
            groups_of(map) == suit_groups(cards@.take(i as int), smeared_joker_active),
        decreases cards@.len() - i,
    {
        proof {
            assert(cards@.take(i + 1).drop_last() == cards@.take(i as int));
            assert(cards@.take(i + 1).last() == cards@[i as int]);
        }
        let card = &cards[i];
        if card.is_wild() {
            add_to_group(&mut map, Suit::Clubs.ordinal(), i);
            add_to_group(&mut map, Suit::Diamonds.ordinal(), i);
            add_to_group(&mut map, Suit::Hearts.ordinal(), i);
            add_to_group(&mut map, Suit::Spades.ordinal(), i);
        } else if smeared_joker_active {
            add_to_group(&mut map, card.suit.ordinal(), i);
            add_to_group(&mut map, card.suit.other_suit_of_same_color().ordinal(), i);
        } else {
            add_to_group(&mut map, card.suit.ordinal(), i);
        }
        i += 1;
    }
    proof {
        assert(cards@.take(cards@.len() as int) == cards@);
        lemma_suit_groups(cards@, smeared_joker_active);
    }
    map
}

/// The ranks of the cards with the number of cards of each, in the order in
/// which the ranks first come up.
pub fn group_rank(cards: &Vec<Card>) -> (counts: Vec<(Rank, usize)>)
    ensures
        counts@.len() == rank_groups(cards@).len(),
        forall|i: int|
            0 <= i < counts@.len() ==> (#[trigger] counts@[i]) == (
                Rank::spec_at(rank_groups(cards@)[i].0),
                rank_groups(cards@)[i].1.len() as usize,
            ),
{
    let map = group_by_rank(cards);
    let total = group_count(&map);
    let mut counts: Vec<(Rank, usize)> = Vec::new();
    let mut i: usize = 0;
    while i < total
        invariant
            i <= total,
            total == rank_groups(cards@).len(),
            groups_of(map) == rank_groups(cards@),
            counts@.len() == i,
            forall|k: int|
                0 <= k < i ==> (#[trigger] counts@[k]) == (
                    Rank::spec_at(rank_groups(cards@)[k].0),
                    rank_groups(cards@)[k].1.len() as usize,
                ),
        decreases total - i,
    {
        let group = group_at(&map, i);
        counts.push((Rank::at(group.0), group.1.len()));
        i += 1;
    }
    counts
}

/// The places of the ranks of the cards in the order of ranks.
pub open spec fn ordinals(cards: Seq<Card>) -> Seq<i32> {
    cards.map_values(|card: Card| card.rank.spec_ordinal() as i32)
}

/// The ranks of the cards from the lowest to the highest.
pub open spec fn sorted_ranks(cards: Seq<Card>) -> Seq<i32> {
    sorted(ordinals(cards))
}

/// The ranks that the cards have, each once, from the lowest to the highest.
pub open spec fn unique_ranks(cards: Seq<Card>) -> Seq<i32> {
    dedup(sorted_ranks(cards))
}

/// The chips of the rank at a place of the order of ranks.
pub open spec fn value_at(place: i32) -> i32 {
    if place <= 0 {
        2
    } else if place <= 8 {
        (place + 2) as i32
    } else if place <= 11 {
        10
    } else {
        11
    }
}

/// The chips of each rank of a list.
pub open spec fn values_of(ranks: Seq<i32>) -> Seq<i32> {
    ranks.map_values(|place: i32| value_at(place))
}

/// The chips of each rank of a list but the ace.
pub open spec fn non_ace_values(ranks: Seq<i32>) -> Seq<i32>
    decreases ranks.len(),
{
    if ranks.len() == 0 {
        Seq::empty()
    } else if ranks.last() == ACE {
        non_ace_values(ranks.drop_last())
    } else {
        non_ace_values(ranks.drop_last()).push(value_at(ranks.last()))
    }
}

/// The chips of the ranks of a list with the ace counted low, as 1, from
/// the smallest to the largest.
pub open spec fn low_ace_values(ranks: Seq<i32>) -> Seq<i32> {
    sorted(seq![1i32] + non_ace_values(ranks))
}

/// True when the `width` values from `start` on span at most `span` and no
/// two neighbours among them lie further apart than one rank left out.
pub open spec fn gaps_ok(values: Seq<i32>, start: int, width: int, span: int) -> bool {
    &&& values[start + width - 1] - values[start] <= span
    &&& forall|i: int|
        0 <= i < width - 1 ==> #[trigger] values[start + i + 1] - values[start + i] - 1 <= 1
}

/// True when some `width` neighbours among the values make a row with gaps
/// of at most one.
pub open spec fn has_window(values: Seq<i32>, width: int, span: int) -> bool {
    exists|start: int| 0 <= start <= values.len() - width && #[trigger] gaps_ok(values, start, width, span)
}

/// True when the `width` ranks from `start` on follow one another without a
/// gap.
pub open spec fn runs_at(ranks: Seq<i32>, start: int, width: int) -> bool {
    forall|i: int|
        0 <= i < width - 1 ==> (#[trigger] ranks[start + i]) < ACE && ranks[start + i] + 1
            == ranks[start + i + 1]
}

/// True when some `width` neighbours among the ranks follow one another
/// without a gap.
pub open spec fn has_run(ranks: Seq<i32>, width: int) -> bool {
    exists|start: int| 0 <= start <= ranks.len() - width && #[trigger] runs_at(ranks, start, width)
}

/// Five cards or more of which five share a suit.
pub open spec fn spec_is_flush(cards: Seq<Card>, smeared: bool) -> bool {
    cards.len() >= 5 && any_group_at_least(suit_groups(cards, smeared), 5)
}

/// Four cards or more of which four share a suit.
pub open spec fn spec_has_four_card_flush(cards: Seq<Card>, smeared: bool) -> bool {
    cards.len() >= 4 && any_group_at_least(suit_groups(cards, smeared), 4)
}

/// Five cards or more whose ranks follow one another from the lowest to
/// the highest, or start with two, three, four, five and the ace.
pub open spec fn spec_is_straight(cards: Seq<Card>) -> bool {
    let ranks = sorted_ranks(cards);
    cards.len() >= 5 && ((ranks[0] == 0 && ranks[1] == 1 && ranks[2] == 2 && ranks[3] == 3
        && ranks[4] == ACE) || runs_at(ranks, 0, ranks.len() as int))
}

/// Five cards or more of two ranks, three of the one and two of the other.
pub open spec fn spec_has_three_two_pattern(cards: Seq<Card>) -> bool {
    &&& cards.len() >= 5
    &&& rank_groups(cards).len() == 2
    &&& any_group_of(rank_groups(cards), 3)
    &&& any_group_of(rank_groups(cards), 2)
}

/// Four ranks that follow one another, or the ace with two, three and four.
pub open spec fn spec_has_four_card_straight(cards: Seq<Card>) -> bool {
    let ranks = unique_ranks(cards);
    cards.len() >= 4 && ranks.len() >= 4 && ((ranks.contains(ACE) && ranks.contains(0)
        && ranks.contains(1) && ranks.contains(2)) || has_run(ranks, 4))
}

/// Five ranks in a row with gaps of at most one rank, the ace counted high
/// or low.
pub open spec fn spec_has_shortcut_straight(cards: Seq<Card>) -> bool {
    let ranks = unique_ranks(cards);
    ranks.len() >= 5 && (has_window(values_of(ranks), 5, 8) || (ranks.contains(ACE) && has_window(
        low_ace_values(ranks),
        5,
        8,
    )))
}

/// Four ranks in a row with gaps of at most one rank, the ace counted high
/// or low.
pub open spec fn spec_has_four_card_shortcut_straight(cards: Seq<Card>) -> bool {
    let ranks = unique_ranks(cards);
    cards.len() >= 4 && ranks.len() >= 4 && (has_window(values_of(ranks), 4, 6) || (ranks.contains(
        ACE,
    ) && has_window(low_ace_values(ranks), 4, 6)))
}

/// Every value lies between -1000 and 1000.
pub open spec fn small(values: Seq<i32>) -> bool {
    forall|i: int| 0 <= i < values.len() ==> -1000 <= #[trigger] values[i] <= 1000
}

/// The chips of ranks are small numbers.
pub proof fn lemma_values_small(ranks: Seq<i32>)
    ensures
        small(values_of(ranks)),
        small(seq![1i32] + non_ace_values(ranks)),
        small(low_ace_values(ranks)),
        non_ace_values(ranks).len() <= ranks.len(),
    decreases ranks.len(),
{
    if ranks.len() > 0 {
        lemma_values_small(ranks.drop_last());
        let before = seq![1i32] + non_ace_values(ranks.drop_last());
        let now = seq![1i32] + non_ace_values(ranks);
        assert forall|i: int| 0 <= i < now.len() implies -1000 <= #[trigger] now[i] <= 1000 by {
            if i < before.len() {
                assert(now[i] == before[i]);
            }
        }
    }
    let list = seq![1i32] + non_ace_values(ranks);
    lemma_sorted(list);
    let low = low_ace_values(ranks);
    assert forall|i: int| 0 <= i < low.len() implies -1000 <= #[trigger] low[i] <= 1000 by {
        assert(low.contains(low[i]));
        assert(list.contains(low[i]));
        let k = choose|k: int| 0 <= k < list.len() && list[k] == low[i];
        assert(-1000 <= list[k] <= 1000);
    }
}

/// The ranks of the cards as numbers, in the order of the cards.
pub fn rank_ordinals(cards: &Vec<Card>) -> (out: Vec<i32>)
    ensures
        out@ == ordinals(cards@),
{
    let mut out: Vec<i32> = Vec::new();
    let mut i: usize = 0;
    while i < cards.len()
        invariant
            i <= cards@.len(),
            out@ == ordinals(cards@.take(i as int)),
        decreases cards@.len() - i,
    {
        proof {
            assert(ordinals(cards@.take(i + 1)) == ordinals(cards@.take(i as int)).push(
                cards@[i as int].rank.spec_ordinal() as i32,
            ));
        }
        out.push(cards[i].rank.ordinal() as i32);
        i += 1;
    }
    proof {
        assert(cards@.take(cards@.len() as int) == cards@);
    }
    out
}

/// The ranks that the cards have, each once, from the lowest to the highest.
pub fn unique_sorted_ranks(cards: &Vec<Card>) -> (out: Vec<i32>)
    ensures
        out@ == unique_ranks(cards@),
        out@.len() <= cards@.len(),
{
    let ranks = sort(&rank_ordinals(cards));
    proof {
        lemma_dedup(ranks@);
    }
    drop_repeats(&ranks)
}

/// The chips of the rank at a place of the order of ranks.
pub fn chips_at(place: i32) -> (chips: i32)
    ensures
        chips == value_at(place),
{
    if place <= 0 {
        2
    } else if place <= 8 {
        place + 2
    } else if place <= 11 {
        10
    } else {
        11
    }
}

/// The chips of each rank of a list.
pub fn rank_values(ranks: &Vec<i32>) -> (out: Vec<i32>)
    ensures
        out@ == values_of(ranks@),
{
    let mut out: Vec<i32> = Vec::new();
    let mut i: usize = 0;
    while i < ranks.len()
        invariant
            i <= ranks@.len(),
            out@ == values_of(ranks@.take(i as int)),
        decreases ranks@.len() - i,
    {
        proof {
            assert(values_of(ranks@.take(i + 1)) == values_of(ranks@.take(i as int)).push(
                value_at(ranks@[i as int]),
            ));
        }
        out.push(chips_at(ranks[i]));
        i += 1;
    }
    proof {
        assert(ranks@.take(ranks@.len() as int) == ranks@);
    }
    out
}

/// The chips of the ranks of a list with the ace counted low.
pub fn ace_low_values(ranks: &Vec<i32>) -> (out: Vec<i32>)
    ensures
        out@ == low_ace_values(ranks@),
{
    let mut list: Vec<i32> = Vec::new();
    list.push(1);
    let mut i: usize = 0;
    while i < ranks.len()
        invariant
            i <= ranks@.len(),
            list@ == seq![1i32] + non_ace_values(ranks@.take(i as int)),
        decreases ranks@.len() - i,
    {
        proof {
            assert(ranks@.take(i + 1).drop_last() == ranks@.take(i as int));
            assert(ranks@.take(i + 1).last() == ranks@[i as int]);
        }
        if ranks[i] != ACE {
            list.push(chips_at(ranks[i]));
        }
        i += 1;
    }
    proof {
        assert(ranks@.take(ranks@.len() as int) == ranks@);
    }
    sort(&list)
}

/// Looks for `width` neighbours among the values that make a row with gaps
/// of at most one.
pub fn find_window(values: &Vec<i32>, width: usize, span: i32) -> (found: bool)
    requires
        width >= 1,
        small(values@),
    ensures
        found == has_window(values@, width as int, span as int),
{
    if values.len() < width {
        return false;
    }
    let last_start = values.len() - width;
    let mut start: usize = 0;
    while start <= last_start
        invariant
            width >= 1,
            small(values@),
            values@.len() <= usize::MAX,
            last_start + width == values@.len(),
            start <= last_start + 1,
            forall|s: int| 0 <= s < start ==> !#[trigger] gaps_ok(values@, s, width as int, span as int),
        decreases last_start + 1 - start,
    {
        if values[start + width - 1] - values[start] <= span {
            let mut i: usize = 0;
            let mut good = true;
            while i < width - 1
                invariant
                    width >= 1,
                    small(values@),
                    values@.len() <= usize::MAX,
                    start + width <= values@.len(),
                    i <= width - 1,
                    good == forall|k: int|
                        0 <= k < i ==> #[trigger] values@[start + k + 1] - values@[start + k] - 1
                            <= 1,
                decreases width - 1 - i,
            {
                if values[start + i + 1] - values[start + i] - 1 > 1 {
                    good = false;
                }
                i += 1;
            }
            if good {
                proof {
                    assert(gaps_ok(values@, start as int, width as int, span as int));
                }
                return true;
            }
        }
        start += 1;
    }
    false
}

/// Looks for `width` neighbours among the ranks that follow one another.
pub fn find_run(ranks: &Vec<i32>, width: usize) -> (found: bool)
    requires
        width >= 1,
    ensures
        found == has_run(ranks@, width as int),
{
    if ranks.len() < width {
        return false;
    }
    let last_start = ranks.len() - width;
    let mut start: usize = 0;
    while start <= last_start
        invariant
            width >= 1,
            ranks@.len() <= usize::MAX,
            last_start + width == ranks@.len(),
            start <= last_start + 1,
            forall|s: int| 0 <= s < start ==> !#[trigger] runs_at(ranks@, s, width as int),
        decreases last_start + 1 - start,
    {
        let mut i: usize = 0;
        let mut good = true;
        while i < width - 1
            invariant
                width >= 1,
                ranks@.len() <= usize::MAX,
                start + width <= ranks@.len(),
                i <= width - 1,
                good == forall|k: int|
                    0 <= k < i ==> (#[trigger] ranks@[start + k]) < ACE && ranks@[start + k] + 1
                        == ranks@[start + k + 1],
            decreases width - 1 - i,
        {
            if !(ranks[start + i] < ACE && ranks[start + i] + 1 == ranks[start + i + 1]) {
                good = false;
            }
            i += 1;
        }
        if good {
            proof {
                assert(runs_at(ranks@, start as int, width as int));
            }
            return true;
        }
        start += 1;
    }
    false
}

/// True when the cards make a flush.
pub fn is_flush(cards: &Vec<Card>, smeared_joker_active: bool) -> (flush: bool)
    ensures
        flush == spec_is_flush(cards@, smeared_joker_active),
{
    if cards.len() < 5 {
        return false;
    }
    let suit_groups = group_by_suit(cards, smeared_joker_active);
    find_group(&suit_groups, 5, false).is_some()
}

/// True when four of the cards share a suit.
pub fn has_four_card_flush(cards: &Vec<Card>, smeared_joker_active: bool) -> (flush: bool)
    ensures
        flush == spec_has_four_card_flush(cards@, smeared_joker_active),
{
    if cards.len() < 4 {
        return false;
    }
    let suit_groups = group_by_suit(cards, smeared_joker_active);
    find_group(&suit_groups, 4, false).is_some()
}

/// True when the cards make a straight.
pub fn is_straight(cards: &Vec<Card>) -> (straight: bool)
    ensures
        straight == spec_is_straight(cards@),
{
    if cards.len() < 5 {
        return false;
    }
    let ranks = sort(&rank_ordinals(cards));
    if ranks[0] == 0 && ranks[1] == 1 && ranks[2] == 2 && ranks[3] == 3 && ranks[4] == ACE {
        return true;
    }
    let mut i: usize = 0;
    while i < ranks.len() - 1
        invariant
            ranks@.len() >= 5,
            cards@.len() >= 5,
            ranks@ == sorted_ranks(cards@),
            !(ranks@[0] == 0 && ranks@[1] == 1 && ranks@[2] == 2 && ranks@[3] == 3 && ranks@[4]
                == ACE),
            i <= ranks@.len() - 1,
            forall|k: int|
                0 <= k < i ==> (#[trigger] ranks@[0 + k]) < ACE && ranks@[0 + k] + 1 == ranks@[0 + k
                    + 1],
        decreases ranks@.len() - 1 - i,
    {
        if !(ranks[i] < ACE && ranks[i] + 1 == ranks[i + 1]) {
            proof {
                assert(ranks@[0 + i] == ranks@[i as int]);
                assert(!runs_at(ranks@, 0, ranks@.len() as int));
            }
            return false;
        }
        proof {
            assert(ranks@[0 + i] == ranks@[i as int]);
        }
        i += 1;
    }
    true
}

/// True when the cards are three of one rank and two of another.
pub fn has_three_two_pattern(cards: &Vec<Card>) -> (pattern: bool)
    ensures
        pattern == spec_has_three_two_pattern(cards@),
{
    if cards.len() < 5 {
        return false;
    }
    let rank_counts = group_by_rank(cards);
    if group_count(&rank_counts) != 2 {
        return false;
    }
    find_group(&rank_counts, 3, true).is_some() && find_group(&rank_counts, 2, true).is_some()
}

/// True when four of the cards make a straight.
pub fn has_four_card_straight(cards: &Vec<Card>) -> (straight: bool)
    ensures
        straight == spec_has_four_card_straight(cards@),
{
    if cards.len() < 4 {
        return false;
    }
    let ranks = unique_sorted_ranks(cards);
    if ranks.len() < 4 {
        return false;
    }
    if holds(&ranks, ACE) && holds(&ranks, 0) && holds(&ranks, 1) && holds(&ranks, 2) {
        return true;
    }
    find_run(&ranks, 4)
}

/// True when five of the cards make a straight with gaps of at most one
/// rank.
pub fn has_shortcut_straight(cards: &Vec<Card>) -> (straight: bool)
    ensures
        straight == spec_has_shortcut_straight(cards@),
{
    let ranks = unique_sorted_ranks(cards);
    if ranks.len() < 5 {
        return false;
    }
    proof {
        lemma_values_small(ranks@);
    }
    let rank_values = rank_values(&ranks);
    if find_window(&rank_values, 5, 8) {
        return true;
    }
    if holds(&ranks, ACE) {
        let low_ace_values = ace_low_values(&ranks);
        if find_window(&low_ace_values, 5, 8) {
            return true;
        }
    }
    false
}

/// True when four of the cards make a straight with gaps of at most one
/// rank.
pub fn has_four_card_shortcut_straight(cards: &Vec<Card>) -> (straight: bool)
    ensures
        straight == spec_has_four_card_shortcut_straight(cards@),
{
    if cards.len() < 4 {
        return false;
    }
    let ranks = unique_sorted_ranks(cards);
    if ranks.len() < 4 {
        return false;
    }
    proof {
        lemma_values_small(ranks@);
    }
    let rank_values = rank_values(&ranks);
    if find_window(&rank_values, 4, 6) {
        return true;
    }
    if holds(&ranks, ACE) {
        let low_ace_values = ace_low_values(&ranks);
        if find_window(&low_ace_values, 4, 6) {
            return true;
        }
    }
    false
}

/// The flush that counts: of five cards, or of four where four fingers are
/// enough.
pub open spec fn counts_as_flush(cards: Seq<Card>, four_fingers: bool, smeared: bool) -> bool {
    spec_is_flush(cards, smeared) || (four_fingers && spec_has_four_card_flush(cards, smeared))
}

/// The straight that counts for the hand: of five cards, with gaps where
/// shortcuts are allowed, or of four where four fingers are enough.
pub open spec fn counts_as_straight(cards: Seq<Card>, four_fingers: bool, shortcut: bool) -> bool {
    spec_is_straight(cards) || (shortcut && spec_has_shortcut_straight(cards)) || (four_fingers
        && (spec_has_four_card_straight(cards) || (shortcut
        && spec_has_four_card_shortcut_straight(cards))))
}

/// The hand that the cards make: the strongest of the hands whose
/// condition they meet.
pub open spec fn hand_of(cards: Seq<Card>, four_fingers: bool, shortcut: bool, smeared: bool) -> PokerHand {
    let ranks = rank_groups(cards);
    let all_same_rank = ranks.len() == 1 && cards.len() >= 5;
    let flush = counts_as_flush(cards, four_fingers, smeared);
    let straight = counts_as_straight(cards, four_fingers, shortcut);
    if cards.len() < 2 {
        PokerHand::HighCard
    } else if all_same_rank && flush {
        PokerHand::FlushFive
    } else if spec_has_three_two_pattern(cards) && flush {
        PokerHand::FlushHouse
    } else if all_same_rank {
        PokerHand::FiveOfAKind
    } else if straight && flush {
        PokerHand::StraightFlush
    } else if any_group_at_least(ranks, 4) {
        PokerHand::FourOfAKind
    } else if spec_has_three_two_pattern(cards) {
        PokerHand::FullHouse
    } else if flush {
        PokerHand::Flush
    } else if straight {
        PokerHand::Straight
    } else if any_group_at_least(ranks, 3) {
        PokerHand::ThreeOfAKind
    } else if count_groups_of(ranks, 2) >= 2 {
        PokerHand::TwoPair
    } else if count_groups_of(ranks, 2) == 1 || (cards.len() == 2 && ranks.len() == 1) {
        PokerHand::Pair
    } else {
        PokerHand::HighCard
    }
}

/// Names the hand that the cards make.
pub fn identify_hand(
    cards: &Vec<Card>,
    four_fingers_active: bool,
    shortcut_active: bool,
    smeared_joker_active: bool,
) -> (hand: GameResult<PokerHand>)
    ensures
        hand is Ok,
        hand->Ok_0 == hand_of(cards@, four_fingers_active, shortcut_active, smeared_joker_active),
{
    if cards.len() < 2 {
        return Ok(PokerHand::HighCard);
    }
    let rank_count = group_by_rank(cards);
    let distinct = group_count(&rank_count);
    let all_same_rank = distinct == 1 && cards.len() >= 5;
    let has_flush = is_flush(cards, smeared_joker_active);
    let has_straight = is_straight(cards) || (shortcut_active && has_shortcut_straight(cards));
    let has_three_two = has_three_two_pattern(cards);
    let has_four_of_a_kind = find_group(&rank_count, 4, false).is_some();
    let has_three_of_a_kind = find_group(&rank_count, 3, false).is_some();
    let pair_count = count_groups(&rank_count, 2, true);
    let is_simple_pair = cards.len() == 2 && distinct == 1;
    let four_card_flush = if four_fingers_active && cards.len() >= 4 {
        has_four_card_flush(cards, smeared_joker_active)
    } else {
        false
    };
    let four_card_straight = if four_fingers_active && cards.len() >= 4 {
        has_four_card_straight(cards) || (shortcut_active && has_four_card_shortcut_straight(cards))
    } else {
        false
    };
    let effective_flush = has_flush || four_card_flush;
    let effective_straight = has_straight || four_card_straight;
    if all_same_rank && effective_flush {
        return Ok(PokerHand::FlushFive);
    }
    if has_three_two && effective_flush {
        return Ok(PokerHand::FlushHouse);
    }
    if all_same_rank {
        return Ok(PokerHand::FiveOfAKind);
    }
    if effective_straight && effective_flush {
        return Ok(PokerHand::StraightFlush);
    }
    if has_four_of_a_kind {
        return Ok(PokerHand::FourOfAKind);
    }
    if has_three_two {
        return Ok(PokerHand::FullHouse);
    }
    if effective_flush {
        return Ok(PokerHand::Flush);
    }
    if effective_straight {
        return Ok(PokerHand::Straight);
    }
    if has_three_of_a_kind {
        return Ok(PokerHand::ThreeOfAKind);
    }
    if pair_count >= 2 {
        return Ok(PokerHand::TwoPair);
    }
    if pair_count == 1 || is_simple_pair {
        return Ok(PokerHand::Pair);
    }
    Ok(PokerHand::HighCard)
}

/// What the cards played contain, for the jokers that ask.
#[derive(Debug, Clone, Copy, PartialEq, Eq, Structural)]
pub struct HandConditions {
    pub contains_pair: bool,
    pub contains_two_pair: bool,
    pub contains_three_of_a_kind: bool,
    pub contains_straight: bool,
    pub contains_flush: bool,
}

impl Default for HandConditions {
    fn default() -> (conditions: HandConditions)
        ensures
            conditions == (HandConditions {
                contains_pair: false,
                contains_two_pair: false,
                contains_three_of_a_kind: false,
                contains_straight: false,
                contains_flush: false,
            }),
    {
        HandConditions {
            contains_pair: false,
            contains_two_pair: false,
            contains_three_of_a_kind: false,
            contains_straight: false,
            contains_flush: false,
        }
    }
}

/// What the cards contain: a pair is two cards or more of one rank, two
/// pairs are pairs of two ranks, three of a kind is three cards or more of
/// one rank; straights and flushes count as for the hand.
pub open spec fn conditions_of(cards: Seq<Card>, four_fingers: bool, shortcut: bool, smeared: bool) -> HandConditions {
    let ranks = rank_groups(cards);
    HandConditions {
        contains_pair: any_group_at_least(ranks, 2),
        contains_two_pair: count_groups_at_least(ranks, 2) >= 2,
        contains_three_of_a_kind: any_group_at_least(ranks, 3),
        contains_straight: counts_as_straight(cards, four_fingers, shortcut),
        contains_flush: counts_as_flush(cards, four_fingers, smeared),
    }
}

/// Says what the cards contain.
pub fn analyse_hand_conditions(
    cards: &Vec<Card>,
    four_fingers_active: bool,
    shortcut_active: bool,
    smeared_joker_active: bool,
) -> (conditions: GameResult<HandConditions>)
    ensures
        conditions is Ok,
        conditions->Ok_0 == conditions_of(
            cards@,
            four_fingers_active,
            shortcut_active,
            smeared_joker_active,
        ),
{
    let rank_counts = group_by_rank(cards);
    let contains_pair = find_group(&rank_counts, 2, false).is_some();
    let contains_three_of_a_kind = find_group(&rank_counts, 3, false).is_some();
    let contains_two_pair = count_groups(&rank_counts, 2, false) >= 2;
    let contains_straight = is_straight(cards) || (four_fingers_active && has_four_card_straight(
        cards,
    )) || (shortcut_active && has_shortcut_straight(cards)) || (four_fingers_active
        && shortcut_active && has_four_card_shortcut_straight(cards));
    let contains_flush = is_flush(cards, smeared_joker_active) || (four_fingers_active
        && has_four_card_flush(cards, smeared_joker_active));
    Ok(
        HandConditions {
            contains_pair,
            contains_two_pair,
            contains_three_of_a_kind,
            contains_straight,
            contains_flush,
        },
    )
}

/// The cards with their places, ranks and chips, in the order of the cards.
pub open spec fn entries_of(cards: Seq<Card>) -> Seq<Entry> {
    Seq::new(
        cards.len(),
        |i: int|
            Entry {
                place: i as usize,
                rank: cards[i].rank.spec_ordinal() as i32,
                value: cards[i].rank.spec_rank_value() as i32,
            },
    )
}

/// The cards with their places, ranks and chips.
pub fn card_entries(cards: &Vec<Card>) -> (out: Vec<Entry>)
    ensures
        out@ == entries_of(cards@),
        places_below(out@, cards@.len()),
{
    let mut out: Vec<Entry> = Vec::new();
    let mut i: usize = 0;
    while i < cards.len()
        invariant
            i <= cards@.len(),
            out@ == entries_of(cards@.take(i as int)),
        decreases cards@.len() - i,
    {
        proof {
            assert(entries_of(cards@.take(i + 1)) == entries_of(cards@.take(i as int)).push(
                Entry {
                    place: i,
                    rank: cards@[i as int].rank.spec_ordinal() as i32,
                    value: cards@[i as int].rank.spec_rank_value() as i32,
                },
            ));
        }
        out.push(
            Entry {
                place: i,
                rank: cards[i].rank.ordinal() as i32,
                value: cards[i].rank.rank_value() as i32,
            },
        );
        i += 1;
    }
    proof {
        assert(cards@.take(cards@.len() as int) == cards@);
    }
    out
}

/// Every card of `picked` is one of `cards`.
pub open spec fn played(picked: Seq<Card>, cards: Seq<Card>) -> bool {
    forall|i: int| 0 <= i < picked.len() ==> cards.contains(#[trigger] picked[i])
}

/// The cards at places within the list are cards of the list.
pub proof fn lemma_cards_at_played(cards: Seq<Card>, places: Seq<usize>)
    requires
        forall|i: int| 0 <= i < places.len() ==> #[trigger] places[i] < cards.len(),
    ensures
        played(cards_at(cards, places), cards),
{
    assert forall|i: int| 0 <= i < places.len() implies cards.contains(
        #[trigger] cards_at(cards, places)[i],
    ) by {
        assert(cards[places[i] as int] == cards_at(cards, places)[i]);
    }
}

/// The cards that entries within the list stand for are cards of the list.
pub proof fn lemma_entry_cards_played(cards: Seq<Card>, entries: Seq<Entry>)
    requires
        forall|i: int| 0 <= i < entries.len() ==> (#[trigger] entries[i]).place < cards.len(),
    ensures
        played(entry_cards(cards, entries), cards),
{
    assert forall|i: int| 0 <= i < entries.len() implies cards.contains(
        #[trigger] entry_cards(cards, entries)[i],
    ) by {
        assert(cards[entries[i].place as int] == entry_cards(cards, entries)[i]);
    }
}

/// The cards of a suit among the cards are cards of the list.
pub proof fn lemma_suited_cards_played(cards: Seq<Card>, suit: Option<Suit>)
    ensures
        played(suited_cards(cards, suit), cards),
    decreases cards.len(),
{
    if cards.len() > 0 {
        let front = cards.drop_last();
        lemma_suited_cards_played(front, suit);
        let picked = suited_cards(cards, suit);
        assert forall|i: int| 0 <= i < picked.len() implies cards.contains(#[trigger] picked[i]) by {
            if i < suited_cards(front, suit).len() {
                let card = suited_cards(front, suit)[i];
                assert(front.contains(card));
                let k = choose|k: int| 0 <= k < front.len() && front[k] == card;
                assert(cards[k] == card);
            } else {
                assert(cards[cards.len() - 1] == picked[i]);
            }
        }
    }
}

/// Two lists of cards of one list merge to cards of that list.
pub proof fn lemma_merged_played(base: Seq<Card>, extra: Seq<Card>, cards: Seq<Card>)
    requires
        played(base, cards),
        played(extra, cards),
    ensures
        played(merged(base, extra), cards),
    decreases extra.len(),
{
    if extra.len() > 0 {
        let front = extra.drop_last();
        assert(played(front, cards)) by {
            assert forall|i: int| 0 <= i < front.len() implies cards.contains(#[trigger] front[i]) by {
                assert(front[i] == extra[i]);
            }
        }
        lemma_merged_played(base, front, cards);
        assert(cards.contains(extra[extra.len() - 1]));
    }
}

/// The cards at the given places, in the order of the places.
pub open spec fn cards_at(cards: Seq<Card>, places: Seq<usize>) -> Seq<Card> {
    places.map_values(|place: usize| cards[place as int])
}

/// The cards that the given entries stand for, in the order of the entries.
pub open spec fn entry_cards(cards: Seq<Card>, entries: Seq<Entry>) -> Seq<Card> {
    entries.map_values(|entry: Entry| cards[entry.place as int])
}

/// The first `count` cards, or all of them where there are fewer.
pub open spec fn first_cards(cards: Seq<Card>, count: int) -> Seq<Card> {
    if cards.len() <= count {
        cards
    } else {
        cards.take(count)
    }
}

/// The cards at the given places.
pub fn pick(cards: &Vec<Card>, places: &Vec<usize>, count: usize) -> (out: Vec<Card>)
    requires
        count <= places@.len(),
        forall|i: int| 0 <= i < places@.len() ==> #[trigger] places@[i] < cards@.len(),
    ensures
        out@ == cards_at(cards@, places@.take(count as int)),
        played(out@, cards@),
{
    proof {
        lemma_cards_at_played(cards@, places@.take(count as int));
    }
    let mut out: Vec<Card> = Vec::new();
    let mut i: usize = 0;
    while i < count
        invariant
            i <= count <= places@.len(),
            forall|k: int| 0 <= k < places@.len() ==> #[trigger] places@[k] < cards@.len(),
            out@ == cards_at(cards@, places@.take(i as int)),
        decreases count - i,
    {
        proof {
            assert(cards_at(cards@, places@.take(i + 1)) == cards_at(
                cards@,
                places@.take(i as int),
            ).push(cards@[places@[i as int] as int]));
        }
        out.push(cards[places[i]]);
        i += 1;
    }
    out
}

/// The cards that `width` entries from `start` on stand for.
pub fn pick_window(cards: &Vec<Card>, entries: &Vec<Entry>, start: usize, width: usize) -> (out:
    Vec<Card>)
    requires
        start + width <= entries@.len(),
        places_below(entries@, cards@.len()),
    ensures
        out@ == entry_cards(cards@, entries@.subrange(start as int, start + width)),
        played(out@, cards@),
{
    proof {
        lemma_entry_cards_played(cards@, entries@.subrange(start as int, start + width));
    }
    let mut out: Vec<Card> = Vec::new();
    let total = entries.len();
    let mut i: usize = 0;
    while i < width
        invariant
            i <= width,
            start + width <= entries@.len(),
            entries@.len() <= usize::MAX,
            places_below(entries@, cards@.len()),
            out@ == entry_cards(cards@, entries@.subrange(start as int, start + i)),
        decreases width - i,
    {
        proof {
            assert(entries@.subrange(start as int, start + i + 1) == entries@.subrange(
                start as int,
                start + i,
            ).push(entries@[start + i]));
            assert(entry_cards(cards@, entries@.subrange(start as int, start + i + 1))
                == entry_cards(cards@, entries@.subrange(start as int, start + i)).push(
                cards@[entries@[start + i].place as int],
            ));
        }
        out.push(cards[entries[start + i].place]);
        i += 1;
    }
    out
}

/// The first cards of the list, up to `count`.
pub fn take_first(cards: &Vec<Card>, count: usize) -> (out: Vec<Card>)
    ensures
        out@ == first_cards(cards@, count as int),
        played(out@, cards@),
{
    let mut out: Vec<Card> = Vec::new();
    let mut i: usize = 0;
    while i < cards.len() && i < count
        invariant
            i <= cards@.len(),
            i <= count,
            out@ == cards@.take(i as int),
        decreases cards@.len() - i,
    {
        proof {
            assert(cards@.take(i + 1) == cards@.take(i as int).push(cards@[i as int]));
        }
        out.push(cards[i]);
        i += 1;
    }
    proof {
        if i == cards@.len() {
            assert(cards@.take(i as int) == cards@);
        }
    }
    out
}

/// A copy of the list.
pub fn all_cards(cards: &Vec<Card>) -> (out: Vec<Card>)
    ensures
        out@ == cards@,
        played(out@, cards@),
{
    cards.clone()
}

/// How the values of a window of entries are judged.
#[derive(Clone, Copy, Debug, PartialEq, Eq, Structural)]
pub enum Fit {
    /// The last value lies at most one rank further from the first than in
    /// a row without gaps.
    Tight,
    /// The last value lies as far from the first as in a row without gaps.
    Exact,
    /// The values span at most five ranks, no two neighbours lie further
    /// apart than one rank left out, and at most one pair of neighbours
    /// leaves a rank out.
    OneGap,
}

/// How many rank a neighbour leaves out after the entry at `at`.
pub open spec fn gap_after(entries: Seq<Entry>, at: int) -> int {
    entries[at + 1].value - entries[at].value - 1
}

/// True when the `width` entries from `start` on fit.
pub open spec fn window_fits(entries: Seq<Entry>, start: int, width: int, fit: Fit) -> bool {
    let span = entries[start + width - 1].value - entries[start].value;
    match fit {
        Fit::Tight => span - (width - 1) <= 1,
        Fit::Exact => span == width - 1,
        Fit::OneGap => {
            &&& width == 4
            &&& span <= 5
            &&& 0 <= gap_after(entries, start) <= 1
            &&& 0 <= gap_after(entries, start + 1) <= 1
            &&& 0 <= gap_after(entries, start + 2) <= 1
            &&& gap_after(entries, start) + gap_after(entries, start + 1) + gap_after(
                entries,
                start + 2,
            ) <= 1
        },
    }
}

/// The first place from `from` on at which `width` entries fit.
pub open spec fn first_window(entries: Seq<Entry>, width: int, fit: Fit, from: int) -> Option<int>
    decreases entries.len() - from,
{
    if from < 0 || width < 1 || from + width > entries.len() {
        None
    } else if window_fits(entries, from, width, fit) {
        Some(from)
    } else {
        first_window(entries, width, fit, from + 1)
    }
}

/// Judges the `width` entries from `start` on.
pub fn fits(entries: &Vec<Entry>, start: usize, width: usize, fit: Fit) -> (good: bool)
    requires
        1 <= width,
        start + width <= entries@.len(),
    ensures
        good == window_fits(entries@, start as int, width as int, fit),
{
    let count = entries.len();
    assert(start + width <= count);
    let span = entries[start + width - 1].value as i64 - entries[start].value as i64;
    match fit {
        Fit::Tight => span as i128 - (width as i128 - 1) <= 1,
        Fit::Exact => span as i128 == width as i128 - 1,
        Fit::OneGap => {
            if width != 4 || span > 5 {
                return false;
            }
            let first = entries[start + 1].value as i64 - entries[start].value as i64 - 1;
            let second = entries[start + 2].value as i64 - entries[start + 1].value as i64 - 1;
            let third = entries[start + 3].value as i64 - entries[start + 2].value as i64 - 1;
            0 <= first && first <= 1 && 0 <= second && second <= 1 && 0 <= third && third <= 1
                && first + second + third <= 1
        },
    }
}

/// Finds the first place at which `width` entries fit; none where `width`
/// is 0.
pub fn find_first_window(entries: &Vec<Entry>, width: usize, fit: Fit) -> (found: Option<usize>)
    ensures
        match found {
            Some(start) => first_window(entries@, width as int, fit, 0) == Some(start as int)
                && start + width <= entries@.len(),
            None => first_window(entries@, width as int, fit, 0) is None,
        },
{
    if width == 0 || entries.len() < width {
        return None;
    }
    let last_start = entries.len() - width;
    let mut start: usize = 0;
    while start <= last_start
        invariant
            1 <= width,
            entries@.len() <= usize::MAX,
            last_start + width == entries@.len(),
            start <= last_start + 1,
            first_window(entries@, width as int, fit, 0) == first_window(
                entries@,
                width as int,
                fit,
                start as int,
            ),
        decreases last_start + 1 - start,
    {
        if fits(entries, start, width, fit) {
            return Some(start);
        }
        start += 1;
    }
    None
}

/// True when an entry of the list is an ace.
pub open spec fn has_ace(entries: Seq<Entry>) -> bool {
    exists|i: int| 0 <= i < entries.len() && (#[trigger] entries[i]).rank == ACE
}

/// The place among the cards of the first ace of the list; 0 where there
/// is none.
pub open spec fn first_ace_place(entries: Seq<Entry>) -> usize
    decreases entries.len(),
{
    if entries.len() == 0 {
        0
    } else if has_ace(entries.drop_last()) {
        first_ace_place(entries.drop_last())
    } else {
        entries.last().place
    }
}

/// The entries that are no aces.
pub open spec fn non_aces(entries: Seq<Entry>) -> Seq<Entry>
    decreases entries.len(),
{
    if entries.len() == 0 {
        entries
    } else if entries.last().rank == ACE {
        non_aces(entries.drop_last())
    } else {
        non_aces(entries.drop_last()).push(entries.last())
    }
}

/// The entries with the ace counted low: the first ace with the value 1,
/// and the entries that are no aces, in order of value.
pub open spec fn ace_low_entries(entries: Seq<Entry>) -> Seq<Entry> {
    sorted_entries(
        seq![Entry { place: first_ace_place(entries), rank: ACE, value: 1 }] + non_aces(entries),
    )
}

/// The five cards that make a straight with gaps: the first five ranks in
/// a row that leave out at most one rank, the ace counted high or, failing
/// that, low; the first five cards where there are none.
pub open spec fn shortcut_straight_cards(cards: Seq<Card>) -> Seq<Card> {
    let unique = dedup_entries(sorted_entries(entries_of(cards)), true);
    let low = ace_low_entries(unique);
    match first_window(unique, 5, Fit::Tight, 0) {
        Some(start) => entry_cards(cards, unique.subrange(start, start + 5)),
        None => if has_ace(unique) && first_window(low, 5, Fit::Tight, 0) is Some {
            entry_cards(
                cards,
                low.subrange(
                    first_window(low, 5, Fit::Tight, 0)->0,
                    first_window(low, 5, Fit::Tight, 0)->0 + 5,
                ),
            )
        } else {
            first_cards(cards, 5)
        },
    }
}

/// Looks for the first ace among the entries.
fn find_first_ace(entries: &Vec<Entry>) -> (found: Option<usize>)
    ensures
        found is Some == has_ace(entries@),
        found is Some ==> found->0 == first_ace_place(entries@),
{
    let mut i: usize = 0;
    while i < entries.len()
        invariant
            i <= entries@.len(),
            !has_ace(entries@.take(i as int)),
        decreases entries@.len() - i,
    {
        proof {
            assert(entries@.take(i + 1).drop_last() == entries@.take(i as int));
        }
        if entries[i].rank == ACE {
            proof {
                assert(entries@[i as int].rank == ACE);
                lemma_first_ace_prefix(entries@, i + 1);
            }
            return Some(entries[i].place);
        }
        proof {
            let now = entries@.take(i + 1);
            if has_ace(now) {
                let k = choose|k: int| 0 <= k < now.len() && (#[trigger] now[k]).rank == ACE;
                if k < i {
                    assert(entries@.take(i as int)[k].rank == ACE);
                }
            }
        }
        i += 1;
    }
    proof {
        assert(entries@.take(entries@.len() as int) == entries@);
    }
    None
}

/// The first ace among the first `k` entries, where there is one, is the
/// first ace among them all.
proof fn lemma_first_ace_prefix(entries: Seq<Entry>, k: int)
    requires
        1 <= k <= entries.len(),
        entries[k - 1].rank == ACE,
        !has_ace(entries.take(k - 1)),
    ensures
        has_ace(entries),
        first_ace_place(entries) == entries[k - 1].place,
    decreases entries.len() - k,
{
    assert(has_ace(entries));
    if k < entries.len() {
        let front = entries.drop_last();
        assert(front.take(k - 1) == entries.take(k - 1));
        assert(front[k - 1] == entries[k - 1]);
        lemma_first_ace_prefix(front, k);
    } else {
        assert(entries.drop_last() == entries.take(k - 1));
    }
}

/// The entries with the ace counted low.
fn low_ace_entries(entries: &Vec<Entry>, ace_place: usize) -> (out: Vec<Entry>)
    requires
        ace_place == first_ace_place(entries@),
    ensures
        out@ == ace_low_entries(entries@),
{
    let mut list: Vec<Entry> = Vec::new();
    list.push(Entry { place: ace_place, rank: ACE, value: 1 });
    let mut i: usize = 0;
    while i < entries.len()
        invariant
            i <= entries@.len(),
            list@ == seq![Entry { place: ace_place, rank: ACE, value: 1 }] + non_aces(
                entries@.take(i as int),
            ),
        decreases entries@.len() - i,
    {
        proof {
            assert(entries@.take(i + 1).drop_last() == entries@.take(i as int));
            assert(entries@.take(i + 1).last() == entries@[i as int]);
        }
        if entries[i].rank != ACE {
            list.push(entries[i]);
        }
        i += 1;
    }
    proof {
        assert(entries@.take(entries@.len() as int) == entries@);
    }
    sort_entries(&list)
}

/// The entries that are no aces have places below the bound where all
/// entries have, and so has the first ace.
proof fn lemma_ace_low_places(entries: Seq<Entry>, bound: nat)
    requires
        places_below(entries, bound),
        has_ace(entries),
    ensures
        places_below(ace_low_entries(entries), bound),
{
    lemma_non_aces_places(entries, bound);
    lemma_first_ace_in(entries, bound);
    let list = seq![Entry { place: first_ace_place(entries), rank: ACE, value: 1 }] + non_aces(
        entries,
    );
    assert forall|i: int| 0 <= i < list.len() implies (#[trigger] list[i]).place < bound by {
        if i > 0 {
            assert(list[i] == non_aces(entries)[i - 1]);
        }
    }
    lemma_sorted_entries(list, bound);
}

proof fn lemma_non_aces_places(entries: Seq<Entry>, bound: nat)
    requires
        places_below(entries, bound),
    ensures
        places_below(non_aces(entries), bound),
    decreases entries.len(),
{
    if entries.len() > 0 {
        let front = entries.drop_last();
        assert forall|i: int| 0 <= i < front.len() implies (#[trigger] front[i]).place < bound by {
            assert(front[i] == entries[i]);
        }
        lemma_non_aces_places(front, bound);
        assert(entries[entries.len() - 1].place < bound);
    }
}

proof fn lemma_first_ace_in(entries: Seq<Entry>, bound: nat)
    requires
        places_below(entries, bound),
        has_ace(entries),
    ensures
        first_ace_place(entries) < bound,
    decreases entries.len(),
{
    if entries.len() > 0 {
        let front = entries.drop_last();
        if has_ace(front) {
            assert forall|i: int| 0 <= i < front.len() implies (#[trigger] front[i]).place
                < bound by {
                assert(front[i] == entries[i]);
            }
            lemma_first_ace_in(front, bound);
        } else {
            assert(entries[entries.len() - 1].place < bound);
        }
    }
}

/// Picks the five cards that make a straight with gaps.
pub fn find_shortcut_straight_cards(cards: &Vec<Card>) -> (out: Vec<Card>)
    ensures
        out@ == shortcut_straight_cards(cards@),
        played(out@, cards@),
{
    let rank_info = sort_entries(&card_entries(cards));
    proof {
        lemma_sorted_entries(entries_of(cards@), cards@.len());
        lemma_dedup_entries(rank_info@, true, cards@.len());
    }
    let unique_rank_info = drop_repeated_entries(&rank_info, true);
    match find_first_window(&unique_rank_info, 5, Fit::Tight) {
        Some(start) => {
            return pick_window(cards, &unique_rank_info, start, 5);
        },
        None => {},
    }
    match find_first_ace(&unique_rank_info) {
        Some(ace_place) => {
            proof {
                lemma_ace_low_places(unique_rank_info@, cards@.len());
            }
            let low_ace_info = low_ace_entries(&unique_rank_info, ace_place);
            match find_first_window(&low_ace_info, 5, Fit::Tight) {
                Some(start) => {
                    return pick_window(cards, &low_ace_info, start, 5);
                },
                None => {},
            }
        },
        None => {},
    }
    take_first(cards, 5)
}

/// The four cards that make a straight: the first four neighbours in
/// order of chips whose chips span three; the first four cards where there
/// are none.
pub open spec fn four_card_straight_cards(cards: Seq<Card>) -> Seq<Card> {
    let sorted = sorted_entries(entries_of(cards));
    match first_window(sorted, 4, Fit::Exact, 0) {
        Some(start) => entry_cards(cards, sorted.subrange(start, start + 4)),
        None => first_cards(cards, 4),
    }
}

/// Picks the four cards that make a straight.
pub fn find_four_card_straight(cards: &Vec<Card>) -> (out: Vec<Card>)
    ensures
        out@ == four_card_straight_cards(cards@),
        played(out@, cards@),
{
    let rank_indices = sort_entries(&card_entries(cards));
    proof {
        lemma_sorted_entries(entries_of(cards@), cards@.len());
    }
    match find_first_window(&rank_indices, 4, Fit::Exact) {
        Some(start) => pick_window(cards, &rank_indices, start, 4),
        None => take_first(cards, 4),
    }
}

/// The four cards that make a straight with a gap: of the cards in order
/// of chips, one for each number of chips, the first four neighbours that
/// leave out at most one rank between them; the first four cards where
/// there are none.
pub open spec fn four_card_shortcut_straight_cards(cards: Seq<Card>) -> Seq<Card> {
    let unique = dedup_entries(sorted_entries(entries_of(cards)), false);
    match first_window(unique, 4, Fit::OneGap, 0) {
        Some(start) => entry_cards(cards, unique.subrange(start, start + 4)),
        None => first_cards(cards, 4),
    }
}

/// Picks the four cards that make a straight with a gap.
pub fn find_four_card_shortcut_straight(cards: &Vec<Card>) -> (out: Vec<Card>)
    ensures
        out@ == four_card_shortcut_straight_cards(cards@),
        played(out@, cards@),
{
    let rank_indices = sort_entries(&card_entries(cards));
    proof {
        lemma_sorted_entries(entries_of(cards@), cards@.len());
        lemma_dedup_entries(rank_indices@, false, cards@.len());
    }
    let unique_ranks = drop_repeated_entries(&rank_indices, false);
    match find_first_window(&unique_ranks, 4, Fit::OneGap) {
        Some(start) => pick_window(cards, &unique_ranks, start, 4),
        None => take_first(cards, 4),
    }
}

/// The first four cards of the first suit that four cards or more share;
/// no cards where there is none.
pub open spec fn four_card_flush_cards(cards: Seq<Card>, smeared: bool) -> Seq<Card> {
    let groups = suit_groups(cards, smeared);
    match first_group_at_least(groups, 4) {
        Some(place) => cards_at(cards, groups[place].1.take(4)),
        None => Seq::empty(),
    }
}

/// Picks the four cards that make a flush.
pub fn find_four_card_flush(cards: &Vec<Card>, smeared_joker_active: bool) -> (out: Vec<Card>)
    ensures
        out@ == four_card_flush_cards(cards@, smeared_joker_active),
        played(out@, cards@),
{
    let suit_groups = group_by_suit(cards, smeared_joker_active);
    match find_group(&suit_groups, 4, false) {
        Some(group) => pick(cards, &group.1, 4),
        None => Vec::new(),
    }
}

/// The cards of a straight with gaps within one suit: of the first suit
/// from place `from` of the suits on that five cards or more share and
/// whose cards make such a straight; no cards where there is none.
pub open spec fn shortcut_straight_flush_from(
    cards: Seq<Card>,
    groups: Seq<(u8, Seq<usize>)>,
    from: int,
) -> Seq<Card>
    decreases groups.len() - from,
{
    if from < 0 || from >= groups.len() {
        Seq::empty()
    } else if groups[from].1.len() >= 5 && spec_has_shortcut_straight(
        cards_at(cards, groups[from].1),
    ) {
        shortcut_straight_cards(cards_at(cards, groups[from].1))
    } else {
        shortcut_straight_flush_from(cards, groups, from + 1)
    }
}

/// The cards of a straight with gaps within one suit.
pub open spec fn shortcut_straight_flush_cards(cards: Seq<Card>, smeared: bool) -> Seq<Card> {
    shortcut_straight_flush_from(cards, suit_groups(cards, smeared), 0)
}

/// Picks the cards of a straight with gaps within one suit.
pub fn find_shortcut_straight_flush_cards(cards: &Vec<Card>, smeared_joker_active: bool) -> (out:
    Vec<Card>)
    ensures
        out@ == shortcut_straight_flush_cards(cards@, smeared_joker_active),
        played(out@, cards@),
{
    let suit_groups = group_by_suit(cards, smeared_joker_active);
    let total = group_count(&suit_groups);
    let ghost groups = groups_of(suit_groups);
    let mut i: usize = 0;
    while i < total
        invariant
            i <= total,
            total == groups.len(),
            groups == groups_of(suit_groups),
            groups == crate::poker::suit_groups(cards@, smeared_joker_active),
            groups_within(groups, cards@.len(), 3),
            shortcut_straight_flush_from(cards@, groups, 0) == shortcut_straight_flush_from(
                cards@,
                groups,
                i as int,
            ),
        decreases total - i,
    {
        let group = group_at(&suit_groups, i);
        if group.1.len() >= 5 {
            proof {
                assert(groups[i as int].1 == group.1@);
                assert(group.1@.take(group.1@.len() as int) == group.1@);
            }
            let suit_cards_vec = pick(cards, &group.1, group.1.len());
            if has_shortcut_straight(&suit_cards_vec) {
                return find_shortcut_straight_cards(&suit_cards_vec);
            }
        }
        i += 1;
    }
    Vec::new()
}

/// The place of the group with the highest key.
pub open spec fn highest_group(groups: Seq<(u8, Seq<usize>)>) -> int
    decreases groups.len(),
{
    if groups.len() <= 1 {
        0
    } else if groups.last().0 > groups[highest_group(groups.drop_last())].0 {
        groups.len() - 1
    } else {
        highest_group(groups.drop_last())
    }
}

/// The positions of all groups that hold exactly `size` positions, group
/// after group.
pub open spec fn members_of_size(groups: Seq<(u8, Seq<usize>)>, size: nat) -> Seq<usize>
    decreases groups.len(),
{
    if groups.len() == 0 {
        Seq::empty()
    } else if groups.last().1.len() == size {
        members_of_size(groups.drop_last(), size) + groups.last().1
    } else {
        members_of_size(groups.drop_last(), size)
    }
}

/// The suit that most of the cards that are not wild have; among suits
/// with equally many, the first of spades, hearts, clubs and diamonds.
/// None where all cards are wild.
pub open spec fn dominant_suit(cards: Seq<Card>) -> Option<Suit> {
    let spades = count_natural(cards, Suit::Spades);
    let hearts = count_natural(cards, Suit::Hearts);
    let clubs = count_natural(cards, Suit::Clubs);
    let diamonds = count_natural(cards, Suit::Diamonds);
    if spades + hearts + clubs + diamonds == 0 {
        None
    } else if spades >= hearts && spades >= clubs && spades >= diamonds {
        Some(Suit::Spades)
    } else if hearts >= clubs && hearts >= diamonds {
        Some(Suit::Hearts)
    } else if clubs >= diamonds {
        Some(Suit::Clubs)
    } else {
        Some(Suit::Diamonds)
    }
}

/// The cards that are wild or of the given suit; all cards where no suit
/// is given.
pub open spec fn suited_cards(cards: Seq<Card>, suit: Option<Suit>) -> Seq<Card>
    decreases cards.len(),
{
    if cards.len() == 0 {
        cards
    } else if suit is None || cards.last().spec_is_wild() || cards.last().suit == suit->0 {
        suited_cards(cards.drop_last(), suit).push(cards.last())
    } else {
        suited_cards(cards.drop_last(), suit)
    }
}

/// `base`, and after it the cards of `extra` that were not there before,
/// in their order.
pub open spec fn merged(base: Seq<Card>, extra: Seq<Card>) -> Seq<Card>
    decreases extra.len(),
{
    if extra.len() == 0 {
        base
    } else if merged(base, extra.drop_last()).contains(extra.last()) {
        merged(base, extra.drop_last())
    } else {
        merged(base, extra.drop_last()).push(extra.last())
    }
}

/// Finds the suit that most of the cards that are not wild have.
pub fn find_dominant_suit(cards: &Vec<Card>) -> (suit: Option<Suit>)
    ensures
        suit == dominant_suit(cards@),
{
    let mut spades: usize = 0;
    let mut hearts: usize = 0;
    let mut clubs: usize = 0;
    let mut diamonds: usize = 0;
    let mut i: usize = 0;
    while i < cards.len()
        invariant
            i <= cards@.len(),
            spades == count_natural(cards@.take(i as int), Suit::Spades),
            hearts == count_natural(cards@.take(i as int), Suit::Hearts),
            clubs == count_natural(cards@.take(i as int), Suit::Clubs),
            diamonds == count_natural(cards@.take(i as int), Suit::Diamonds),
            spades + hearts + clubs + diamonds <= i,
        decreases cards@.len() - i,
    {
        proof {
            assert(cards@.take(i + 1).drop_last() == cards@.take(i as int));
            assert(cards@.take(i + 1).last() == cards@[i as int]);
        }
        let card = &cards[i];
        if !card.is_wild() {
            match card.suit {
                Suit::Spades => {
                    spades += 1;
                },
                Suit::Hearts => {
                    hearts += 1;
                },
                Suit::Clubs => {
                    clubs += 1;
                },
                Suit::Diamonds => {
                    diamonds += 1;
                },
            }
        }
        i += 1;
    }
    proof {
        assert(cards@.take(cards@.len() as int) == cards@);
    }
    if spades + hearts + clubs + diamonds == 0 {
        None
    } else if spades >= hearts && spades >= clubs && spades >= diamonds {
        Some(Suit::Spades)
    } else if hearts >= clubs && hearts >= diamonds {
        Some(Suit::Hearts)
    } else if clubs >= diamonds {
        Some(Suit::Clubs)
    } else {
        Some(Suit::Diamonds)
    }
}

/// Picks the cards that are wild or of the given suit.
pub fn pick_suited(cards: &Vec<Card>, suit: Option<Suit>) -> (out: Vec<Card>)
    ensures
        out@ == suited_cards(cards@, suit),
        played(out@, cards@),
{
    proof {
        lemma_suited_cards_played(cards@, suit);
    }
    let mut out: Vec<Card> = Vec::new();
    let mut i: usize = 0;
    while i < cards.len()
        invariant
            i <= cards@.len(),
            out@ == suited_cards(cards@.take(i as int), suit),
        decreases cards@.len() - i,
    {
        proof {
            assert(cards@.take(i + 1).drop_last() == cards@.take(i as int));
            assert(cards@.take(i + 1).last() == cards@[i as int]);
        }
        let card = cards[i];
        let wanted = match suit {
            None => true,
            Some(dominant) => card.is_wild() || card.suit == dominant,
        };
        if wanted {
            out.push(card);
        }
        i += 1;
    }
    proof {
        assert(cards@.take(cards@.len() as int) == cards@);
    }
    out
}

/// True when the list holds the card.
pub fn has_card(cards: &Vec<Card>, card: &Card) -> (found: bool)
    ensures
        found == cards@.contains(*card),
{
    let mut i: usize = 0;
    while i < cards.len()
        invariant
            i <= cards@.len(),
            forall|j: int| 0 <= j < i ==> cards@[j] != *card,
        decreases cards@.len() - i,
    {
        if cards[i] == *card {
            return true;
        }
        i += 1;
    }
    false
}

/// Puts after `base` the cards of `extra` that it does not hold yet.
pub fn merge(base: Vec<Card>, extra: &Vec<Card>) -> (out: Vec<Card>)
    ensures
        out@ == merged(base@, extra@),
        forall|cards: Seq<Card>|
            played(base@, cards) && played(extra@, cards) ==> #[trigger] played(out@, cards),
{
    proof {
        assert forall|cards: Seq<Card>| played(base@, cards) && played(extra@, cards) implies played(
            merged(base@, extra@),
            cards,
        ) by {
            lemma_merged_played(base@, extra@, cards);
        }
    }
    let mut out = base;
    let mut i: usize = 0;
    while i < extra.len()
        invariant
            i <= extra@.len(),
            out@ == merged(base@, extra@.take(i as int)),
        decreases extra@.len() - i,
    {
        proof {
            assert(extra@.take(i + 1).drop_last() == extra@.take(i as int));
            assert(extra@.take(i + 1).last() == extra@[i as int]);
        }
        if !has_card(&out, &extra[i]) {
            out.push(extra[i]);
        }
        i += 1;
    }
    proof {
        assert(extra@.take(extra@.len() as int) == extra@);
    }
    out
}

/// The cards that score in a straight.
pub open spec fn straight_scoring(cards: Seq<Card>, four_fingers: bool, shortcut: bool) -> Seq<Card> {
    if shortcut {
        if spec_is_straight(cards) {
            cards
        } else if spec_has_shortcut_straight(cards) {
            shortcut_straight_cards(cards)
        } else if four_fingers && spec_has_four_card_shortcut_straight(cards) {
            four_card_shortcut_straight_cards(cards)
        } else if four_fingers && spec_has_four_card_straight(cards) {
            four_card_straight_cards(cards)
        } else {
            cards
        }
    } else if four_fingers && !spec_is_straight(cards) && spec_has_four_card_straight(cards) {
        four_card_straight_cards(cards)
    } else {
        cards
    }
}

/// The cards that score in a flush.
pub open spec fn flush_scoring(cards: Seq<Card>, four_fingers: bool, smeared: bool) -> Seq<Card> {
    if four_fingers && !spec_is_flush(cards, smeared) && spec_has_four_card_flush(cards, smeared) {
        match first_group_of(suit_groups(cards, smeared), 4) {
            Some(place) => cards_at(cards, suit_groups(cards, smeared)[place].1),
            None => Seq::empty(),
        }
    } else {
        cards
    }
}

/// The cards of a straight flush that belong to its flush, where four
/// cards are enough.
pub open spec fn flush_part(cards: Seq<Card>, smeared: bool) -> Seq<Card> {
    if spec_is_flush(cards, smeared) {
        suited_cards(cards, dominant_suit(cards))
    } else if spec_has_four_card_flush(cards, smeared) {
        four_card_flush_cards(cards, smeared)
    } else {
        Seq::empty()
    }
}

/// The cards of a straight flush that belong to its straight, where four
/// cards are enough.
pub open spec fn straight_part(cards: Seq<Card>, shortcut: bool) -> Seq<Card> {
    if spec_is_straight(cards) {
        cards
    } else if shortcut && spec_has_shortcut_straight(cards) {
        shortcut_straight_cards(cards)
    } else if spec_has_four_card_straight(cards) {
        four_card_straight_cards(cards)
    } else if shortcut && spec_has_four_card_shortcut_straight(cards) {
        four_card_shortcut_straight_cards(cards)
    } else {
        Seq::empty()
    }
}

/// The cards that score in a straight flush.
pub open spec fn straight_flush_scoring(
    cards: Seq<Card>,
    four_fingers: bool,
    shortcut: bool,
    smeared: bool,
) -> Seq<Card> {
    if four_fingers {
        let combined = merged(flush_part(cards, smeared), straight_part(cards, shortcut));
        if combined.len() > 0 {
            combined
        } else {
            cards
        }
    } else if shortcut && shortcut_straight_flush_cards(cards, smeared).len() == 5 {
        shortcut_straight_flush_cards(cards, smeared)
    } else {
        cards
    }
}

/// The cards that score: for a high card the first card of the highest
/// rank; for a pair, three or four of a kind the cards of the first rank
/// that has that many; for two pairs the cards of every rank that has two;
/// for a straight, a flush and a straight flush the cards that make it;
/// for every other hand all cards.
pub open spec fn scoring_cards_of(
    hand: PokerHand,
    cards: Seq<Card>,
    four_fingers: bool,
    shortcut: bool,
    smeared: bool,
) -> Seq<Card> {
    let ranks = rank_groups(cards);
    match hand {
        PokerHand::HighCard => if cards.len() == 0 {
            Seq::empty()
        } else {
            seq![cards[ranks[highest_group(ranks)].1[0] as int]]
        },
        PokerHand::Pair => match first_group_of(ranks, 2) {
            Some(place) => cards_at(cards, ranks[place].1),
            None => Seq::empty(),
        },
        PokerHand::TwoPair => cards_at(cards, members_of_size(ranks, 2)),
        PokerHand::ThreeOfAKind => match first_group_of(ranks, 3) {
            Some(place) => cards_at(cards, ranks[place].1),
            None => Seq::empty(),
        },
        PokerHand::FourOfAKind => match first_group_of(ranks, 4) {
            Some(place) => cards_at(cards, ranks[place].1),
            None => Seq::empty(),
        },
        PokerHand::Straight => straight_scoring(cards, four_fingers, shortcut),
        PokerHand::Flush => flush_scoring(cards, four_fingers, smeared),
        PokerHand::StraightFlush => straight_flush_scoring(cards, four_fingers, shortcut, smeared),
        _ => cards,
    }
}

/// Picks the first card of the highest rank.
fn highest_card(cards: &Vec<Card>) -> (out: Vec<Card>)
    ensures
        out@ == scoring_cards_of(PokerHand::HighCard, cards@, false, false, false),
        played(out@, cards@),
{
    let mut out: Vec<Card> = Vec::new();
    if cards.len() == 0 {
        return out;
    }
    let rank_map = group_by_rank(cards);
    let total = group_count(&rank_map);
    let ghost groups = groups_of(rank_map);
    proof {
        lemma_rank_groups_nonempty(cards@);
    }
    let first = group_at(&rank_map, 0);
    let mut best_key = first.0;
    let mut best_place = first.1[0];
    let mut i: usize = 1;
    proof {
        assert(groups.take(1).drop_last() == groups.take(0));
    }
    while i < total
        invariant
            1 <= i <= total,
            total == groups.len(),
            groups == groups_of(rank_map),
            groups_within(groups, cards@.len(), 12),
            best_key == groups[highest_group(groups.take(i as int))].0,
            best_place == groups[highest_group(groups.take(i as int))].1[0],
            0 <= highest_group(groups.take(i as int)) < i,
            best_place < cards@.len(),
        decreases total - i,
    {
        let group = group_at(&rank_map, i);
        proof {
            let now = groups.take(i + 1);
            assert(now.drop_last() == groups.take(i as int));
            assert(now.last() == groups[i as int]);
            assert(now[highest_group(groups.take(i as int))] == groups[highest_group(
                groups.take(i as int),
            )]);
        }
        if group.0 > best_key {
            best_key = group.0;
            best_place = group.1[0];
        }
        i += 1;
    }
    proof {
        assert(groups.take(groups.len() as int) == groups);
    }
    out.push(cards[best_place]);
    out
}

/// Cards of some rank make at least one group.
proof fn lemma_rank_groups_nonempty(cards: Seq<Card>)
    requires
        0 < cards.len() <= usize::MAX,
    ensures
        rank_groups(cards).len() > 0,
{
    let before = rank_groups(cards.drop_last());
    crate::groups::lemma_find_key(before, cards.last().rank.spec_ordinal());
}

/// Picks the cards of every rank that has exactly `size` cards.
fn cards_of_size(cards: &Vec<Card>, size: usize) -> (out: Vec<Card>)
    ensures
        out@ == cards_at(cards@, members_of_size(rank_groups(cards@), size as nat)),
        played(out@, cards@),
{
    let rank_map = group_by_rank(cards);
    let total = group_count(&rank_map);
    let ghost groups = groups_of(rank_map);
    let mut out: Vec<Card> = Vec::new();
    let mut i: usize = 0;
    while i < total
        invariant
            i <= total,
            total == groups.len(),
            groups == groups_of(rank_map),
            groups_within(groups, cards@.len(), 12),
            out@ == cards_at(cards@, members_of_size(groups.take(i as int), size as nat)),
            played(out@, cards@),
        decreases total - i,
    {
        let group = group_at(&rank_map, i);
        proof {
            assert(groups.take(i + 1).drop_last() == groups.take(i as int));
            assert(groups.take(i + 1).last() == groups[i as int]);
        }
        if group.1.len() == size {
            proof {
                assert(group.1@.take(group.1@.len() as int) == group.1@);
                assert(cards_at(
                    cards@,
                    members_of_size(groups.take(i as int), size as nat) + group.1@,
                ) == cards_at(cards@, members_of_size(groups.take(i as int), size as nat))
                    + cards_at(cards@, group.1@));
            }
            let mut more = pick(cards, &group.1, group.1.len());
            let ghost held = out@;
            let ghost picked = more@;
            out.append(&mut more);
            proof {
                assert forall|k: int| 0 <= k < out@.len() implies cards@.contains(
                    #[trigger] out@[k],
                ) by {
                    if k < held.len() {
                        assert(out@[k] == held[k]);
                    } else {
                        assert(out@[k] == picked[k - held.len()]);
                    }
                }
            }
        }
        i += 1;
    }
    proof {
        assert(groups.take(groups.len() as int) == groups);
    }
    out
}

/// Picks the cards of the first group of exactly `size` cards.
fn cards_of_first_group(cards: &Vec<Card>, map: &IndexMap<u8, Vec<usize>>, size: usize) -> (out:
    Vec<Card>)
    requires
        groups_within(groups_of(*map), cards@.len(), 12),
    ensures
        out@ == match first_group_of(groups_of(*map), size as nat) {
            Some(place) => cards_at(cards@, groups_of(*map)[place].1),
            None => Seq::empty(),
        },
        played(out@, cards@),
{
    match find_group(map, size, true) {
        Some(group) => {
            proof {
                assert(group.1@.take(group.1@.len() as int) == group.1@);
            }
            pick(cards, &group.1, group.1.len())
        },
        None => Vec::new(),
    }
}

/// Picks the cards that score in the given hand. Every card that scores
/// is one of the cards played.
pub fn get_scoring_cards(
    hand_type: &PokerHand,
    cards: &Vec<Card>,
    four_fingers_active: bool,
    shortcut_active: bool,
    smeared_joker_active: bool,
) -> (out: Vec<Card>)
    ensures
        out@ == scoring_cards_of(
            *hand_type,
            cards@,
            four_fingers_active,
            shortcut_active,
            smeared_joker_active,
        ),
        played(out@, cards@),
{
    match hand_type {
        PokerHand::HighCard => highest_card(cards),
        PokerHand::Pair => {
            let map = group_by_rank(cards);
            cards_of_first_group(cards, &map, 2)
        },
        PokerHand::TwoPair => cards_of_size(cards, 2),
        PokerHand::ThreeOfAKind => {
            let map = group_by_rank(cards);
            cards_of_first_group(cards, &map, 3)
        },
        PokerHand::FourOfAKind => {
            let map = group_by_rank(cards);
            cards_of_first_group(cards, &map, 4)
        },
        PokerHand::Straight => {
            if shortcut_active {
                if is_straight(cards) {
                    all_cards(cards)
                } else if has_shortcut_straight(cards) {
                    find_shortcut_straight_cards(cards)
                } else if four_fingers_active && has_four_card_shortcut_straight(cards) {
                    find_four_card_shortcut_straight(cards)
                } else if four_fingers_active && has_four_card_straight(cards) {
                    find_four_card_straight(cards)
                } else {
                    all_cards(cards)
                }
            } else if four_fingers_active && !is_straight(cards) && has_four_card_straight(cards) {
                find_four_card_straight(cards)
            } else {
                all_cards(cards)
            }
        },
        PokerHand::Flush => {
            if four_fingers_active && !is_flush(cards, smeared_joker_active) && has_four_card_flush(
                cards,
                smeared_joker_active,
            ) {
                let suit_groups = group_by_suit(cards, smeared_joker_active);
                match find_group(&suit_groups, 4, true) {
                    Some(group) => {
                        proof {
                            assert(group.1@.take(group.1@.len() as int) == group.1@);
                        }
                        pick(cards, &group.1, group.1.len())
                    },
                    None => Vec::new(),
                }
            } else {
                all_cards(cards)
            }
        },
        PokerHand::StraightFlush => {
            if four_fingers_active {
                let flush_cards = if is_flush(cards, smeared_joker_active) {
                    pick_suited(cards, find_dominant_suit(cards))
                } else if has_four_card_flush(cards, smeared_joker_active) {
                    find_four_card_flush(cards, smeared_joker_active)
                } else {
                    Vec::new()
                };
                let straight_cards = if is_straight(cards) {
                    all_cards(cards)
                } else if shortcut_active && has_shortcut_straight(cards) {
                    find_shortcut_straight_cards(cards)
                } else if has_four_card_straight(cards) {
                    find_four_card_straight(cards)
                } else if shortcut_active && has_four_card_shortcut_straight(cards) {
                    find_four_card_shortcut_straight(cards)
                } else {
                    Vec::new()
                };
                let combined_cards = merge(flush_cards, &straight_cards);
                if combined_cards.len() > 0 {
                    return combined_cards;
                }
                return all_cards(cards);
            }
            if shortcut_active {
                let found = find_shortcut_straight_flush_cards(cards, smeared_joker_active);
                if found.len() == 5 {
                    return found;
                }
            }
            all_cards(cards)
        },
        _ => all_cards(cards),
    }
}

/// The places of the cards of a rank, in order.
pub open spec fn places_of_rank(cards: Seq<Card>, rank: u8) -> Seq<usize>
    decreases cards.len(),
{
    if cards.len() == 0 {
        Seq::empty()
    } else if cards.last().rank.spec_ordinal() == rank {
        places_of_rank(cards.drop_last(), rank).push((cards.len() - 1) as usize)
    } else {
        places_of_rank(cards.drop_last(), rank)
    }
}

/// True when the card counts as a card of the suit: it is wild, it is of
/// the suit, or suits of one colour count as the same and it is of the
/// other suit of that colour.
pub open spec fn counts_as_suit(card: Card, suit: u8, smeared: bool) -> bool {
    card.spec_is_wild() || card.suit.spec_ordinal() == suit || (smeared
        && card.suit.spec_other_suit_of_same_color().spec_ordinal() == suit)
}

/// The places of the cards that count as cards of a suit, in order.
pub open spec fn places_of_suit(cards: Seq<Card>, suit: u8, smeared: bool) -> Seq<usize>
    decreases cards.len(),
{
    if cards.len() == 0 {
        Seq::empty()
    } else if suit <= 3 && counts_as_suit(cards.last(), suit, smeared) {
        places_of_suit(cards.drop_last(), suit, smeared).push((cards.len() - 1) as usize)
    } else {
        places_of_suit(cards.drop_last(), suit, smeared)
    }
}

/// The groups by rank are the cards of each rank: under every rank stand
/// the places of the cards of that rank, and no two groups have the same
/// rank.
pub proof fn lemma_rank_groups_are_ranks(cards: Seq<Card>, rank: u8)
    ensures
        distinct_keys(rank_groups(cards)),
        members(rank_groups(cards), rank) == places_of_rank(cards, rank),
    decreases cards.len(),
{
    if cards.len() > 0 {
        lemma_rank_groups_are_ranks(cards.drop_last(), rank);
        lemma_with_member_members(
            rank_groups(cards.drop_last()),
            cards.last().rank.spec_ordinal(),
            (cards.len() - 1) as usize,
            rank,
        );
    }
}

/// The groups by suit are the cards of each suit: under every suit stand
/// the places of the cards that count as cards of that suit, and no two
/// groups have the same suit.
pub proof fn lemma_suit_groups_are_suits(cards: Seq<Card>, smeared: bool, suit: u8)
    ensures
        distinct_keys(suit_groups(cards, smeared)),
        members(suit_groups(cards, smeared), suit) == places_of_suit(cards, suit, smeared),
    decreases cards.len(),
{
    if cards.len() > 0 {
        lemma_suit_groups_are_suits(cards.drop_last(), smeared, suit);
        let before = suit_groups(cards.drop_last(), smeared);
        let card = cards.last();
        let place = (cards.len() - 1) as usize;
        if card.spec_is_wild() {
            let a = with_member(before, Suit::Clubs.spec_ordinal(), place);
            lemma_with_member_members(before, Suit::Clubs.spec_ordinal(), place, suit);
            let b = with_member(a, Suit::Diamonds.spec_ordinal(), place);
            lemma_with_member_members(a, Suit::Diamonds.spec_ordinal(), place, suit);
            let c = with_member(b, Suit::Hearts.spec_ordinal(), place);
            lemma_with_member_members(b, Suit::Hearts.spec_ordinal(), place, suit);
            lemma_with_member_members(c, Suit::Spades.spec_ordinal(), place, suit);
        } else if smeared {
            let a = with_member(before, card.suit.spec_ordinal(), place);
            lemma_with_member_members(before, card.suit.spec_ordinal(), place, suit);
            lemma_with_member_members(
                a,
                card.suit.spec_other_suit_of_same_color().spec_ordinal(),
                place,
                suit,
            );
        } else {
            lemma_with_member_members(before, card.suit.spec_ordinal(), place, suit);
        }
    }
}

/// A flush is five cards or more of which five count as cards of one suit,
/// and a flush of four cards is four cards or more of which four do.
pub proof fn lemma_flush_is_five_of_a_suit(cards: Seq<Card>, smeared: bool)
    ensures
        spec_is_flush(cards, smeared) <==> cards.len() >= 5 && exists|suit: u8| #[trigger]
            places_of_suit(cards, suit, smeared).len() >= 5,
        spec_has_four_card_flush(cards, smeared) <==> cards.len() >= 4 && exists|suit: u8| #[trigger]
            places_of_suit(cards, suit, smeared).len() >= 4,
{
    let groups = suit_groups(cards, smeared);
    lemma_suit_groups_are_suits(cards, smeared, 0);
    lemma_groups_by_members(groups, 5);
    lemma_groups_by_members(groups, 4);
    assert forall|suit: u8| #[trigger] members(groups, suit) == places_of_suit(cards, suit, smeared) by {
        lemma_suit_groups_are_suits(cards, smeared, suit);
    }
    if exists|suit: u8| #[trigger] places_of_suit(cards, suit, smeared).len() >= 5 {
        let suit = choose|suit: u8| #[trigger] places_of_suit(cards, suit, smeared).len() >= 5;
        assert(members(groups, suit).len() >= 5);
    }
    if exists|suit: u8| #[trigger] places_of_suit(cards, suit, smeared).len() >= 4 {
        let suit = choose|suit: u8| #[trigger] places_of_suit(cards, suit, smeared).len() >= 4;
        assert(members(groups, suit).len() >= 4);
    }
    if exists|suit: u8| #[trigger] members(groups, suit).len() >= 5 {
        let suit = choose|suit: u8| #[trigger] members(groups, suit).len() >= 5;
        assert(places_of_suit(cards, suit, smeared).len() >= 5);
    }
    if exists|suit: u8| #[trigger] members(groups, suit).len() >= 4 {
        let suit = choose|suit: u8| #[trigger] members(groups, suit).len() >= 4;
        assert(places_of_suit(cards, suit, smeared).len() >= 4);
    }
}

/// The cards contain a pair, three of a kind or four of a kind exactly
/// when some rank has that many cards or more.
pub proof fn lemma_kinds_are_cards_of_a_rank(cards: Seq<Card>, size: nat)
    requires
        size >= 1,
    ensures
        any_group_at_least(rank_groups(cards), size) <==> exists|rank: u8| #[trigger]
            places_of_rank(cards, rank).len() >= size,
{
    let groups = rank_groups(cards);
    lemma_rank_groups_are_ranks(cards, 0);
    lemma_groups_by_members(groups, size);
    assert forall|rank: u8| #[trigger] members(groups, rank) == places_of_rank(cards, rank) by {
        lemma_rank_groups_are_ranks(cards, rank);
    }
    if exists|rank: u8| #[trigger] places_of_rank(cards, rank).len() >= size {
        let rank = choose|rank: u8| #[trigger] places_of_rank(cards, rank).len() >= size;
        assert(members(groups, rank).len() >= size);
    }
    if exists|rank: u8| #[trigger] members(groups, rank).len() >= size {
        let rank = choose|rank: u8| #[trigger] members(groups, rank).len() >= size;
        assert(places_of_rank(cards, rank).len() >= size);
    }
}

} // verus!

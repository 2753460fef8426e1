//! Cards sorted into groups under small keys, the groups in the order in
//! which their keys first came up, kept in an insertion-ordered hash map.

use indexmap::IndexMap;
use vstd::prelude::*;

verus! {

#[verifier::external_type_specification]
#[verifier::external_body]
#[verifier::reject_recursive_types(K)]
#[verifier::reject_recursive_types(V)]
#[verifier::reject_recursive_types(S)]
pub struct ExIndexMap<K, V, S>(IndexMap<K, V, S>);

/// What a map of groups holds: its keys in the order in which they were
/// first used, each with the positions filed under it, in the order in
/// which they were filed.
pub uninterp spec fn groups_of(map: IndexMap<u8, Vec<usize>>) -> Seq<(u8, Seq<usize>)>;

/// The place of the group with the given key, if there is one.
pub open spec fn find_key(groups: Seq<(u8, Seq<usize>)>, key: u8) -> Option<int>
    decreases groups.len(),
{
    if groups.len() == 0 {
        None
    } else {
        match find_key(groups.drop_last(), key) {
            Some(i) => Some(i),
            None => if groups.last().0 == key {
                Some(groups.len() - 1)
            } else {
                None
            },
        }
    }
}

/// The groups after `position` has been filed under `key`: at the end of
/// the group with that key, or, where there is none, in a new group at the
/// end.
pub open spec fn with_member(groups: Seq<(u8, Seq<usize>)>, key: u8, position: usize) -> Seq<
    (u8, Seq<usize>),
> {
    match find_key(groups, key) {
        Some(i) => groups.update(i, (key, groups[i].1.push(position))),
        None => groups.push((key, seq![position])),
    }
}

/// `IndexMap::new`. The contract claims that the new map holds no group.
#[verifier::external_body]
pub(crate) fn new_groups() -> (map: IndexMap<u8, Vec<usize>>)
    ensures
        groups_of(map) == (Seq::<(u8, Seq<usize>)>::empty()),
{
    IndexMap::new()
}

/// `IndexMap::entry` and `Entry::or_default`, and a push onto the list that
/// they give. The contract claims that the position is filed under the key
/// as `with_member` says: the map keeps the order in which keys were first
/// used.
#[verifier::external_body]
pub(crate) fn add_to_group(map: &mut IndexMap<u8, Vec<usize>>, key: u8, position: usize)
    ensures
        groups_of(*final(map)) == with_member(groups_of(*old(map)), key, position),
{
    map.entry(key).or_default().push(position);
}

/// `IndexMap::len`. The contract claims that it counts the groups.
#[verifier::external_body]
pub(crate) fn group_count(map: &IndexMap<u8, Vec<usize>>) -> (count: usize)
    ensures
        count == groups_of(*map).len(),
{
    map.len()
}

/// `IndexMap::get_index`. The contract claims that it gives the group at
/// the given place of the order, with its key.
#[verifier::external_body]
pub(crate) fn group_at(map: &IndexMap<u8, Vec<usize>>, index: usize) -> (group: (u8, Vec<usize>))
    requires
        index < groups_of(*map).len(),
    ensures
        group.0 == groups_of(*map)[index as int].0,
        group.1@ == groups_of(*map)[index as int].1,
{
    let (key, members) = map.get_index(index).unwrap();
    (*key, members.clone())
}

/// Every group has a key of at most `max_key` and holds at least one
/// position, all of them below `bound`.
pub open spec fn groups_within(groups: Seq<(u8, Seq<usize>)>, bound: nat, max_key: u8) -> bool {
    forall|i: int|
        0 <= i < groups.len() ==> {
            &&& (#[trigger] groups[i]).0 <= max_key
            &&& groups[i].1.len() > 0
            &&& forall|j: int| 0 <= j < groups[i].1.len() ==> #[trigger] groups[i].1[j] < bound
        }
}

/// The place that `find_key` gives is the place of a group with that key.
pub proof fn lemma_find_key(groups: Seq<(u8, Seq<usize>)>, key: u8)
    ensures
        match find_key(groups, key) {
            Some(i) => 0 <= i < groups.len() && groups[i].0 == key,
            None => forall|i: int| 0 <= i < groups.len() ==> (#[trigger] groups[i]).0 != key,
        },
    decreases groups.len(),
{
    if groups.len() > 0 {
        lemma_find_key(groups.drop_last(), key);
        if find_key(groups.drop_last(), key) is None {
            assert forall|i: int| 0 <= i < groups.len() - 1 implies (#[trigger] groups[i]).0
                != key by {
                assert(groups.drop_last()[i] == groups[i]);
            }
        } else {
            let i = find_key(groups.drop_last(), key)->0;
            assert(groups.drop_last()[i] == groups[i]);
        }
    }
}

/// Filing a position below the bound under a key of at most `max_key` keeps
/// the groups within bounds, and adds at most one group.
pub proof fn lemma_with_member_within(
    groups: Seq<(u8, Seq<usize>)>,
    key: u8,
    position: usize,
    bound: nat,
    max_key: u8,
)
    requires
        groups_within(groups, bound, max_key),
        position < bound,
        key <= max_key,
    ensures
        groups_within(with_member(groups, key, position), bound, max_key),
        groups.len() <= with_member(groups, key, position).len() <= groups.len() + 1,
{
    lemma_find_key(groups, key);
    let after = with_member(groups, key, position);
    assert forall|i: int| 0 <= i < after.len() implies {
        &&& (#[trigger] after[i]).0 <= max_key
        &&& after[i].1.len() > 0
        &&& forall|j: int| 0 <= j < after[i].1.len() ==> #[trigger] after[i].1[j] < bound
    } by {
        match find_key(groups, key) {
            Some(k) => {
                if i != k {
                    assert(after[i] == groups[i]);
                } else {
                    assert forall|j: int| 0 <= j < after[i].1.len() implies #[trigger] after[i].1[j]
                        < bound by {
                        if j < groups[k].1.len() {
                            assert(after[i].1[j] == groups[k].1[j]);
                        }
                    }
                }
            },
            None => {
                if i < groups.len() {
                    assert(after[i] == groups[i]);
                }
            },
        }
    }
}

/// True when some group holds at least `size` positions.
pub open spec fn any_group_at_least(groups: Seq<(u8, Seq<usize>)>, size: nat) -> bool {
    exists|i: int| 0 <= i < groups.len() && (#[trigger] groups[i]).1.len() >= size
}

/// True when some group holds exactly `size` positions.
pub open spec fn any_group_of(groups: Seq<(u8, Seq<usize>)>, size: nat) -> bool {
    exists|i: int| 0 <= i < groups.len() && (#[trigger] groups[i]).1.len() == size
}

/// How many groups hold exactly `size` positions.
pub open spec fn count_groups_of(groups: Seq<(u8, Seq<usize>)>, size: nat) -> nat
    decreases groups.len(),
{
    if groups.len() == 0 {
        0
    } else {
        count_groups_of(groups.drop_last(), size) + if groups.last().1.len() == size {
            1nat
        } else {
            0nat
        }
    }
}

/// How many groups hold at least `size` positions.
pub open spec fn count_groups_at_least(groups: Seq<(u8, Seq<usize>)>, size: nat) -> nat
    decreases groups.len(),
{
    if groups.len() == 0 {
        0
    } else {
        count_groups_at_least(groups.drop_last(), size) + if groups.last().1.len() >= size {
            1nat
        } else {
            0nat
        }
    }
}

/// The place of the first group that holds exactly `size` positions.
pub open spec fn first_group_of(groups: Seq<(u8, Seq<usize>)>, size: nat) -> Option<int>
    decreases groups.len(),
{
    if groups.len() == 0 {
        None
    } else {
        match first_group_of(groups.drop_last(), size) {
            Some(i) => Some(i),
            None => if groups.last().1.len() == size {
                Some(groups.len() - 1)
            } else {
                None
            },
        }
    }
}

/// The place of the first group that holds at least `size` positions.
pub open spec fn first_group_at_least(groups: Seq<(u8, Seq<usize>)>, size: nat) -> Option<int>
    decreases groups.len(),
{
    if groups.len() == 0 {
        None
    } else {
        match first_group_at_least(groups.drop_last(), size) {
            Some(i) => Some(i),
            None => if groups.last().1.len() >= size {
                Some(groups.len() - 1)
            } else {
                None
            },
        }
    }
}

/// Finds the first group that holds exactly `size` positions (where `exact`
/// is set) or at least `size` positions (where it is not).
pub fn find_group(map: &IndexMap<u8, Vec<usize>>, size: usize, exact: bool) -> (found: Option<
    (u8, Vec<usize>),
>)
    ensures
        match found {
            Some(group) => {
                let place = if exact {
                    first_group_of(groups_of(*map), size as nat)
                } else {
                    first_group_at_least(groups_of(*map), size as nat)
                };
                &&& place is Some
                &&& 0 <= place->0 < groups_of(*map).len()
                &&& group.0 == groups_of(*map)[place->0].0
                &&& group.1@ == groups_of(*map)[place->0].1
                &&& if exact {
                    group.1@.len() == size
                } else {
                    group.1@.len() >= size
                }
            },
            None => if exact {
                first_group_of(groups_of(*map), size as nat) is None && !any_group_of(
                    groups_of(*map),
                    size as nat,
                )
            } else {
                first_group_at_least(groups_of(*map), size as nat) is None && !any_group_at_least(
                    groups_of(*map),
                    size as nat,
                )
            },
        },
        found is Some == if exact {
            any_group_of(groups_of(*map), size as nat)
        } else {
            any_group_at_least(groups_of(*map), size as nat)
        },
{
    let count = group_count(map);
    let ghost groups = groups_of(*map);
    let mut i: usize = 0;
    while i < count
        invariant
            i <= count,
            count == groups.len(),
            groups == groups_of(*map),
            first_group_of(groups.take(i as int), size as nat) is None,
            first_group_at_least(groups.take(i as int), size as nat) is None || exact,
            first_group_of(groups.take(i as int), size as nat) is None || !exact,
            forall|k: int|
                0 <= k < i ==> if exact {
                    (#[trigger] groups[k]).1.len() != size
                } else {
                    groups[k].1.len() < size
                },
        decreases count - i,
    {
        let group = group_at(map, i);
        proof {
            assert(groups.take(i + 1).drop_last() == groups.take(i as int));
            assert(groups.take(i + 1).last() == groups[i as int]);
        }
        let hit = if exact {
            group.1.len() == size
        } else {
            group.1.len() >= size
        };
        if hit {
            proof {
                lemma_first_group_prefix(groups, i + 1, size as nat, exact);
            }
            return Some(group);
        }
        i += 1;
    }
    proof {
        assert(groups.take(groups.len() as int) == groups);
    }
    None
}

/// The first group of the size among the first `k` groups, where there is
/// one, is the first group of the size among them all.
pub proof fn lemma_first_group_prefix(
    groups: Seq<(u8, Seq<usize>)>,
    k: int,
    size: nat,
    exact: bool,
)
    requires
        0 <= k <= groups.len(),
        if exact {
            first_group_of(groups.take(k), size) is Some
        } else {
            first_group_at_least(groups.take(k), size) is Some
        },
    ensures
        if exact {
            first_group_of(groups, size) == first_group_of(groups.take(k), size)
        } else {
            first_group_at_least(groups, size) == first_group_at_least(groups.take(k), size)
        },
    decreases groups.len() - k,
{
    if k < groups.len() {
        assert(groups.take(k + 1).drop_last() == groups.take(k));
        lemma_first_group_prefix(groups, k + 1, size, exact);
    } else {
        assert(groups.take(k) == groups);
    }
}

/// Counts the groups that hold exactly `size` positions (where `exact` is
/// set) or at least `size` positions (where it is not).
pub fn count_groups(map: &IndexMap<u8, Vec<usize>>, size: usize, exact: bool) -> (count: usize)
    ensures
        count == if exact {
            count_groups_of(groups_of(*map), size as nat)
        } else {
            count_groups_at_least(groups_of(*map), size as nat)
        },
{
    let total = group_count(map);
    let ghost groups = groups_of(*map);
    let mut count: usize = 0;
    let mut i: usize = 0;
    while i < total
        invariant
            i <= total,
            total == groups.len(),
            groups == groups_of(*map),
            count <= i,
            count == if exact {
                count_groups_of(groups.take(i as int), size as nat)
            } else {
                count_groups_at_least(groups.take(i as int), size as nat)
            },
        decreases total - i,
    {
        let group = group_at(map, i);
        proof {
            assert(groups.take(i + 1).drop_last() == groups.take(i as int));
            assert(groups.take(i + 1).last() == groups[i as int]);
        }
        let hit = if exact {
            group.1.len() == size
        } else {
            group.1.len() >= size
        };
        if hit {
            count += 1;
        }
        i += 1;
    }
    proof {
        assert(groups.take(groups.len() as int) == groups);
    }
    count
}

/// No two groups have the same key.
pub open spec fn distinct_keys(groups: Seq<(u8, Seq<usize>)>) -> bool {
    forall|i: int, j: int|
        0 <= i < groups.len() && 0 <= j < groups.len() && i != j ==> (#[trigger] groups[i]).0
            != (#[trigger] groups[j]).0
}

/// The positions filed under a key; none where no group has the key.
pub open spec fn members(groups: Seq<(u8, Seq<usize>)>, key: u8) -> Seq<usize> {
    match find_key(groups, key) {
        Some(i) => groups[i].1,
        None => Seq::empty(),
    }
}

/// Where no two groups have the same key, the place of a key is the place
/// of the group that has it.
pub proof fn lemma_find_key_at(groups: Seq<(u8, Seq<usize>)>, i: int)
    requires
        distinct_keys(groups),
        0 <= i < groups.len(),
    ensures
        find_key(groups, groups[i].0) == Some(i),
    decreases groups.len(),
{
    let front = groups.drop_last();
    let key = groups[i].0;
    if i < groups.len() - 1 {
        assert forall|a: int, b: int|
            0 <= a < front.len() && 0 <= b < front.len() && a != b implies (#[trigger] front[a]).0
            != (#[trigger] front[b]).0 by {
            assert(front[a] == groups[a] && front[b] == groups[b]);
        }
        assert(front[i] == groups[i]);
        lemma_find_key_at(front, i);
    } else {
        lemma_find_key(front, key);
        if find_key(front, key) is Some {
            let j = find_key(front, key)->0;
            assert(front[j] == groups[j]);
            assert(groups[j].0 == groups[i].0);
        }
    }
}

/// Filing a position under a key adds it to the members of that key and
/// leaves the members of every other key as they are; and no two groups
/// come to have the same key.
pub proof fn lemma_with_member_members(
    groups: Seq<(u8, Seq<usize>)>,
    key: u8,
    position: usize,
    other: u8,
)
    requires
        distinct_keys(groups),
    ensures
        distinct_keys(with_member(groups, key, position)),
        members(with_member(groups, key, position), other) == if other == key {
            members(groups, other).push(position)
        } else {
            members(groups, other)
        },
{
    let after = with_member(groups, key, position);
    lemma_find_key(groups, key);
    lemma_find_key(groups, other);
    assert forall|a: int, b: int|
        0 <= a < after.len() && 0 <= b < after.len() && a != b implies (#[trigger] after[a]).0
        != (#[trigger] after[b]).0 by {
        match find_key(groups, key) {
            Some(k) => {
                assert(after[a].0 == groups[a].0);
                assert(after[b].0 == groups[b].0);
            },
            None => {
                if a < groups.len() {
                    assert(after[a] == groups[a]);
                }
                if b < groups.len() {
                    assert(after[b] == groups[b]);
                }
            },
        }
    }
    lemma_find_key(after, other);
    match find_key(groups, key) {
        Some(k) => {
            match find_key(groups, other) {
                Some(o) => {
                    assert(after[o].0 == other);
                    lemma_find_key_at(after, o);
                },
                None => {
                    if find_key(after, other) is Some {
                        let o = find_key(after, other)->0;
                        assert(after[o].0 == groups[o].0);
                    }
                },
            }
        },
        None => {
            match find_key(groups, other) {
                Some(o) => {
                    assert(after[o] == groups[o]);
                    lemma_find_key_at(after, o);
                },
                None => {
                    if other == key {
                        lemma_find_key_at(after, groups.len() as int);
                    } else if find_key(after, other) is Some {
                        let o = find_key(after, other)->0;
                        if o < groups.len() {
                            assert(after[o] == groups[o]);
                        }
                    }
                },
            }
        },
    }
}

/// Where no two groups have the same key and no group is empty, some group
/// holds at least `size` positions exactly when some key has that many
/// members; and likewise for exactly `size` positions.
pub proof fn lemma_groups_by_members(groups: Seq<(u8, Seq<usize>)>, size: nat)
    requires
        distinct_keys(groups),
        size >= 1,
    ensures
        any_group_at_least(groups, size) <==> exists|key: u8| #[trigger]
            members(groups, key).len() >= size,
        any_group_of(groups, size) <==> exists|key: u8| #[trigger]
            members(groups, key).len() == size,
{
    if any_group_at_least(groups, size) {
        let i = choose|i: int| 0 <= i < groups.len() && (#[trigger] groups[i]).1.len() >= size;
        lemma_find_key_at(groups, i);
        assert(members(groups, groups[i].0).len() >= size);
    }
    if any_group_of(groups, size) {
        let i = choose|i: int| 0 <= i < groups.len() && (#[trigger] groups[i]).1.len() == size;
        lemma_find_key_at(groups, i);
        assert(members(groups, groups[i].0).len() == size);
    }
    if exists|key: u8| #[trigger] members(groups, key).len() >= size {
        let key = choose|key: u8| #[trigger] members(groups, key).len() >= size;
        lemma_find_key(groups, key);
        let i = find_key(groups, key)->0;
        assert(groups[i].1.len() >= size);
    }
    if exists|key: u8| #[trigger] members(groups, key).len() == size {
        let key = choose|key: u8| #[trigger] members(groups, key).len() == size;
        lemma_find_key(groups, key);
        let i = find_key(groups, key)->0;
        assert(groups[i].1.len() == size);
    }
}

} // verus!

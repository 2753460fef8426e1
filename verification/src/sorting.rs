//! Sorting small lists of numbers and dropping repeats from sorted lists.

use vstd::prelude::*;

verus! {

/// `s`, which is in order, with `x` put after the last element that is not
/// larger.
pub open spec fn insert_sorted(s: Seq<i32>, x: i32) -> Seq<i32>
    decreases s.len(),
{
    if s.len() == 0 {
        seq![x]
    } else if s.last() <= x {
        s.push(x)
    } else {
        insert_sorted(s.drop_last(), x).push(s.last())
    }
}

/// The elements of `s` from the smallest to the largest.
pub open spec fn sorted(s: Seq<i32>) -> Seq<i32>
    decreases s.len(),
{
    if s.len() == 0 {
        s
    } else {
        insert_sorted(sorted(s.drop_last()), s.last())
    }
}

/// True when no element is larger than the one after it.
pub open spec fn ascending(s: Seq<i32>) -> bool {
    forall|i: int, j: int| 0 <= i <= j < s.len() ==> s[i] <= s[j]
}

/// `s` with each run of equal neighbours cut down to one element.
pub open spec fn dedup(s: Seq<i32>) -> Seq<i32>
    decreases s.len(),
{
    if s.len() == 0 {
        s
    } else if dedup(s.drop_last()).len() > 0 && dedup(s.drop_last()).last() == s.last() {
        dedup(s.drop_last())
    } else {
        dedup(s.drop_last()).push(s.last())
    }
}

/// Inserting keeps order, adds one element, and keeps what was there.
pub proof fn lemma_insert_sorted(s: Seq<i32>, x: i32)
    requires
        ascending(s),
    ensures
        ascending(insert_sorted(s, x)),
        insert_sorted(s, x).len() == s.len() + 1,
        forall|y: i32| #[trigger] insert_sorted(s, x).contains(y) <==> s.contains(y) || y == x,
    decreases s.len(),
{
    let r = insert_sorted(s, x);
    if s.len() == 0 {
        assert(r[0] == x);
        assert forall|y: i32| #[trigger] r.contains(y) <==> s.contains(y) || y == x by {
            if r.contains(y) {
                let i = choose|i: int| 0 <= i < r.len() && r[i] == y;
            }
        }
    } else if s.last() <= x {
        assert forall|i: int, j: int| 0 <= i <= j < r.len() implies r[i] <= r[j] by {
            if j == s.len() {
                if i < s.len() {
                    assert(s[i] <= s[s.len() - 1]);
                }
            }
        }
        assert forall|y: i32| #[trigger] r.contains(y) <==> s.contains(y) || y == x by {
            if r.contains(y) {
                let i = choose|i: int| 0 <= i < r.len() && r[i] == y;
                if i < s.len() {
                    assert(s[i] == y);
                }
            }
            if s.contains(y) {
                let i = choose|i: int| 0 <= i < s.len() && s[i] == y;
                assert(r[i] == y);
            }
            if y == x {
                assert(r[s.len() as int] == y);
            }
        }
    } else {
        let front = s.drop_last();
        assert(ascending(front)) by {
            assert forall|i: int, j: int| 0 <= i <= j < front.len() implies front[i]
                <= front[j] by {
                assert(front[i] == s[i] && front[j] == s[j]);
            }
        }
        lemma_insert_sorted(front, x);
        let inner = insert_sorted(front, x);
        assert forall|i: int, j: int| 0 <= i <= j < r.len() implies r[i] <= r[j] by {
            if j == inner.len() {
                if i < inner.len() {
                    assert(inner.contains(inner[i]));
                    if inner[i] != x {
                        assert(front.contains(inner[i]));
                        let k = choose|k: int| 0 <= k < front.len() && front[k] == inner[i];
                        assert(s[k] <= s[s.len() - 1]);
                    }
                }
            } else {
                assert(inner[i] <= inner[j]);
            }
        }
        assert forall|y: i32| #[trigger] r.contains(y) <==> s.contains(y) || y == x by {
            if r.contains(y) {
                let i = choose|i: int| 0 <= i < r.len() && r[i] == y;
                if i < inner.len() {
                    assert(inner.contains(y));
                    if y != x {
                        let k = choose|k: int| 0 <= k < front.len() && front[k] == y;
                        assert(s[k] == y);
                    }
                } else {
                    assert(s[s.len() - 1] == y);
                }
            }
            if s.contains(y) {
                let i = choose|i: int| 0 <= i < s.len() && s[i] == y;
                if i < front.len() {
                    assert(front[i] == y);
                    assert(front.contains(y));
                    assert(inner.contains(y));
                    let k = choose|k: int| 0 <= k < inner.len() && inner[k] == y;
                    assert(r[k] == y);
                } else {
                    assert(r[inner.len() as int] == y);
                }
            }
            if y == x {
                assert(inner.contains(x));
                let k = choose|k: int| 0 <= k < inner.len() && inner[k] == x;
                assert(r[k] == x);
            }
        }
    }
}

/// A sorted list is in order, as long as the list it came from, and holds
/// the same elements.
pub proof fn lemma_sorted(s: Seq<i32>)
    ensures
        ascending(sorted(s)),
        sorted(s).len() == s.len(),
        forall|y: i32| #[trigger] sorted(s).contains(y) <==> s.contains(y),
    decreases s.len(),
{
    if s.len() > 0 {
        let front = s.drop_last();
        lemma_sorted(front);
        lemma_insert_sorted(sorted(front), s.last());
        assert forall|y: i32| #[trigger] sorted(s).contains(y) <==> s.contains(y) by {
            if s.contains(y) {
                let i = choose|i: int| 0 <= i < s.len() && s[i] == y;
                if i < front.len() {
                    assert(front[i] == y);
                    assert(front.contains(y));
                }
            }
            if front.contains(y) {
                let i = choose|i: int| 0 <= i < front.len() && front[i] == y;
                assert(s[i] == y);
            }
            if y == s.last() {
                assert(s[s.len() - 1] == y);
            }
        }
    }
}

/// A list without repeated neighbours is no longer than the list it came
/// from, and holds the same elements.
pub proof fn lemma_dedup(s: Seq<i32>)
    ensures
        dedup(s).len() <= s.len(),
        s.len() > 0 ==> dedup(s).len() > 0 && dedup(s).last() == s.last(),
        forall|y: i32| #[trigger] dedup(s).contains(y) <==> s.contains(y),
    decreases s.len(),
{
    if s.len() > 0 {
        let front = s.drop_last();
        lemma_dedup(front);
        let d = dedup(front);
        assert forall|y: i32| #[trigger] dedup(s).contains(y) <==> s.contains(y) by {
            if s.contains(y) {
                let i = choose|i: int| 0 <= i < s.len() && s[i] == y;
                if i < front.len() {
                    assert(front[i] == y);
                    assert(front.contains(y));
                    assert(d.contains(y));
                    let k = choose|k: int| 0 <= k < d.len() && d[k] == y;
                    assert(dedup(s)[k] == y);
                } else {
                    assert(dedup(s)[dedup(s).len() - 1] == y);
                }
            }
            if dedup(s).contains(y) {
                let k = choose|k: int| 0 <= k < dedup(s).len() && dedup(s)[k] == y;
                if k < d.len() {
                    assert(d[k] == y);
                    assert(d.contains(y));
                    let i = choose|i: int| 0 <= i < front.len() && front[i] == y;
                    assert(s[i] == y);
                } else {
                    assert(s[s.len() - 1] == y);
                }
            }
        }
    }
}

/// Where `k` elements at the end of `s` are larger than `x` and the one
/// before them, if there is one, is not, `x` belongs `k` places from the
/// end.
pub proof fn lemma_insert_place(s: Seq<i32>, x: i32, k: int)
    requires
        0 <= k <= s.len(),
        forall|i: int| s.len() - k <= i < s.len() ==> s[i] > x,
        k == s.len() || s[s.len() - k - 1] <= x,
    ensures
        insert_sorted(s, x) == s.insert(s.len() - k, x),
    decreases k,
{
    if k == 0 {
        if s.len() == 0 {
            assert(s.insert(0, x) == seq![x]);
        } else {
            assert(s.insert(s.len() as int, x) == s.push(x));
        }
    } else {
        let front = s.drop_last();
        assert(s[s.len() - 1] > x);
        assert forall|i: int| front.len() - (k - 1) <= i < front.len() implies front[i] > x by {
            assert(front[i] == s[i]);
        }
        if k - 1 < front.len() {
            assert(front[front.len() - (k - 1) - 1] == s[s.len() - k - 1]);
        }
        lemma_insert_place(front, x, k - 1);
        assert(front.insert(front.len() - (k - 1), x).push(s.last()) == s.insert(s.len() - k, x));
    }
}

/// Sorts a list of numbers from the smallest to the largest.
pub fn sort(list: &Vec<i32>) -> (out: Vec<i32>)
    ensures
        out@ == sorted(list@),
        out@.len() == list@.len(),
{
    let mut out: Vec<i32> = Vec::new();
    let mut i: usize = 0;
    while i < list.len()
        invariant
            i <= list@.len(),
            out@ == sorted(list@.take(i as int)),
            out@.len() == i,
        decreases list@.len() - i,
    {
        let x = list[i];
        proof {
            assert(list@.take(i + 1).drop_last() == list@.take(i as int));
            assert(list@.take(i + 1).last() == x);
        }
        let mut k: usize = 0;
        while k < out.len() && out[out.len() - k - 1] > x
            invariant
                k <= out@.len(),
                forall|j: int| out@.len() - k <= j < out@.len() ==> out@[j] > x,
            decreases out@.len() - k,
        {
            k += 1;
        }
        proof {
            lemma_insert_place(out@, x, k as int);
        }
        let place = out.len() - k;
        out.insert(place, x);
        i += 1;
    }
    proof {
        assert(list@.take(list@.len() as int) == list@);
    }
    out
}

/// Drops repeated neighbours from a list.
pub fn drop_repeats(list: &Vec<i32>) -> (out: Vec<i32>)
    ensures
        out@ == dedup(list@),
{
    let mut out: Vec<i32> = Vec::new();
    let mut i: usize = 0;
    while i < list.len()
        invariant
            i <= list@.len(),
            out@ == dedup(list@.take(i as int)),
        decreases list@.len() - i,
    {
        let x = list[i];
        proof {
            assert(list@.take(i + 1).drop_last() == list@.take(i as int));
            assert(list@.take(i + 1).last() == x);
        }
        if !(out.len() > 0 && out[out.len() - 1] == x) {
            out.push(x);
        }
        i += 1;
    }
    proof {
        assert(list@.take(list@.len() as int) == list@);
    }
    out
}

/// True when the list holds the number.
pub fn holds(list: &Vec<i32>, x: i32) -> (found: bool)
    ensures
        found == list@.contains(x),
{
    let mut i: usize = 0;
    while i < list.len()
        invariant
            i <= list@.len(),
            forall|j: int| 0 <= j < i ==> list@[j] != x,
        decreases list@.len() - i,
    {
        if list[i] == x {
            return true;
        }
        i += 1;
    }
    false
}

/// A card's place among the cards played, with the place of its rank in
/// the order of ranks and the chips of its rank.
#[derive(Clone, Copy, Debug, PartialEq, Eq, Structural)]
pub struct Entry {
    pub place: usize,
    pub rank: i32,
    pub value: i32,
}

/// `s`, which is in order of value, with `x` put after the last entry whose
/// value is not larger.
pub open spec fn insert_entry(s: Seq<Entry>, x: Entry) -> Seq<Entry>
    decreases s.len(),
{
    if s.len() == 0 {
        seq![x]
    } else if s.last().value <= x.value {
        s.push(x)
    } else {
        insert_entry(s.drop_last(), x).push(s.last())
    }
}

/// The entries from the smallest value to the largest, entries of one
/// value in the order in which they stood.
pub open spec fn sorted_entries(s: Seq<Entry>) -> Seq<Entry>
    decreases s.len(),
{
    if s.len() == 0 {
        s
    } else {
        insert_entry(sorted_entries(s.drop_last()), s.last())
    }
}

/// The entries with each run of neighbours of one rank (where `by_rank` is
/// set) or of one value (where it is not) cut down to its first entry.
pub open spec fn dedup_entries(s: Seq<Entry>, by_rank: bool) -> Seq<Entry>
    decreases s.len(),
{
    if s.len() == 0 {
        s
    } else if s.len() >= 2 && if by_rank {
        s[s.len() - 2].rank == s.last().rank
    } else {
        s[s.len() - 2].value == s.last().value
    } {
        dedup_entries(s.drop_last(), by_rank)
    } else {
        dedup_entries(s.drop_last(), by_rank).push(s.last())
    }
}

/// Every entry has a place below the bound.
pub open spec fn places_below(s: Seq<Entry>, bound: nat) -> bool {
    forall|i: int| 0 <= i < s.len() ==> (#[trigger] s[i]).place < bound
}

/// Inserting an entry adds one entry and keeps places below the bound.
pub proof fn lemma_insert_entry(s: Seq<Entry>, x: Entry, bound: nat)
    requires
        places_below(s, bound),
        x.place < bound,
    ensures
        places_below(insert_entry(s, x), bound),
        insert_entry(s, x).len() == s.len() + 1,
    decreases s.len(),
{
    if s.len() > 0 && !(s.last().value <= x.value) {
        let front = s.drop_last();
        assert forall|i: int| 0 <= i < front.len() implies (#[trigger] front[i]).place < bound by {
            assert(front[i] == s[i]);
        }
        lemma_insert_entry(front, x, bound);
        assert(s[s.len() - 1].place < bound);
    }
}

/// Sorting keeps the number of entries and keeps places below the bound.
pub proof fn lemma_sorted_entries(s: Seq<Entry>, bound: nat)
    requires
        places_below(s, bound),
    ensures
        places_below(sorted_entries(s), bound),
        sorted_entries(s).len() == s.len(),
    decreases s.len(),
{
    if s.len() > 0 {
        let front = s.drop_last();
        assert forall|i: int| 0 <= i < front.len() implies (#[trigger] front[i]).place < bound by {
            assert(front[i] == s[i]);
        }
        lemma_sorted_entries(front, bound);
        assert(s[s.len() - 1].place < bound);
        lemma_insert_entry(sorted_entries(front), s.last(), bound);
    }
}

/// Dropping repeats keeps places below the bound and adds no entry.
pub proof fn lemma_dedup_entries(s: Seq<Entry>, by_rank: bool, bound: nat)
    requires
        places_below(s, bound),
    ensures
        places_below(dedup_entries(s, by_rank), bound),
        dedup_entries(s, by_rank).len() <= s.len(),
    decreases s.len(),
{
    if s.len() > 0 {
        let front = s.drop_last();
        assert forall|i: int| 0 <= i < front.len() implies (#[trigger] front[i]).place < bound by {
            assert(front[i] == s[i]);
        }
        lemma_dedup_entries(front, by_rank, bound);
        assert(s[s.len() - 1].place < bound);
    }
}

/// Where `k` entries at the end of `s` have a larger value than `x` and the
/// one before them, if there is one, has not, `x` belongs `k` places from
/// the end.
pub proof fn lemma_insert_entry_place(s: Seq<Entry>, x: Entry, k: int)
    requires
        0 <= k <= s.len(),
        forall|i: int| s.len() - k <= i < s.len() ==> s[i].value > x.value,
        k == s.len() || s[s.len() - k - 1].value <= x.value,
    ensures
        insert_entry(s, x) == s.insert(s.len() - k, x),
    decreases k,
{
    if k == 0 {
        if s.len() == 0 {
            assert(s.insert(0, x) == seq![x]);
        } else {
            assert(s.insert(s.len() as int, x) == s.push(x));
        }
    } else {
        let front = s.drop_last();
        assert(s[s.len() - 1].value > x.value);
        assert forall|i: int| front.len() - (k - 1) <= i < front.len() implies front[i].value
            > x.value by {
            assert(front[i] == s[i]);
        }
        if k - 1 < front.len() {
            assert(front[front.len() - (k - 1) - 1] == s[s.len() - k - 1]);
        }
        lemma_insert_entry_place(front, x, k - 1);
        assert(front.insert(front.len() - (k - 1), x).push(s.last()) == s.insert(s.len() - k, x));
    }
}

/// Sorts entries by value; entries of one value keep their order.
pub fn sort_entries(list: &Vec<Entry>) -> (out: Vec<Entry>)
    ensures
        out@ == sorted_entries(list@),
        out@.len() == list@.len(),
{
    let mut out: Vec<Entry> = Vec::new();
    let mut i: usize = 0;
    while i < list.len()
        invariant
            i <= list@.len(),
            out@ == sorted_entries(list@.take(i as int)),
            out@.len() == i,
        decreases list@.len() - i,
    {
        let x = list[i];
        proof {
            assert(list@.take(i + 1).drop_last() == list@.take(i as int));
            assert(list@.take(i + 1).last() == x);
        }
        let mut k: usize = 0;
        while k < out.len() && out[out.len() - k - 1].value > x.value
            invariant
                k <= out@.len(),
                forall|j: int| out@.len() - k <= j < out@.len() ==> out@[j].value > x.value,
            decreases out@.len() - k,
        {
            k += 1;
        }
        proof {
            lemma_insert_entry_place(out@, x, k as int);
        }
        let place = out.len() - k;
        out.insert(place, x);
        i += 1;
    }
    proof {
        assert(list@.take(list@.len() as int) == list@);
    }
    out
}

/// Drops from a list of entries every entry that has the rank (where
/// `by_rank` is set) or the value (where it is not) of the entry before it.
pub fn drop_repeated_entries(list: &Vec<Entry>, by_rank: bool) -> (out: Vec<Entry>)
    ensures
        out@ == dedup_entries(list@, by_rank),
{
    let mut out: Vec<Entry> = Vec::new();
    let mut i: usize = 0;
    while i < list.len()
        invariant
            i <= list@.len(),
            out@ == dedup_entries(list@.take(i as int), by_rank),
        decreases list@.len() - i,
    {
        let x = list[i];
        proof {
            let now = list@.take(i + 1);
            assert(now.drop_last() == list@.take(i as int));
            assert(now.last() == x);
            if i >= 1 {
                assert(now[now.len() - 2] == list@[i - 1]);
            }
        }
        let repeated = i >= 1 && if by_rank {
            list[i - 1].rank == x.rank
        } else {
            list[i - 1].value == x.value
        };
        if !repeated {
            out.push(x);
        }
        i += 1;
    }
    proof {
        assert(list@.take(list@.len() as int) == list@);
    }
    out
}

} // verus!

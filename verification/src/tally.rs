//! Totals under names: amounts are added up name by name, and the names
//! are kept in the order in which they first came up.

use vstd::prelude::*;

verus! {

/// The largest amount that [`Tally::add`] takes at a time, and the
/// smallest, with the sign turned.
pub const LIMIT: i128 = 0x1_0000_0000;

/// The place of the first entry with the name.
pub open spec fn index_of(entries: Seq<(Seq<char>, int)>, name: Seq<char>) -> Option<int>
    decreases entries.len(),
{
    if entries.len() == 0 {
        None
    } else {
        match index_of(entries.drop_last(), name) {
            Some(i) => Some(i),
            None => if entries.last().0 == name {
                Some(entries.len() - 1)
            } else {
                None
            },
        }
    }
}

/// The entries after the amount has been added under the name: to the
/// total of the first entry with that name, or, where there is none, as a
/// new entry at the end.
pub open spec fn added(entries: Seq<(Seq<char>, int)>, name: Seq<char>, amount: int) -> Seq<
    (Seq<char>, int),
> {
    match index_of(entries, name) {
        Some(i) => entries.update(i, (name, entries[i].1 + amount)),
        None => entries.push((name, amount)),
    }
}

/// The place of the first entry with the largest total.
pub open spec fn largest(entries: Seq<(Seq<char>, int)>) -> int
    decreases entries.len(),
{
    if entries.len() <= 1 {
        0
    } else if entries.last().1 > entries[largest(entries.drop_last())].1 {
        entries.len() - 1
    } else {
        largest(entries.drop_last())
    }
}

/// The place of the first entry with the smallest total.
pub open spec fn smallest(entries: Seq<(Seq<char>, int)>) -> int
    decreases entries.len(),
{
    if entries.len() <= 1 {
        0
    } else if entries.last().1 < entries[smallest(entries.drop_last())].1 {
        entries.len() - 1
    } else {
        smallest(entries.drop_last())
    }
}

/// The first entry with the largest total has a total that none exceeds,
/// and the first with the smallest one that none falls below.
pub proof fn lemma_extremes(entries: Seq<(Seq<char>, int)>)
    requires
        entries.len() > 0,
    ensures
        0 <= largest(entries) < entries.len(),
        0 <= smallest(entries) < entries.len(),
        forall|i: int|
            0 <= i < entries.len() ==> (#[trigger] entries[i]).1 <= entries[largest(entries)].1,
        forall|i: int|
            0 <= i < entries.len() ==> (#[trigger] entries[i]).1 >= entries[smallest(entries)].1,
    decreases entries.len(),
{
    if entries.len() > 1 {
        let front = entries.drop_last();
        lemma_extremes(front);
        assert forall|i: int| 0 <= i < entries.len() implies (#[trigger] entries[i]).1
            <= entries[largest(entries)].1 by {
            if i < front.len() {
                assert(front[i] == entries[i]);
                assert(front[largest(front)] == entries[largest(front)]);
            }
        }
        assert forall|i: int| 0 <= i < entries.len() implies (#[trigger] entries[i]).1
            >= entries[smallest(entries)].1 by {
            if i < front.len() {
                assert(front[i] == entries[i]);
                assert(front[smallest(front)] == entries[smallest(front)]);
            }
        }
    }
}

/// Totals under names, with a count of the amounts added, which bounds
/// the totals. The view gives the names with their totals, in the order in
/// which the names came; the count is given by `additions`.
#[derive(Debug)]
pub struct Tally {
    names: Vec<String>,
    totals: Vec<i128>,
    additions: usize,
}

impl View for Tally {
    type V = Seq<(Seq<char>, int)>;

    closed spec fn view(&self) -> Seq<(Seq<char>, int)> {
        Seq::new(self.names@.len(), |i: int| (self.names@[i]@, self.totals@[i] as int))
    }
}

impl Tally {
    /// How many amounts have been added.
    pub closed spec fn additions(&self) -> nat {
        self.additions as nat
    }

    /// Every name has its total, and no total is larger than the amounts
    /// added so far can make it.
    pub closed spec fn wf(&self) -> bool {
        &&& self.names@.len() == self.totals@.len()
        &&& forall|i: int|
            0 <= i < self.totals@.len() ==> -0x1_0000_0000 * self.additions
                <= #[trigger] self.totals@[i] <= 0x1_0000_0000 * self.additions
    }

    /// A tally without names.
    pub fn new() -> (tally: Tally)
        ensures
            tally.wf(),
            tally@ == Seq::<(Seq<char>, int)>::empty(),
            tally.additions() == 0,
    {
        let tally = Tally { names: Vec::new(), totals: Vec::new(), additions: 0 };
        proof {
            assert(tally@ =~= Seq::<(Seq<char>, int)>::empty());
        }
        tally
    }

    /// How many names the tally holds.
    pub fn len(&self) -> (count: usize)
        requires
            self.wf(),
        ensures
            count == self@.len(),
    {
        self.names.len()
    }

    fn find(&self, name: &String) -> (place: Option<usize>)
        requires
            self.wf(),
        ensures
            match place {
                Some(i) => index_of(self@, name@) == Some(i as int) && i < self@.len(),
                None => index_of(self@, name@) is None,
            },
    {
        let mut i: usize = 0;
        proof {
            assert(self@.take(0) == Seq::<(Seq<char>, int)>::empty());
        }
        while i < self.names.len()
            invariant
                i <= self.names@.len(),
                self.wf(),
                index_of(self@.take(i as int), name@) is None,
            decreases self.names@.len() - i,
        {
            proof {
                assert(self@.take(i + 1).drop_last() == self@.take(i as int));
                assert(self@.take(i + 1).last() == self@[i as int]);
            }
            if self.names[i] == *name {
                proof {
                    lemma_index_prefix(self@, name@, i + 1);
                }
                return Some(i);
            }
            i += 1;
        }
        proof {
            assert(self@.take(self@.len() as int) == self@);
        }
        None
    }

    /// Adds the amount to the total under the name.
    pub fn add(&mut self, name: &str, amount: i64)
        requires
            old(self).wf(),
            old(self).additions() < usize::MAX,
            -LIMIT <= amount <= LIMIT,
        ensures
            final(self).wf(),
            final(self)@ == added(old(self)@, name@, amount as int),
            final(self).additions() == old(self).additions() + 1,
    {
        let wanted = name.to_owned();
        let count = self.additions;
        proof {
            lemma_index_of(self@, name@);
        }
        match self.find(&wanted) {
            Some(i) => {
                proof {
                    assert(-0x1_0000_0000 * count <= self.totals@[i as int] <= 0x1_0000_0000
                        * count);
                }
                let total = self.totals[i] + amount as i128;
                self.totals.set(i, total);
                self.additions = count + 1;
                proof {
                    assert(self@ =~= added(old(self)@, name@, amount as int));
                }
            },
            None => {
                self.names.push(wanted);
                self.totals.push(amount as i128);
                self.additions = count + 1;
                proof {
                    assert(self@ =~= added(old(self)@, name@, amount as int));
                }
            },
        }
    }

    /// The first name with the largest total; none where the tally is
    /// empty.
    pub fn most(&self) -> (name: Option<String>)
        requires
            self.wf(),
        ensures
            match name {
                Some(text) => self@.len() > 0 && text@ == self@[largest(self@)].0,
                None => self@.len() == 0,
            },
    {
        if self.names.len() == 0 {
            return None;
        }
        let mut best: usize = 0;
        let mut i: usize = 1;
        proof {
            assert(self@.take(1).len() == 1);
        }
        while i < self.names.len()
            invariant
                1 <= i <= self.names@.len(),
                self.wf(),
                best == largest(self@.take(i as int)),
                best < i,
            decreases self.names@.len() - i,
        {
            proof {
                let now = self@.take(i + 1);
                assert(now.drop_last() == self@.take(i as int));
                assert(now.last() == self@[i as int]);
                assert(now[best as int] == self@[best as int]);
            }
            if self.totals[i] > self.totals[best] {
                best = i;
            }
            i += 1;
        }
        proof {
            assert(self@.take(self@.len() as int) == self@);
        }
        Some(self.names[best].clone())
    }

    /// The first name with the smallest total; none where the tally is
    /// empty.
    pub fn least(&self) -> (name: Option<String>)
        requires
            self.wf(),
        ensures
            match name {
                Some(text) => self@.len() > 0 && text@ == self@[smallest(self@)].0,
                None => self@.len() == 0,
            },
    {
        if self.names.len() == 0 {
            return None;
        }
        let mut best: usize = 0;
        let mut i: usize = 1;
        proof {
            assert(self@.take(1).len() == 1);
        }
        while i < self.names.len()
            invariant
                1 <= i <= self.names@.len(),
                self.wf(),
                best == smallest(self@.take(i as int)),
                best < i,
            decreases self.names@.len() - i,
        {
            proof {
                let now = self@.take(i + 1);
                assert(now.drop_last() == self@.take(i as int));
                assert(now.last() == self@[i as int]);
                assert(now[best as int] == self@[best as int]);
            }
            if self.totals[i] < self.totals[best] {
                best = i;
            }
            i += 1;
        }
        proof {
            assert(self@.take(self@.len() as int) == self@);
        }
        Some(self.names[best].clone())
    }

    /// The total under the name; none where the tally lacks the name.
    pub fn total(&self, name: &str) -> (total: Option<i128>)
        requires
            self.wf(),
        ensures
            match total {
                Some(sum) => index_of(self@, name@) is Some && sum == self@[index_of(
                    self@,
                    name@,
                )->0].1,
                None => index_of(self@, name@) is None,
            },
    {
        let wanted = name.to_owned();
        match self.find(&wanted) {
            Some(i) => Some(self.totals[i]),
            None => None,
        }
    }
}

/// The first entry among the first `k` entries that has the name, where
/// there is one, is the first among them all.
pub proof fn lemma_index_prefix(entries: Seq<(Seq<char>, int)>, name: Seq<char>, k: int)
    requires
        1 <= k <= entries.len(),
        entries[k - 1].0 == name,
        index_of(entries.take(k - 1), name) is None,
    ensures
        index_of(entries, name) == Some(k - 1),
    decreases entries.len() - k,
{
    if k < entries.len() {
        let front = entries.drop_last();
        assert(front.take(k - 1) == entries.take(k - 1));
        lemma_index_prefix(front, name, k);
    } else {
        assert(entries.drop_last() == entries.take(k - 1));
    }
}

/// Adding an amount keeps the entries or adds one.
pub proof fn lemma_added_len(entries: Seq<(Seq<char>, int)>, name: Seq<char>, amount: int)
    ensures
        entries.len() <= added(entries, name, amount).len() <= entries.len() + 1,
        added(entries, name, amount).len() > 0,
{
    lemma_index_of(entries, name);
}

/// The place that `index_of` gives is the place of an entry with the name.
pub proof fn lemma_index_of(entries: Seq<(Seq<char>, int)>, name: Seq<char>)
    ensures
        match index_of(entries, name) {
            Some(i) => 0 <= i < entries.len() && entries[i].0 == name,
            None => true,
        },
    decreases entries.len(),
{
    if entries.len() > 0 {
        lemma_index_of(entries.drop_last(), name);
    }
}

} // verus!

//! The store: every cell of the sheet under its address, and for every cell
//! the cells its formula reads and the cells that read it.

use crate::cell::{Cell, CellView};
use crate::cell_value::{CellValue, ValueView};
use crate::identifier::CellIdentifier;
use std::collections::HashMap;
use vstd::prelude::*;

verus! {

broadcast use vstd::std_specs::hash::group_hash_axioms;

/// `s` without the occurrences of `x`, the rest in order.
pub open spec fn without(s: Seq<CellIdentifier>, x: CellIdentifier) -> Seq<CellIdentifier>
    decreases s.len(),
{
    if s.len() == 0 {
        s
    } else if s.last() == x {
        without(s.drop_last(), x)
    } else {
        without(s.drop_last(), x).push(s.last())
    }
}

/// `s` with every address kept where it first occurs.
pub open spec fn distinct(s: Seq<CellIdentifier>) -> Seq<CellIdentifier>
    decreases s.len(),
{
    if s.len() == 0 {
        s
    } else if distinct(s.drop_last()).contains(s.last()) {
        distinct(s.drop_last())
    } else {
        distinct(s.drop_last()).push(s.last())
    }
}

/// `without(s, x)` holds what `s` holds but `x`, and repeats nothing that
/// `s` does not repeat.
pub proof fn lemma_without(s: Seq<CellIdentifier>, x: CellIdentifier)
    ensures
        forall|y: CellIdentifier| #[trigger] without(s, x).contains(y) <==> s.contains(y) && y != x,
        s.no_duplicates() ==> without(s, x).no_duplicates(),
        !s.contains(x) ==> without(s, x) == s,
        without(s, x).len() <= s.len(),
    decreases s.len(),
{
    if s.len() > 0 {
        let front = s.drop_last();
        let last = s.last();
        lemma_without(front, x);
        assert(s == front.push(last));
        assert forall|y: CellIdentifier| #[trigger] without(s, x).contains(y) <==> s.contains(y) && y
            != x by {
            lemma_push_contains(front, last, y);
            if last != x {
                lemma_push_contains(without(front, x), last, y);
            }
        }
        if s.no_duplicates() {
            assert(front.no_duplicates()) by {
                assert forall|i: int, j: int|
                    0 <= i < front.len() && 0 <= j < front.len() && i != j implies front[i]
                    != front[j] by {
                    assert(front[i] == s[i] && front[j] == s[j]);
                }
            }
            if last != x {
                assert(!front.contains(last)) by {
                    if front.contains(last) {
                        let i = choose|i: int| 0 <= i < front.len() && front[i] == last;
                        assert(s[i] == s[s.len() - 1]);
                    }
                }
                lemma_push_no_duplicates(without(front, x), last);
            }
        }
        if !s.contains(x) {
            assert(last != x) by {
                assert(s[s.len() - 1] == last);
            }
            assert(!front.contains(x)) by {
                if front.contains(x) {
                    let i = choose|i: int| 0 <= i < front.len() && front[i] == x;
                    assert(s[i] == x);
                }
            }
        }
    }
}

/// What a list holds after a push.
pub proof fn lemma_push_contains(s: Seq<CellIdentifier>, x: CellIdentifier, y: CellIdentifier)
    ensures
        s.push(x).contains(y) <==> s.contains(y) || y == x,
{
    let t = s.push(x);
    if s.contains(y) {
        let i = choose|i: int| 0 <= i < s.len() && s[i] == y;
        assert(t[i] == y);
    }
    if y == x {
        assert(t[s.len() as int] == y);
    }
    if t.contains(y) {
        let i = choose|i: int| 0 <= i < t.len() && t[i] == y;
        if i < s.len() {
            assert(s[i] == y);
        }
    }
}

/// Pushing an address that a list lacks keeps the list free of repeats.
pub proof fn lemma_push_no_duplicates(s: Seq<CellIdentifier>, x: CellIdentifier)
    requires
        s.no_duplicates(),
        !s.contains(x),
    ensures
        s.push(x).no_duplicates(),
{
    let t = s.push(x);
    assert forall|i: int, j: int| 0 <= i < t.len() && 0 <= j < t.len() && i != j implies t[i]
        != t[j] by {
        if i < s.len() && j < s.len() {
            assert(s[i] != s[j]);
        } else if i < s.len() {
            assert(s[i] == t[i]);
            assert(s.contains(s[i]));
        } else {
            assert(s[j] == t[j]);
            assert(s.contains(s[j]));
        }
    }
}

/// `distinct(s)` holds what `s` holds and repeats nothing.
pub proof fn lemma_distinct(s: Seq<CellIdentifier>)
    ensures
        forall|y: CellIdentifier| #[trigger] distinct(s).contains(y) <==> s.contains(y),
        distinct(s).no_duplicates(),
        distinct(s).len() <= s.len(),
    decreases s.len(),
{
    if s.len() > 0 {
        let front = s.drop_last();
        let last = s.last();
        lemma_distinct(front);
        assert(s == front.push(last));
        assert forall|y: CellIdentifier| #[trigger] distinct(s).contains(y) <==> s.contains(y) by {
            lemma_push_contains(front, last, y);
            lemma_push_contains(distinct(front), last, y);
        }
        if !distinct(front).contains(last) {
            lemma_push_no_duplicates(distinct(front), last);
        }
    }
}

/// The list filed under an address, empty where none is.
pub open spec fn list_at(m: Map<u64, Vec<CellIdentifier>>, at: CellIdentifier) -> Seq<
    CellIdentifier,
> {
    if m.contains_key(at.spec_key()) {
        m[at.spec_key()]@
    } else {
        Seq::empty()
    }
}

/// True when `list` holds `item`.
pub fn list_contains(list: &Vec<CellIdentifier>, item: CellIdentifier) -> (found: bool)
    ensures
        found == list@.contains(item),
{
    let mut i: usize = 0;
    while i < list.len()
        invariant
            i <= list@.len(),
            forall|j: int| 0 <= j < i ==> list@[j] != item,
        decreases list@.len() - i,
    {
        if list[i] == item {
            return true;
        }
        i += 1;
    }
    false
}

/// The addresses of `list`, each once, in the order in which they first occur.
pub fn distinct_ids(list: &Vec<CellIdentifier>) -> (out: Vec<CellIdentifier>)
    ensures
        out@ == distinct(list@),
{
    let mut out: Vec<CellIdentifier> = Vec::new();
    let mut i: usize = 0;
    while i < list.len()
        invariant
            i <= list@.len(),
            out@ == distinct(list@.take(i as int)),
        decreases list@.len() - i,
    {
        proof {
            assert(list@.take(i + 1).drop_last() == list@.take(i as int));
        }
        if !list_contains(&out, list[i]) {
            out.push(list[i]);
        }
        i += 1;
    }
    proof {
        assert(list@.take(list@.len() as int) == list@);
    }
    out
}

/// Takes `item` out of the list filed under `at`.
fn remove_from_list(
    m: &mut HashMap<u64, Vec<CellIdentifier>>,
    at: CellIdentifier,
    item: CellIdentifier,
)
    ensures
        list_at(final(m)@, at) == without(list_at(old(m)@, at), item),
        forall|other: CellIdentifier|
            other != at ==> #[trigger] list_at(final(m)@, other) == list_at(old(m)@, other),
{
    let key = at.key();
    proof {
        assert forall|other: CellIdentifier| other != at implies other.spec_key()
            != at.spec_key() by {
            CellIdentifier::lemma_key_injective(other, at);
        }
    }
    match m.remove(&key) {
        Some(list) => {
            let mut kept: Vec<CellIdentifier> = Vec::new();
            let mut i: usize = 0;
            while i < list.len()
                invariant
                    i <= list@.len(),
                    kept@ == without(list@.take(i as int), item),
                decreases list@.len() - i,
            {
                proof {
                    assert(list@.take(i + 1).drop_last() == list@.take(i as int));
                }
                if list[i] != item {
                    kept.push(list[i]);
                }
                i += 1;
            }
            proof {
                assert(list@.take(list@.len() as int) == list@);
            }
            m.insert(key, kept);
        },
        None => {},
    }
}

/// Puts `item` at the end of the list filed under `at`.
fn append_to_list(
    m: &mut HashMap<u64, Vec<CellIdentifier>>,
    at: CellIdentifier,
    item: CellIdentifier,
)
    ensures
        list_at(final(m)@, at) == list_at(old(m)@, at).push(item),
        forall|other: CellIdentifier|
            other != at ==> #[trigger] list_at(final(m)@, other) == list_at(old(m)@, other),
{
    let key = at.key();
    proof {
        assert forall|other: CellIdentifier| other != at implies other.spec_key()
            != at.spec_key() by {
            CellIdentifier::lemma_key_injective(other, at);
        }
    }
    let mut list: Vec<CellIdentifier> = match m.remove(&key) {
        Some(list) => list,
        None => Vec::new(),
    };
    list.push(item);
    m.insert(key, list);
}

/// The cells of a sheet with the dependency edges between them, kept in two
/// indices: for each cell the cells it reads, and for each cell the cells
/// that read it.
pub struct Spreadsheet {
    cells: HashMap<u64, Cell>,
    dependencies: HashMap<u64, Vec<CellIdentifier>>,
    reverse_dependencies: HashMap<u64, Vec<CellIdentifier>>,
    clock: u64,
}

impl Spreadsheet {
    /// True when a cell is stored under `id`.
    pub closed spec fn contains(&self, id: CellIdentifier) -> bool {
        self.cells@.contains_key(id.spec_key())
    }

    /// The cell stored under `id`.
    pub closed spec fn cell(&self, id: CellIdentifier) -> CellView {
        self.cells@[id.spec_key()]@
    }

    /// The cells that the formula of `id` reads, in the order in which they
    /// were recorded.
    pub closed spec fn precedents(&self, id: CellIdentifier) -> Seq<CellIdentifier> {
        list_at(self.dependencies@, id)
    }

    /// The cells whose formulas read `id`, in the order in which they were
    /// recorded.
    pub closed spec fn dependents(&self, id: CellIdentifier) -> Seq<CellIdentifier> {
        list_at(self.reverse_dependencies@, id)
    }

    /// The latest timestamp that the sheet has seen or given out.
    pub closed spec fn clock(&self) -> u64 {
        self.clock
    }

    /// What a read of `id` gives: the stored value, or `Empty` where no cell
    /// is stored.
    pub open spec fn value_of(&self, id: CellIdentifier) -> ValueView {
        if self.contains(id) {
            self.cell(id).value
        } else {
            ValueView::Empty
        }
    }

    /// The two dependency indices are each other's inverse: `a` is listed as
    /// reading `b` exactly when `b` is listed as read by `a`.
    pub open spec fn indices_agree(&self) -> bool {
        forall|a: CellIdentifier, b: CellIdentifier|
            self.precedents(a).contains(b) <==> #[trigger] self.dependents(b).contains(a)
    }

    /// The sheet is well formed: the indices agree, no list repeats an
    /// address, and no cell is stamped later than the clock.
    pub open spec fn wf(&self) -> bool {
        &&& self.indices_agree()
        &&& forall|a: CellIdentifier| #[trigger] self.precedents(a).no_duplicates()
        &&& forall|b: CellIdentifier| #[trigger] self.dependents(b).no_duplicates()
        &&& forall|id: CellIdentifier|
            self.contains(id) ==> (#[trigger] self.cell(id)).timestamp <= self.clock()
    }

    /// Two sheets hold the same cells.
    pub open spec fn same_cells(&self, other: &Spreadsheet) -> bool {
        forall|id: CellIdentifier|
            #![trigger self.contains(id)]
            #![trigger self.cell(id)]
            self.contains(id) == other.contains(id) && self.cell(id) == other.cell(id)
    }

    /// Two sheets hold the same dependency edges, in the same order.
    pub open spec fn same_edges(&self, other: &Spreadsheet) -> bool {
        &&& forall|id: CellIdentifier| #[trigger] self.precedents(id) == other.precedents(id)
        &&& forall|id: CellIdentifier| #[trigger] self.dependents(id) == other.dependents(id)
    }

    /// `self` is what `before` becomes when `cell` is stored under `id` and
    /// `dependencies` become the cells that `id` reads: `id` leaves the
    /// readers of every cell and joins, at the end, the readers of every
    /// cell of `dependencies`; all else stays.
    pub open spec fn written(
        &self,
        before: &Spreadsheet,
        id: CellIdentifier,
        cell: CellView,
        dependencies: Seq<CellIdentifier>,
    ) -> bool {
        &&& self.contains(id)
        &&& self.cell(id) == cell
        &&& forall|other: CellIdentifier|
            other != id ==> (#[trigger] self.contains(other)) == before.contains(other)
        &&& forall|other: CellIdentifier|
            other != id ==> (#[trigger] self.cell(other)) == before.cell(other)
        &&& self.precedents(id) == distinct(dependencies)
        &&& forall|other: CellIdentifier|
            other != id ==> (#[trigger] self.precedents(other)) == before.precedents(other)
        &&& forall|b: CellIdentifier|
            (#[trigger] self.dependents(b)) == if dependencies.contains(b) {
                without(before.dependents(b), id).push(id)
            } else {
                without(before.dependents(b), id)
            }
        &&& self.clock() == if cell.timestamp > before.clock() {
            cell.timestamp
        } else {
            before.clock()
        }
    }

    /// Writing a cell keeps the two indices each other's inverse.
    pub proof fn lemma_written_indices_agree(
        &self,
        before: &Spreadsheet,
        id: CellIdentifier,
        cell: CellView,
        dependencies: Seq<CellIdentifier>,
    )
        requires
            before.indices_agree(),
            self.written(before, id, cell, dependencies),
        ensures
            self.indices_agree(),
    {
        lemma_distinct(dependencies);
        assert forall|a: CellIdentifier, b: CellIdentifier|
            self.precedents(a).contains(b) <==> #[trigger] self.dependents(b).contains(a) by {
            lemma_without(before.dependents(b), id);
            lemma_push_contains(without(before.dependents(b), id), id, a);
            if a != id {
                assert(self.precedents(a) == before.precedents(a));
                assert(before.precedents(a).contains(b) <==> before.dependents(b).contains(a));
            }
        }
    }

    /// Writing the same value and formula into a cell a second time, with
    /// the same cells read, changes nothing but the cell's timestamp and the
    /// clock: the same cells are stored with the same values and formulas,
    /// and both indices are as they were.
    pub proof fn lemma_rewrite_changes_only_the_timestamp(
        &self,
        once: &Spreadsheet,
        before: &Spreadsheet,
        id: CellIdentifier,
        first: CellView,
        second: CellView,
        dependencies: Seq<CellIdentifier>,
    )
        requires
            once.written(before, id, first, dependencies),
            self.written(once, id, second, dependencies),
            first.value == second.value,
            first.expr == second.expr,
        ensures
            self.same_edges(once),
            forall|c: CellIdentifier| (#[trigger] self.contains(c)) == once.contains(c),
            forall|c: CellIdentifier| c != id ==> (#[trigger] self.cell(c)) == once.cell(c),
            self.cell(id).value == once.cell(id).value,
            self.cell(id).expr == once.cell(id).expr,
            self.cell(id).timestamp == second.timestamp,
    {
        assert forall|c: CellIdentifier| #[trigger] self.precedents(c) == once.precedents(c) by {}
        assert forall|b: CellIdentifier| #[trigger] self.dependents(b) == once.dependents(b) by {
            let kept = without(before.dependents(b), id);
            lemma_without(before.dependents(b), id);
            lemma_without(kept, id);
            if dependencies.contains(b) {
                assert(kept.push(id).drop_last() == kept);
            }
        }
    }

    /// An empty sheet.
    pub fn new() -> (sheet: Spreadsheet)
        ensures
            sheet.wf(),
            sheet.clock() == 0,
            forall|id: CellIdentifier| !#[trigger] sheet.contains(id),
            forall|id: CellIdentifier| #[trigger] sheet.precedents(id) == Seq::<CellIdentifier>::empty(),
            forall|id: CellIdentifier| #[trigger] sheet.dependents(id) == Seq::<CellIdentifier>::empty(),
    {
        Spreadsheet {
            cells: HashMap::new(),
            dependencies: HashMap::new(),
            reverse_dependencies: HashMap::new(),
            clock: 0,
        }
    }

    /// The cell stored under `cell`, if there is one.
    pub fn get(&self, cell: &CellIdentifier) -> (found: Option<&Cell>)
        ensures
            match found {
                Some(stored) => self.contains(*cell) && stored@ == self.cell(*cell),
                None => !self.contains(*cell),
            },
    {
        let key = cell.key();
        self.cells.get(&key)
    }

    /// The value stored under `cell`, or `Empty` where nothing is stored.
    pub fn get_value(&self, cell: &CellIdentifier) -> (value: CellValue)
        ensures
            value@ == self.value_of(*cell),
    {
        match self.get(cell) {
            Some(stored) => stored.value().duplicate(),
            None => CellValue::Empty,
        }
    }

    /// The formula stored under `cell`, if a cell is stored there and came
    /// from a formula.
    pub fn get_expr(&self, cell: &CellIdentifier) -> (expr: Option<String>)
        ensures
            match expr {
                Some(text) => self.contains(*cell) && self.cell(*cell).expr == Some(text@),
                None => !self.contains(*cell) || self.cell(*cell).expr is None,
            },
    {
        match self.get(cell) {
            Some(stored) => match stored.expr() {
                Some(text) => Some(text.clone()),
                None => None,
            },
            None => None,
        }
    }

    /// True when a cell is stored under `cell`.
    pub fn cell_exists(&self, cell: &CellIdentifier) -> (exists: bool)
        ensures
            exists == self.contains(*cell),
    {
        let key = cell.key();
        self.cells.contains_key(&key)
    }

    /// The cells that read `cell`, in the order in which a sweep visits them.
    pub fn dependents_of(&self, cell: &CellIdentifier) -> (list: Vec<CellIdentifier>)
        ensures
            list@ == self.dependents(*cell),
    {
        let key = cell.key();
        match self.reverse_dependencies.get(&key) {
            Some(stored) => stored.clone(),
            None => Vec::new(),
        }
    }

    /// The cells that the formula of `cell` reads.
    pub fn precedents_of(&self, cell: &CellIdentifier) -> (list: Vec<CellIdentifier>)
        ensures
            list@ == self.precedents(*cell),
    {
        let key = cell.key();
        match self.dependencies.get(&key) {
            Some(stored) => stored.clone(),
            None => Vec::new(),
        }
    }

    /// Stores `cell` under `cell_identifier` and leaves the dependency edges
    /// as they are.
    pub fn set(&mut self, cell_identifier: CellIdentifier, cell: Cell)
        requires
            old(self).wf(),
        ensures
            final(self).wf(),
            final(self).contains(cell_identifier),
            final(self).cell(cell_identifier) == cell@,
            forall|other: CellIdentifier|
                other != cell_identifier ==> (#[trigger] final(self).contains(other)) == old(
                    self,
                ).contains(other),
            forall|other: CellIdentifier|
                other != cell_identifier ==> (#[trigger] final(self).cell(other)) == old(self).cell(
                    other,
                ),
            final(self).same_edges(old(self)),
            final(self).clock() == if cell@.timestamp > old(self).clock() {
                cell@.timestamp
            } else {
                old(self).clock()
            },
    {
        let key = cell_identifier.key();
        proof {
            assert forall|other: CellIdentifier| other != cell_identifier implies other.spec_key()
                != cell_identifier.spec_key() by {
                CellIdentifier::lemma_key_injective(other, cell_identifier);
            }
        }
        if *cell.timestamp() > self.clock {
            self.clock = *cell.timestamp();
        }
        self.cells.insert(key, cell);
        proof {
            assert forall|a: CellIdentifier, b: CellIdentifier|
                self.precedents(a).contains(b) <==> #[trigger] self.dependents(b).contains(a) by {
                assert(old(self).precedents(a).contains(b) <==> old(self).dependents(b).contains(a));
            }
            assert forall|a: CellIdentifier| #[trigger] self.precedents(a).no_duplicates() by {
                assert(old(self).precedents(a).no_duplicates());
            }
            assert forall|b: CellIdentifier| #[trigger] self.dependents(b).no_duplicates() by {
                assert(old(self).dependents(b).no_duplicates());
            }
            assert forall|id: CellIdentifier| self.contains(id) implies (#[trigger] self.cell(
                id,
            )).timestamp <= self.clock() by {
                if id != cell_identifier {
                    assert(old(self).contains(id));
                    assert(old(self).cell(id).timestamp <= old(self).clock());
                }
            }
        }
    }

    /// Stores `cell` under `cell_id` and makes `dependencies` the cells that
    /// `cell_id` reads: `cell_id` is taken out of the readers of every cell
    /// that it read before, and put at the end of the readers of every cell
    /// of `dependencies`.
    pub fn evaluate_cell(
        &mut self,
        cell_id: CellIdentifier,
        cell: Cell,
        dependencies: Vec<CellIdentifier>,
    )
        requires
            old(self).wf(),
        ensures
            final(self).wf(),
            final(self).written(old(self), cell_id, cell@, dependencies@),
    {
        let key = cell_id.key();
        proof {
            assert forall|other: CellIdentifier| other != cell_id implies other.spec_key()
                != cell_id.spec_key() by {
                CellIdentifier::lemma_key_injective(other, cell_id);
            }
        }
        let previous: Vec<CellIdentifier> = match self.dependencies.remove(&key) {
            Some(list) => list,
            None => Vec::new(),
        };
        assert(previous@ == old(self).precedents(cell_id));
        let ghost before = self.reverse_dependencies@;
        let mut i: usize = 0;
        while i < previous.len()
            invariant
                i <= previous@.len(),
                forall|b: CellIdentifier|
                    #[trigger] list_at(self.reverse_dependencies@, b) == if previous@.take(
                        i as int,
                    ).contains(b) {
                        without(list_at(before, b), cell_id)
                    } else {
                        list_at(before, b)
                    },
                self.dependencies@ == old(self).dependencies@.remove(key),
                self.cells@ == old(self).cells@,
                self.clock == old(self).clock,
            decreases previous@.len() - i,
        {
            let target = previous[i];
            let ghost now = self.reverse_dependencies@;
            remove_from_list(&mut self.reverse_dependencies, target, cell_id);
            proof {
                let done = previous@.take(i as int);
                let next = previous@.take(i + 1);
                assert(next == done.push(target));
                assert forall|b: CellIdentifier|
                    #[trigger] list_at(self.reverse_dependencies@, b) == if next.contains(b) {
                        without(list_at(before, b), cell_id)
                    } else {
                        list_at(before, b)
                    } by {
                    lemma_push_contains(done, target, b);
                    if b == target {
                        lemma_without(list_at(before, b), cell_id);
                        lemma_without(without(list_at(before, b), cell_id), cell_id);
                    } else {
                        assert(list_at(self.reverse_dependencies@, b) == list_at(now, b));
                    }
                }
            }
            i += 1;
        }
        let ghost retracted = self.reverse_dependencies@;
        proof {
            assert(previous@.take(previous@.len() as int) == previous@);
            assert forall|b: CellIdentifier| #[trigger]
                list_at(retracted, b) == without(list_at(before, b), cell_id) by {
                lemma_without(list_at(before, b), cell_id);
                if !previous@.contains(b) {
                    assert(!old(self).precedents(cell_id).contains(b));
                    assert(!old(self).dependents(b).contains(cell_id));
                }
            }
        }
        let fresh = distinct_ids(&dependencies);
        proof {
            lemma_distinct(dependencies@);
        }
        let mut j: usize = 0;
        while j < fresh.len()
            invariant
                j <= fresh@.len(),
                fresh@.no_duplicates(),
                forall|b: CellIdentifier|
                    #[trigger] list_at(self.reverse_dependencies@, b) == if fresh@.take(
                        j as int,
                    ).contains(b) {
                        list_at(retracted, b).push(cell_id)
                    } else {
                        list_at(retracted, b)
                    },
                self.dependencies@ == old(self).dependencies@.remove(key),
                self.cells@ == old(self).cells@,
                self.clock == old(self).clock,
            decreases fresh@.len() - j,
        {
            let target = fresh[j];
            let ghost now = self.reverse_dependencies@;
            append_to_list(&mut self.reverse_dependencies, target, cell_id);
            proof {
                let done = fresh@.take(j as int);
                let next = fresh@.take(j + 1);
                assert(next == done.push(target));
                assert(!done.contains(target)) by {
                    if done.contains(target) {
                        let k = choose|k: int| 0 <= k < done.len() && done[k] == target;
                        assert(fresh@[k] == fresh@[j as int]);
                    }
                }
                assert forall|b: CellIdentifier|
                    #[trigger] list_at(self.reverse_dependencies@, b) == if next.contains(b) {
                        list_at(retracted, b).push(cell_id)
                    } else {
                        list_at(retracted, b)
                    } by {
                    lemma_push_contains(done, target, b);
                    if b != target {
                        assert(list_at(self.reverse_dependencies@, b) == list_at(now, b));
                    }
                }
            }
            j += 1;
        }
        proof {
            assert(fresh@.take(fresh@.len() as int) == fresh@);
        }
        self.dependencies.insert(key, fresh);
        if *cell.timestamp() > self.clock {
            self.clock = *cell.timestamp();
        }
        self.cells.insert(key, cell);
        proof {
            assert forall|b: CellIdentifier|
                (#[trigger] self.dependents(b)) == if dependencies@.contains(b) {
                    without(old(self).dependents(b), cell_id).push(cell_id)
                } else {
                    without(old(self).dependents(b), cell_id)
                } by {
                assert(list_at(retracted, b) == without(list_at(before, b), cell_id));
                assert(fresh@.contains(b) <==> dependencies@.contains(b));
            }
            assert forall|a: CellIdentifier, b: CellIdentifier|
                self.precedents(a).contains(b) <==> #[trigger] self.dependents(b).contains(a) by {
                lemma_without(old(self).dependents(b), cell_id);
                lemma_push_contains(without(old(self).dependents(b), cell_id), cell_id, a);
                assert(fresh@.contains(b) <==> dependencies@.contains(b));
                if a != cell_id {
                    assert(self.precedents(a) == old(self).precedents(a));
                    assert(old(self).precedents(a).contains(b) <==> old(self).dependents(
                        b,
                    ).contains(a));
                }
            }
            assert forall|a: CellIdentifier| #[trigger] self.precedents(a).no_duplicates() by {
                if a != cell_id {
                    assert(self.precedents(a) == old(self).precedents(a));
                    assert(old(self).precedents(a).no_duplicates());
                }
            }
            assert forall|b: CellIdentifier| #[trigger] self.dependents(b).no_duplicates() by {
                assert(old(self).dependents(b).no_duplicates());
                lemma_without(old(self).dependents(b), cell_id);
                if dependencies@.contains(b) {
                    lemma_push_no_duplicates(without(old(self).dependents(b), cell_id), cell_id);
                }
            }
            assert forall|id: CellIdentifier| self.contains(id) implies (#[trigger] self.cell(
                id,
            )).timestamp <= self.clock() by {
                if id != cell_id {
                    assert(old(self).contains(id));
                    assert(old(self).cell(id).timestamp <= old(self).clock());
                }
            }
        }
    }
}

/// The timestamp that follows `clock` when the system clock reads `reading`:
/// the reading where it is later, else the next tick, as long as there is one.
pub open spec fn next_timestamp(clock: u64, reading: u64) -> u64 {
    if reading > clock {
        reading
    } else if clock < u64::MAX {
        (clock + 1) as u64
    } else {
        clock
    }
}

impl Spreadsheet {
    /// True when a cell is stored under `id` that came from a formula.
    pub open spec fn has_formula(&self, id: CellIdentifier) -> bool {
        self.contains(id) && self.cell(id).expr is Some
    }

    /// How many cells the sheet holds.
    pub closed spec fn cell_count(&self) -> nat {
        self.cells@.dom().len()
    }

    /// A list of cells of the sheet that repeats none is no longer than the
    /// sheet has cells.
    pub proof fn lemma_cells_bound(&self, list: Seq<CellIdentifier>)
        requires
            list.no_duplicates(),
            forall|i: int| 0 <= i < list.len() ==> self.contains(#[trigger] list[i]),
        ensures
            list.len() <= self.cell_count(),
    {
        let keys = list.map_values(|id: CellIdentifier| id.spec_key());
        assert forall|i: int, j: int| 0 <= i < keys.len() && 0 <= j < keys.len() && i != j implies keys[i]
            != keys[j] by {
            CellIdentifier::lemma_key_injective(list[i], list[j]);
        }
        keys.unique_seq_to_set();
        assert(keys.to_set().subset_of(self.cells@.dom())) by {
            assert forall|k: u64| keys.to_set().contains(k) implies self.cells@.dom().contains(
                k,
            ) by {
                let i = choose|i: int| 0 <= i < keys.len() && keys[i] == k;
                assert(self.contains(list[i]));
            }
        }
        vstd::set_lib::lemma_len_subset(keys.to_set(), self.cells@.dom());
    }

    /// Gives out the timestamp that follows the sheet's clock when the system
    /// clock reads `reading`. It is later than every timestamp in the sheet,
    /// unless the clock has run out.
    pub fn advance_clock(&mut self, reading: u64) -> (now: u64)
        requires
            old(self).wf(),
        ensures
            final(self).wf(),
            final(self).same_cells(old(self)),
            final(self).same_edges(old(self)),
            now == next_timestamp(old(self).clock(), reading),
            final(self).clock() == now,
    {
        let now = if reading > self.clock {
            reading
        } else if self.clock < u64::MAX {
            self.clock + 1
        } else {
            self.clock
        };
        self.clock = now;
        proof {
            assert forall|a: CellIdentifier, b: CellIdentifier|
                self.precedents(a).contains(b) <==> #[trigger] self.dependents(b).contains(a) by {
                assert(old(self).precedents(a).contains(b) <==> old(self).dependents(b).contains(a));
            }
            assert forall|a: CellIdentifier| #[trigger] self.precedents(a).no_duplicates() by {
                assert(old(self).precedents(a).no_duplicates());
            }
            assert forall|b: CellIdentifier| #[trigger] self.dependents(b).no_duplicates() by {
                assert(old(self).dependents(b).no_duplicates());
            }
            assert forall|id: CellIdentifier| self.contains(id) implies (#[trigger] self.cell(
                id,
            )).timestamp <= self.clock() by {
                assert(old(self).contains(id));
                assert(old(self).cell(id).timestamp <= old(self).clock());
            }
        }
        now
    }

    /// Reads the system clock and gives out the timestamp that follows. It
    /// is not earlier than any timestamp in the sheet, and later than all of
    /// them unless the clock has run out.
    pub fn now(&mut self) -> (now: u64)
        requires
            old(self).wf(),
        ensures
            final(self).wf(),
            final(self).same_cells(old(self)),
            final(self).same_edges(old(self)),
            final(self).clock() == now,
            now >= old(self).clock(),
            old(self).clock() < u64::MAX ==> now > old(self).clock(),
    {
        self.advance_clock(Cell::current_timestamp())
    }

    /// The ordering guard of a recomputation: stores `candidate` under `id`
    /// when no cell is stored there or the candidate was written strictly
    /// later than the stored cell, and discards it otherwise, so that an
    /// older result never replaces a newer write.
    pub fn commit_candidate(&mut self, id: CellIdentifier, candidate: Cell) -> (committed: bool)
        requires
            old(self).wf(),
        ensures
            final(self).wf(),
            committed == (!old(self).contains(id) || candidate@.timestamp > old(self).cell(
                id,
            ).timestamp),
            final(self).same_edges(old(self)),
            committed ==> final(self).contains(id) && final(self).cell(id) == candidate@,
            !committed ==> final(self).cell(id) == old(self).cell(id) && final(self).clock() == old(
                self,
            ).clock(),
            forall|other: CellIdentifier|
                other != id ==> (#[trigger] final(self).contains(other)) == old(self).contains(
                    other,
                ),
            forall|other: CellIdentifier|
                other != id ==> (#[trigger] final(self).cell(other)) == old(self).cell(other),
            final(self).contains(id) == (committed || old(self).contains(id)),
            final(self).clock() == if committed && candidate@.timestamp > old(self).clock() {
                candidate@.timestamp
            } else {
                old(self).clock()
            },
    {
        let newer = match self.get(&id) {
            Some(stored) => candidate.is_newer_than(stored),
            None => true,
        };
        if newer {
            self.set(id, candidate);
        }
        newer
    }
}

impl Default for Spreadsheet {
    fn default() -> (sheet: Spreadsheet)
        ensures
            sheet.wf(),
            sheet.clock() == 0,
            forall|id: CellIdentifier| !#[trigger] sheet.contains(id),
    {
        Spreadsheet::new()
    }
}

} // verus!

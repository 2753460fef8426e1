//! Writing a formula into a cell, and carrying a change to every cell that
//! reads the changed cell, directly or through other cells.

use crate::cell::Cell;
use crate::cell_value::{dependency_error_marker, CellArgument, CellValue, ValueView};
use crate::formula::evaluated;
use crate::cell::CellView;
use crate::eval::{
    lemma_arguments_read_their_cells, lemma_cells_of_any_sheet, parse_variables_with_deps,
    resolved_arguments, resolved_cells,
};
use crate::formula::{
    arguments_view, bindings, evaluate, find_variable_names, formula_variables, holds_error,
    EvaluationError,
};
use crate::identifier::CellIdentifier;
use crate::spreadsheet::{distinct, list_contains, without, Spreadsheet};
use vstd::prelude::*;

verus! {

impl Spreadsheet {
    /// True when the formula `expr`, resolved against this sheet, has an
    /// argument that holds an error value.
    pub open spec fn reads_error(&self, expr: Seq<char>) -> bool {
        holds_error(bindings(resolved_arguments(self, formula_variables(expr))))
    }

    /// The value of the formula `expr` against this sheet: the dependency
    /// error where the formula reads an error, the error of a formula that
    /// is not admitted where it is not, and else the value that the
    /// evaluator gives for the formula under the arguments that its names
    /// stand for.
    pub open spec fn value_under(&self, expr: Seq<char>) -> ValueView {
        match evaluated(expr, bindings(resolved_arguments(self, formula_variables(expr)))) {
            Ok(value) => value,
            Err(_) => ValueView::Error(dependency_error_marker()),
        }
    }

    /// The cells that the formula `expr` reads, each once, in the order in
    /// which its variables first name them.
    pub open spec fn formula_cells(&self, expr: Seq<char>) -> Seq<CellIdentifier> {
        distinct(resolved_cells(self, formula_variables(expr)))
    }

    /// Every stored timestamp lies below the last one, so that a later
    /// write can be told from each stored cell.
    pub open spec fn has_room(&self) -> bool {
        forall|c: CellIdentifier| self.contains(c) ==> (#[trigger] self.cell(c)).timestamp < u64::MAX
    }

    /// The formula stored under `id`; the empty text where none is.
    pub open spec fn formula_of(&self, id: CellIdentifier) -> Seq<char> {
        match self.cell(id).expr {
            Some(text) => text,
            None => Seq::empty(),
        }
    }

    /// The cell `c` holds a later write in `self` than in `before`.
    pub open spec fn stored_anew(&self, before: &Spreadsheet, c: CellIdentifier) -> bool {
        self.cell(c).timestamp > before.cell(c).timestamp
    }

    /// Place `j` of a sweep lists `to`: the start of the sweep, at place
    /// -1, where `to` is listed in `before` as reading `from`; the cell
    /// `order[j]` where `self` holds a later write of it and `to` is listed
    /// in `before` as reading it.
    pub open spec fn lists(
        &self,
        before: &Spreadsheet,
        from: CellIdentifier,
        order: Seq<CellIdentifier>,
        j: int,
        to: CellIdentifier,
    ) -> bool {
        if j == -1 {
            before.dependents(from).contains(to)
        } else {
            0 <= j < order.len() && self.stored_anew(before, order[j]) && before.dependents(
                order[j],
            ).contains(to)
        }
    }

    /// Place `j` of a sweep or an earlier place lists `to`.
    #[verifier::opaque]
    pub open spec fn listed_no_later(
        &self,
        before: &Spreadsheet,
        from: CellIdentifier,
        order: Seq<CellIdentifier>,
        j: int,
        to: CellIdentifier,
    ) -> bool {
        exists|earlier: int|
            -1 <= earlier <= j && #[trigger] self.lists(before, from, order, earlier, to)
    }

    /// Where a place no later than `j` lists `to`, one of them is given.
    pub proof fn lemma_some_place_lists(
        &self,
        before: &Spreadsheet,
        from: CellIdentifier,
        order: Seq<CellIdentifier>,
        j: int,
        to: CellIdentifier,
    ) -> (place: int)
        requires
            self.listed_no_later(before, from, order, j, to),
        ensures
            -1 <= place <= j,
            self.lists(before, from, order, place, to),
    {
        reveal(Spreadsheet::listed_no_later);
        choose|earlier: int|
            -1 <= earlier <= j && #[trigger] self.lists(before, from, order, earlier, to)
    }

    /// Nearest first: a cell that stands before another in `order` is
    /// listed by a place no later than each place that lists the other.
    pub open spec fn in_turn(
        &self,
        before: &Spreadsheet,
        from: CellIdentifier,
        order: Seq<CellIdentifier>,
    ) -> bool {
        forall|x: int, y: int, j: int|
            #![trigger self.lists(before, from, order, j, order[x]), order[y]]
            0 <= y < x < order.len() && self.lists(before, from, order, j, order[x])
                ==> self.listed_no_later(before, from, order, j, order[y])
    }

    /// Every cell that the formula of `order[i]` reads is either not in
    /// `order` or stands before place `i`.
    pub open spec fn inputs_settled(&self, order: Seq<CellIdentifier>, i: int) -> bool {
        forall|d: CellIdentifier| #[trigger]
            self.formula_cells(self.formula_of(order[i])).contains(d) ==> !order.contains(d)
                || order.take(i).contains(d)
    }

    /// Where `order[i]` was stored anew with its inputs settled, it holds
    /// the value of its formula against the sheet as the sweep left it.
    pub open spec fn holds_result(
        &self,
        before: &Spreadsheet,
        order: Seq<CellIdentifier>,
        i: int,
    ) -> bool {
        self.stored_anew(before, order[i]) && self.inputs_settled(order, i) ==> self.cell(
            order[i],
        ).value == self.value_under(self.formula_of(order[i]))
    }

    /// `self` reads as the sheet of a sweep reads at the turn that follows
    /// the cells of `run`: a cell of `run` reads as in `after`, every other
    /// cell as in `before`.
    pub open spec fn at_turn(
        &self,
        before: &Spreadsheet,
        after: &Spreadsheet,
        run: Seq<CellIdentifier>,
    ) -> bool {
        forall|d: CellIdentifier| #[trigger]
            self.value_of(d) == if run.contains(d) {
                after.value_of(d)
            } else {
                before.value_of(d)
            }
    }

    /// Where `order[i]` was stored anew, it holds the value of its formula
    /// against the sheet as it read at its turn: the cells that stand
    /// before it in `order` with the values that the sweep left, all others
    /// with the values that they had before the sweep.
    pub open spec fn holds_value_of_turn(
        &self,
        before: &Spreadsheet,
        order: Seq<CellIdentifier>,
        i: int,
    ) -> bool {
        self.stored_anew(before, order[i]) ==> exists|turn: Spreadsheet| #[trigger]
            turn.at_turn(before, self, order.take(i)) && self.cell(order[i]).value
                == turn.value_under(self.formula_of(order[i]))
    }

    /// `self` is what `before` becomes by one sweep from `id` that
    /// evaluates the cells of `order`, in that order.
    ///
    /// The cells of `order` depend on `id`, none stands twice, and each is
    /// listed by the start or by a cell that stands before it and was
    /// stored anew; they stand nearest first, as `in_turn` says. Where
    /// `before` has room, `order` holds every cell that depends on `id`, and
    /// each of them is stored with a later timestamp. The edges, the stored
    /// addresses and the formulas stay; a cell outside `order` stays as it
    /// is; a cell is replaced only by a strictly later write; and a cell
    /// that was stored anew holds the value of its formula at its turn, as
    /// `holds_value_of_turn` says.
    pub open spec fn swept(
        &self,
        before: &Spreadsheet,
        id: CellIdentifier,
        order: Seq<CellIdentifier>,
    ) -> bool {
        &&& self.same_edges(before)
        &&& order.no_duplicates()
        &&& forall|c: CellIdentifier| order.contains(c) ==> before.reaches(id, c)
        &&& forall|i: int|
            0 <= i < order.len() ==> self.listed_no_later(before, id, order, i - 1, #[trigger] order[i])
        &&& self.in_turn(before, id, order)
        &&& before.has_room() ==> forall|c: CellIdentifier| #[trigger]
            before.reaches(id, c) ==> order.contains(c)
        &&& forall|c: CellIdentifier| (#[trigger] self.contains(c)) == before.contains(c)
        &&& forall|c: CellIdentifier|
            !order.contains(c) ==> (#[trigger] self.cell(c)) == before.cell(c)
        &&& forall|c: CellIdentifier| (#[trigger] self.cell(c)).expr == before.cell(c).expr
        &&& forall|c: CellIdentifier|
            (#[trigger] self.cell(c)) == before.cell(c) || self.stored_anew(before, c)
        &&& before.has_room() ==> forall|c: CellIdentifier|
            #[trigger] order.contains(c) ==> self.stored_anew(before, c)
        &&& forall|i: int|
            0 <= i < order.len() ==> #[trigger] self.holds_value_of_turn(before, order, i)
        &&& self.clock() >= before.clock()
    }

    /// `self` is what `before` becomes when the formula `expr` is written
    /// into the cell `id`: the cell holds the formula, the clock's timestamp
    /// and the value of the formula against `before`; the cells that the
    /// formula reads are the cells that `id` reads, in both indices; all
    /// else is as in `before`; and the clock has moved on unless it had run
    /// out.
    pub open spec fn formula_written(
        &self,
        before: &Spreadsheet,
        id: CellIdentifier,
        expr: Seq<char>,
    ) -> bool {
        &&& self.written(
            before,
            id,
            CellView { value: self.cell(id).value, expr: Some(expr), timestamp: self.clock() },
            before.formula_cells(expr),
        )
        &&& self.precedents(id) == before.formula_cells(expr)
        &&& before.clock() < u64::MAX ==> self.clock() > before.clock()
        &&& self.cell(id).value == before.value_under(expr)
    }

    /// The value of a formula rests on the values of the cells that it
    /// reads and on nothing else in the sheet.
    pub proof fn lemma_value_rests_on_inputs(&self, other: &Spreadsheet, expr: Seq<char>)
        requires
            forall|d: CellIdentifier| #[trigger]
                self.formula_cells(expr).contains(d) ==> self.value_of(d) == other.value_of(d),
        ensures
            self.value_under(expr) == other.value_under(expr),
            self.reads_error(expr) == other.reads_error(expr),
            self.formula_cells(expr) == other.formula_cells(expr),
    {
        let names = formula_variables(expr);
        crate::spreadsheet::lemma_distinct(resolved_cells(self, names));
        assert forall|d: CellIdentifier| #[trigger]
            resolved_cells(self, names).contains(d) implies self.value_of(d) == other.value_of(
            d,
        ) by {
            assert(self.formula_cells(expr).contains(d));
        }
        lemma_arguments_read_their_cells(self, other, names);
    }

    /// `to` holds a formula that reads `from`.
    pub open spec fn feeds(&self, from: CellIdentifier, to: CellIdentifier) -> bool {
        self.dependents(from).contains(to) && self.has_formula(to)
    }

    /// `path` leads from `from` along dependency edges, through cells that
    /// hold formulas.
    pub open spec fn is_path(&self, from: CellIdentifier, path: Seq<CellIdentifier>) -> bool {
        &&& path.len() > 0
        &&& self.feeds(from, path[0])
        &&& forall|i: int| 0 <= i < path.len() - 1 ==> self.feeds(#[trigger] path[i], path[i + 1])
    }

    /// `to` depends on `from`, directly or through other cells.
    pub open spec fn reaches(&self, from: CellIdentifier, to: CellIdentifier) -> bool {
        exists|path: Seq<CellIdentifier>| #[trigger] self.is_path(from, path) && path.last() == to
    }

    /// `to` is listed as reading `from` or a cell that depends on `from`.
    pub open spec fn linked(&self, from: CellIdentifier, to: CellIdentifier) -> bool {
        self.dependents(from).contains(to) || exists|via: CellIdentifier|
            self.reaches(from, via) && #[trigger] self.dependents(via).contains(to)
    }

    /// A cell that holds a formula and is listed as reading `from`, or a
    /// cell that depends on `from`, depends on `from`.
    pub proof fn lemma_linked_reaches(&self, from: CellIdentifier, to: CellIdentifier)
        requires
            self.linked(from, to),
            self.has_formula(to),
        ensures
            self.reaches(from, to),
    {
        if self.dependents(from).contains(to) {
            let path = seq![to];
            assert(self.is_path(from, path));
            assert(path.last() == to);
        } else {
            let via = choose|via: CellIdentifier|
                self.reaches(from, via) && #[trigger] self.dependents(via).contains(to);
            let front = choose|path: Seq<CellIdentifier>| #[trigger]
                self.is_path(from, path) && path.last() == via;
            let path = front.push(to);
            assert forall|i: int| 0 <= i < path.len() - 1 implies self.feeds(
                #[trigger] path[i],
                path[i + 1],
            ) by {
                if i < front.len() - 1 {
                    assert(self.feeds(front[i], front[i + 1]));
                }
            }
            assert(self.is_path(from, path));
            assert(path.last() == to);
        }
    }

    /// A set of cells that holds every cell fed by `from` and every cell fed
    /// by one of its own holds every cell of every path from `from`.
    pub proof fn lemma_closed_holds_path(
        &self,
        from: CellIdentifier,
        done: Seq<CellIdentifier>,
        path: Seq<CellIdentifier>,
        k: int,
    )
        requires
            self.is_path(from, path),
            0 <= k < path.len(),
            forall|d: CellIdentifier| #[trigger] self.feeds(from, d) ==> done.contains(d),
            forall|x: CellIdentifier, d: CellIdentifier|
                done.contains(x) && #[trigger] self.feeds(x, d) ==> done.contains(d),
        ensures
            done.contains(path[k]),
        decreases k,
    {
        if k > 0 {
            self.lemma_closed_holds_path(from, done, path, k - 1);
            assert(self.feeds(path[k - 1], path[k]));
        }
    }

    /// Every cell fed by `from` or by a cell of `done` is in `done` or in
    /// `waiting`.
    pub open spec fn closed_with(
        &self,
        from: CellIdentifier,
        done: Seq<CellIdentifier>,
        waiting: Seq<CellIdentifier>,
    ) -> bool {
        &&& forall|d: CellIdentifier| #[trigger]
            self.feeds(from, d) ==> done.contains(d) || waiting.contains(d)
        &&& forall|x: CellIdentifier, d: CellIdentifier|
            done.contains(x) && #[trigger] self.feeds(x, d) ==> done.contains(d)
                || waiting.contains(d)
    }

    /// A waiting cell that is done already, or holds no formula, need not wait.
    pub proof fn lemma_skip_keeps_closed(
        &self,
        from: CellIdentifier,
        done: Seq<CellIdentifier>,
        waiting: Seq<CellIdentifier>,
    )
        requires
            self.closed_with(from, done, waiting),
            waiting.len() > 0,
            done.contains(waiting[0]) || !self.has_formula(waiting[0]),
        ensures
            self.closed_with(from, done, waiting.drop_first()),
    {
        let rest = waiting.drop_first();
        assert forall|d: CellIdentifier| waiting.contains(d) && d != waiting[0] implies rest.contains(
            d,
        ) by {
            let i = choose|i: int| 0 <= i < waiting.len() && waiting[i] == d;
            assert(rest[i - 1] == d);
        }
        assert forall|d: CellIdentifier| #[trigger] self.feeds(from, d) implies done.contains(d)
            || rest.contains(d) by {}
        assert forall|x: CellIdentifier, d: CellIdentifier|
            done.contains(x) && #[trigger] self.feeds(x, d) implies done.contains(d)
            || rest.contains(d) by {}
    }

    /// When the first waiting cell is done and the cells that read it wait
    /// in its place, nothing is lost.
    pub proof fn lemma_visit_keeps_closed(
        &self,
        from: CellIdentifier,
        done: Seq<CellIdentifier>,
        waiting: Seq<CellIdentifier>,
    )
        requires
            self.closed_with(from, done, waiting),
            waiting.len() > 0,
        ensures
            self.closed_with(
                from,
                done.push(waiting[0]),
                waiting.drop_first() + self.dependents(waiting[0]),
            ),
    {
        let next = waiting[0];
        let more = self.dependents(next);
        let rest = waiting.drop_first() + more;
        let after = done.push(next);
        assert forall|d: CellIdentifier| waiting.contains(d) && d != next implies rest.contains(
            d,
        ) by {
            let i = choose|i: int| 0 <= i < waiting.len() && waiting[i] == d;
            assert(rest[i - 1] == d);
        }
        assert forall|d: CellIdentifier| more.contains(d) implies rest.contains(d) by {
            let i = choose|i: int| 0 <= i < more.len() && more[i] == d;
            assert(rest[waiting.len() - 1 + i] == d);
        }
        assert forall|d: CellIdentifier| after.contains(d) <==> done.contains(d) || d == next by {
            crate::spreadsheet::lemma_push_contains(done, next, d);
        }
        assert forall|d: CellIdentifier| #[trigger] self.feeds(from, d) implies after.contains(d)
            || rest.contains(d) by {}
        assert forall|x: CellIdentifier, d: CellIdentifier|
            after.contains(x) && #[trigger] self.feeds(x, d) implies after.contains(d)
            || rest.contains(d) by {
            if x == next {
                assert(more.contains(d));
            }
        }
    }

    /// Resolves the variables of the formula `expr` against the sheet as it
    /// stands: the arguments that the names of the formula stand for, and
    /// the cells that the formula reads.
    pub fn resolve_formula(&self, expr: &str) -> (resolved: (
        Vec<(String, CellArgument)>,
        Vec<CellIdentifier>,
    ))
        ensures
            arguments_view(resolved.0@) == resolved_arguments(self, formula_variables(expr@)),
            resolved.1@ == self.formula_cells(expr@),
    {
        let names = find_variable_names(expr);
        parse_variables_with_deps(self, names)
    }

    /// Resolves the variables of the formula `expr` against the sheet as it
    /// stands and evaluates it. Gives the outcome, which is the refusal
    /// exactly when an argument of the formula holds an error and else the
    /// value of the formula, and the cells that the formula reads.
    pub fn evaluate_formula(&self, expr: &str) -> (found: (
        Result<CellValue, EvaluationError>,
        Vec<CellIdentifier>,
    ))
        ensures
            (found.0 is Err) == self.reads_error(expr@),
            stored_value(found.0) == self.value_under(expr@),
            found.1@ == self.formula_cells(expr@),
    {
        let (variables, cells) = self.resolve_formula(expr);
        (evaluate(expr, &variables), cells)
    }

    /// The value of the formula `expr` against the sheet as it stands.
    pub fn recalculate(&self, expr: &str) -> (value: CellValue)
        ensures
            value@ == self.value_under(expr@),
    {
        let (outcome, _) = self.evaluate_formula(expr);
        match outcome {
            Ok(value) => value,
            Err(_) => CellValue::dependency_error(),
        }
    }

    /// Stores the outcome of a formula that was evaluated for the cell `id`:
    /// the value that the evaluator gave, or the dependency error where it
    /// refused, with the formula and a fresh timestamp. `cells` become the
    /// cells that `id` reads, in both indices.
    pub fn commit_outcome(
        &mut self,
        id: CellIdentifier,
        expr: String,
        outcome: Result<CellValue, EvaluationError>,
        cells: Vec<CellIdentifier>,
    )
        requires
            old(self).wf(),
        ensures
            final(self).wf(),
            final(self).written(
                old(self),
                id,
                (CellView {
                    value: stored_value(outcome),
                    expr: Some(expr@),
                    timestamp: final(self).clock(),
                }),
                cells@,
            ),
            old(self).clock() < u64::MAX ==> final(self).clock() > old(self).clock(),
    {
        let value = match outcome {
            Ok(value) => value,
            Err(_) => CellValue::dependency_error(),
        };
        let stamp = self.now();
        let cell = Cell::with_timestamp(Some(expr), value, stamp);
        let ghost stamped = *self;
        self.evaluate_cell(id, cell, cells);
        proof {
            assert(forall|c: CellIdentifier|
                (#[trigger] stamped.contains(c)) == old(self).contains(c) && stamped.cell(c) == old(
                    self,
                ).cell(c));
            assert(forall|c: CellIdentifier|
                #[trigger] stamped.precedents(c) == old(self).precedents(c));
            assert(forall|c: CellIdentifier|
                #[trigger] stamped.dependents(c) == old(self).dependents(c));
        }
    }

    /// Writes the formula `expr` into the cell `id`: resolves its variables
    /// against the sheet as it stands, evaluates it, and stores the result
    /// with the formula and a fresh timestamp. The cells that the formula
    /// reads become the cells that `id` reads, in both indices, whether or
    /// not the evaluation went well. All else stays.
    pub fn set_expression(&mut self, id: CellIdentifier, expr: String)
        requires
            old(self).wf(),
        ensures
            final(self).wf(),
            final(self).formula_written(old(self), id, expr@),
    {
        let (outcome, cells) = self.evaluate_formula(expr.as_str());
        proof {
            crate::spreadsheet::lemma_distinct(resolved_cells(old(self), formula_variables(expr@)));
            lemma_distinct_of_distinct(cells@);
        }
        self.commit_outcome(id, expr, outcome, cells);
    }

    /// Evaluates the formula of `id` anew against the sheet as it stands and
    /// stamps the result with a fresh timestamp. The result is stored
    /// exactly when that timestamp is strictly later than the stored
    /// cell's, which it is whenever the stored cell's is not the last one;
    /// otherwise the result is discarded and the cell stays as it is. Says
    /// whether the result was stored.
    pub fn recompute(&mut self, id: CellIdentifier, expr: String) -> (committed: bool)
        requires
            old(self).wf(),
            old(self).contains(id),
            old(self).cell(id).expr == Some(expr@),
        ensures
            final(self).wf(),
            final(self).same_edges(old(self)),
            forall|other: CellIdentifier|
                (#[trigger] final(self).contains(other)) == old(self).contains(other),
            forall|other: CellIdentifier|
                other != id ==> (#[trigger] final(self).cell(other)) == old(self).cell(other),
            final(self).cell(id).expr == old(self).cell(id).expr,
            final(self).clock() >= old(self).clock(),
            committed == (final(self).clock() > old(self).cell(id).timestamp),
            old(self).cell(id).timestamp < u64::MAX ==> committed,
            committed ==> final(self).cell(id).timestamp == final(self).clock(),
            committed ==> final(self).cell(id).value == old(self).value_under(expr@),
            !committed ==> final(self).cell(id) == old(self).cell(id),
    {
        let value = self.recalculate(expr.as_str());
        let stamp = self.now();
        let candidate = Cell::with_timestamp(Some(expr), value, stamp);
        self.commit_candidate(id, candidate)
    }

    /// One sweep: evaluates anew every cell that depends on `id`, directly or
    /// through other cells, nearest first, each cell once even where several
    /// paths or a cycle lead to it. Gives the evaluated cells in the order
    /// of their evaluation. What the sweep leaves behind is what `swept`
    /// says.
    #[verifier::rlimit(40)]
    pub fn propagate_from(&mut self, id: CellIdentifier) -> (recomputed: Vec<CellIdentifier>)
        requires
            old(self).wf(),
        ensures
            final(self).wf(),
            final(self).swept(old(self), id, recomputed@),
    {
        let ghost start = *self;
        let mut queue = self.dependents_of(&id);
        let mut head: usize = 0;
        let mut recomputed: Vec<CellIdentifier> = Vec::new();
        let ghost mut listers: Seq<int> = Seq::new(queue@.len(), |k: int| -1);
        let ghost mut places: Seq<int> = Seq::empty();
        proof {
            assert(queue@.skip(0) == queue@);
            assert forall|j: int, c: CellIdentifier|
                j < recomputed@.len() && #[trigger] self.lists(
                    &start,
                    id,
                    recomputed@,
                    j,
                    c,
                ) implies waits_under(queue@, listers, j, c) by {
                let k = choose|k: int| 0 <= k < queue@.len() && queue@[k] == c;
                assert(queue@[k] == c && listers[k] == j);
            }
        }
        while head < queue.len()
            invariant
                listers.len() == queue@.len(),
                places.len() == recomputed@.len(),
                forall|k: int|
                    0 <= k < queue@.len() ==> -1 <= #[trigger] listers[k] < recomputed@.len()
                        && self.lists(&start, id, recomputed@, listers[k], queue@[k]),
                forall|k: int, l: int|
                    0 <= k <= l < queue@.len() ==> #[trigger] listers[k] <= #[trigger] listers[l],
                forall|j: int, c: CellIdentifier|
                    j < recomputed@.len() && #[trigger] self.lists(&start, id, recomputed@, j, c)
                        ==> waits_under(queue@, listers, j, c),
                forall|k: int|
                    0 <= k < head ==> recomputed@.contains(#[trigger] queue@[k])
                        || !start.has_formula(queue@[k]),
                forall|x: int|
                    0 <= x < places.len() ==> 0 <= #[trigger] places[x] < head
                        && queue@[places[x]] == recomputed@[x],
                forall|x: int, k: int|
                    0 <= x < places.len() && 0 <= k < places[x] ==> #[trigger] queue@[k]
                        != #[trigger] recomputed@[x],
                forall|x: int, y: int|
                    0 <= y < x < places.len() ==> #[trigger] places[y] < #[trigger] places[x],
                forall|x: int| 0 <= x < places.len() ==> listers[#[trigger] places[x]] < x,
                start.wf(),
                self.wf(),
                self.same_edges(&start),
                head <= queue@.len(),
                recomputed@.no_duplicates(),
                forall|i: int|
                    0 <= i < recomputed@.len() ==> start.reaches(id, #[trigger] recomputed@[i]),
                forall|i: int| 0 <= i < queue@.len() ==> start.linked(id, #[trigger] queue@[i]),
                forall|c: CellIdentifier| (#[trigger] self.contains(c)) == start.contains(c),
                forall|c: CellIdentifier|
                    !recomputed@.contains(c) ==> (#[trigger] self.cell(c)) == start.cell(c),
                forall|c: CellIdentifier| (#[trigger] self.cell(c)).expr == start.cell(c).expr,
                forall|c: CellIdentifier|
                    (#[trigger] self.cell(c)) == start.cell(c) || self.stored_anew(&start, c),
                self.clock() >= start.clock(),
                start.has_room() ==> forall|c: CellIdentifier|
                    #[trigger] recomputed@.contains(c) ==> self.stored_anew(&start, c),
                start.has_room() ==> start.closed_with(id, recomputed@, queue@.skip(head as int)),
                forall|i: int|
                    0 <= i < recomputed@.len() ==> #[trigger] self.holds_value_of_turn(
                        &start,
                        recomputed@,
                        i,
                    ),
            decreases start.cell_count() - recomputed@.len(), queue@.len() - head,
        {
            let next = queue[head];
            let ghost waiting = queue@.skip(head as int);
            let ghost done = recomputed@;
            proof {
                assert(waiting[0] == next);
                assert(queue@.skip(head + 1) == waiting.drop_first());
                assert forall|i: int| 0 <= i < done.len() implies start.contains(
                    #[trigger] done[i],
                ) by {
                    start.lemma_reached_has_formula(id, done[i]);
                }
                start.lemma_cells_bound(done);
            }
            head += 1;
            let seen = list_contains(&recomputed, next);
            let formula = if seen {
                None
            } else {
                self.get_expr(&next)
            };
            match formula {
                Some(expr) => {
                    let ghost prev = *self;
                    let committed = self.recompute(next, expr);
                    recomputed.push(next);
                    proof {
                        start.lemma_linked_reaches(id, next);
                        crate::spreadsheet::lemma_push_no_duplicates(done, next);
                        assert forall|c: CellIdentifier|
                            recomputed@.contains(c) <==> done.contains(c) || c == next by {
                            crate::spreadsheet::lemma_push_contains(done, next, c);
                        }
                        assert forall|i: int| 0 <= i < recomputed@.len() implies start.contains(
                            #[trigger] recomputed@[i],
                        ) by {
                            start.lemma_reached_has_formula(id, recomputed@[i]);
                        }
                        start.lemma_cells_bound(recomputed@);
                        lemma_step_holds_turn(&start, &prev, &*self, done, next, committed);
                        assert forall|j: int, c: CellIdentifier|
                            j < done.len() && #[trigger] self.lists(
                                &start,
                                id,
                                recomputed@,
                                j,
                                c,
                            ) implies prev.lists(&start, id, done, j, c) by {
                            if j >= 0 {
                                assert(recomputed@[j] == done[j]);
                                assert(done.contains(done[j]));
                            }
                        }
                        assert forall|j: int, c: CellIdentifier|
                            j < done.len() && #[trigger] prev.lists(
                                &start,
                                id,
                                done,
                                j,
                                c,
                            ) implies self.lists(&start, id, recomputed@, j, c) by {
                            if j >= 0 {
                                assert(recomputed@[j] == done[j]);
                                assert(done.contains(done[j]));
                            }
                        }
                        assert forall|k: int| 0 <= k < head - 1 implies queue@[k] != next by {
                            assert(recomputed@.contains(queue@[k]) <==> done.contains(queue@[k])
                                || queue@[k] == next);
                        }
                        places = places.push(head - 1);
                    }
                    if committed {
                        let mut more = self.dependents_of(&next);
                        let ghost queued = queue@;
                        let ghost listed = listers;
                        queue.append(&mut more);
                        proof {
                            listers = listers + Seq::new(
                                start.dependents(next).len(),
                                |k: int| done.len() as int,
                            );
                            assert forall|j: int, c: CellIdentifier|
                                j < recomputed@.len() && #[trigger] self.lists(
                                    &start,
                                    id,
                                    recomputed@,
                                    j,
                                    c,
                                ) implies waits_under(queue@, listers, j, c) by {
                                if j < done.len() {
                                    assert(waits_under(queued, listed, j, c));
                                    let k = choose|k: int|
                                        0 <= k < queued.len() && #[trigger] queued[k] == c
                                            && listed[k] == j;
                                    assert(queue@[k] == c && listers[k] == j);
                                } else {
                                    let more = start.dependents(next);
                                    let k = choose|k: int| 0 <= k < more.len() && more[k] == c;
                                    assert(queue@[queued.len() + k] == c && listers[queued.len()
                                        + k] == j);
                                }
                            }
                            assert forall|k: int| 0 <= k < queue@.len() implies -1 <= (
                            #[trigger] listers[k]) < recomputed@.len() && self.lists(
                                &start,
                                id,
                                recomputed@,
                                listers[k],
                                queue@[k],
                            ) by {
                                if k < queued.len() {
                                    assert(queue@[k] == queued[k] && listers[k] == listed[k]);
                                    assert(prev.lists(&start, id, done, listed[k], queued[k]));
                                } else {
                                    assert(queue@[k] == start.dependents(next)[k - queued.len()]);
                                    assert(start.dependents(next).contains(queue@[k]));
                                    assert(recomputed@[done.len() as int] == next);
                                }
                            }
                            assert forall|x: int, k: int|
                                0 <= x < places.len() && 0 <= k < places[x] implies #[trigger] queue@[k]
                                != #[trigger] recomputed@[x] by {
                                assert(queue@[k] == queued[k]);
                                if x < done.len() {
                                    assert(recomputed@[x] == done[x]);
                                }
                            }
                            assert(recomputed@[done.len() as int] == next);
                            assert forall|i: int| 0 <= i < queue@.len() implies start.linked(
                                id,
                                #[trigger] queue@[i],
                            ) by {
                                if i >= queued.len() {
                                    assert(queue@[i] == start.dependents(next)[i - queued.len()]);
                                    assert(start.dependents(next).contains(queue@[i]));
                                } else {
                                    assert(queue@[i] == queued[i]);
                                }
                            }
                            assert(queue@.skip(head as int) == waiting.drop_first()
                                + start.dependents(next));
                            if start.has_room() {
                                start.lemma_visit_keeps_closed(id, done, waiting);
                            }
                        }
                    } else {
                        proof {
                            assert(!start.has_room());
                            assert forall|j: int, c: CellIdentifier|
                                j < recomputed@.len() && #[trigger] self.lists(
                                    &start,
                                    id,
                                    recomputed@,
                                    j,
                                    c,
                                ) implies waits_under(queue@, listers, j, c) by {
                                assert(recomputed@[done.len() as int] == next);
                                assert(j < done.len());
                            }
                            assert forall|k: int| 0 <= k < queue@.len() implies -1 <= (
                            #[trigger] listers[k]) < recomputed@.len() && self.lists(
                                &start,
                                id,
                                recomputed@,
                                listers[k],
                                queue@[k],
                            ) by {
                                assert(prev.lists(&start, id, done, listers[k], queue@[k]));
                            }
                            assert forall|x: int, k: int|
                                0 <= x < places.len() && 0 <= k < places[x] implies #[trigger] queue@[k]
                                != #[trigger] recomputed@[x] by {
                                if x < done.len() {
                                    assert(recomputed@[x] == done[x]);
                                }
                            }
                        }
                    }
                },
                None => {
                    proof {
                        if start.has_room() {
                            start.lemma_skip_keeps_closed(id, done, waiting);
                        }
                    }
                },
            }
        }
        proof {
            assert forall|c: CellIdentifier| recomputed@.contains(c) implies start.reaches(
                id,
                c,
            ) by {
                let i = choose|i: int| 0 <= i < recomputed@.len() && recomputed@[i] == c;
                assert(start.reaches(id, recomputed@[i]));
            }
            assert forall|i: int| 0 <= i < recomputed@.len() implies self.listed_no_later(
                &start,
                id,
                recomputed@,
                i - 1,
                #[trigger] recomputed@[i],
            ) by {
                reveal(Spreadsheet::listed_no_later);
                assert(self.lists(&start, id, recomputed@, listers[places[i]], queue@[places[i]]));
            }
            assert forall|x: int, y: int, j: int|
                #![trigger self.lists(&start, id, recomputed@, j, recomputed@[x]), recomputed@[y]]
                0 <= y < x < recomputed@.len() && self.lists(
                    &start,
                    id,
                    recomputed@,
                    j,
                    recomputed@[x],
                ) implies self.listed_no_later(&start, id, recomputed@, j, recomputed@[y]) by {
                reveal(Spreadsheet::listed_no_later);
                assert(waits_under(queue@, listers, j, recomputed@[x]));
                let k = choose|k: int|
                    0 <= k < queue@.len() && #[trigger] queue@[k] == recomputed@[x] && listers[k]
                        == j;
                assert(places[x] <= k);
                assert(listers[places[y]] <= listers[places[x]]);
                assert(listers[places[x]] <= listers[k]);
                assert(self.lists(&start, id, recomputed@, listers[places[y]], queue@[places[y]]));
            }
            if start.has_room() {
                assert(queue@.skip(head as int).len() == 0);
                assert forall|c: CellIdentifier| start.reaches(id, c) implies recomputed@.contains(
                    c,
                ) by {
                    let path = choose|path: Seq<CellIdentifier>| #[trigger]
                        start.is_path(id, path) && path.last() == c;
                    start.lemma_closed_holds_path(id, recomputed@, path, path.len() - 1);
                }
            }
        }
        recomputed
    }

    /// Errors are forwarded: a formula with a variable that stands for a
    /// cell in error, or for a range with a cell in error, reads an error,
    /// so that the cell it is written to holds the dependency error.
    pub proof fn lemma_error_is_read(&self, expr: Seq<char>, i: int)
        requires
            0 <= i < formula_variables(expr).len(),
            crate::eval::resolve(self, formula_variables(expr)[i]) is Some,
            crate::eval::argument_of(self, formula_variables(expr)[i]).holds_error(),
        ensures
            self.reads_error(expr),
    {
        crate::eval::lemma_resolved_bindings(self, formula_variables(expr), i);
        let bound = bindings(resolved_arguments(self, formula_variables(expr)));
        assert(bound.contains_key(formula_variables(expr)[i]) && bound[formula_variables(
            expr,
        )[i]].holds_error());
    }

    /// A cell that depends on another is stored and holds a formula.
    pub proof fn lemma_reached_has_formula(&self, from: CellIdentifier, to: CellIdentifier)
        requires
            self.reaches(from, to),
        ensures
            self.has_formula(to),
    {
        let path = choose|path: Seq<CellIdentifier>| #[trigger]
            self.is_path(from, path) && path.last() == to;
        if path.len() == 1 {
            assert(self.feeds(from, path[0]));
        } else {
            assert(self.feeds(path[path.len() - 2], path[path.len() - 2 + 1]));
        }
    }

    /// Carries a change of `initial_cell` to the cells that depend on it:
    /// one sweep from `initial_cell`, in some order of evaluation, as `swept`
    /// says. The dependency indices stay as they are, no formula changes, a
    /// cell that does not depend on `initial_cell` stays as it is, and a
    /// cell is replaced only by a strictly later write. Where the sheet has
    /// room, every cell that depends on `initial_cell` is stored anew with a
    /// later timestamp.
    pub fn update_dependencies(&mut self, initial_cell: CellIdentifier)
        requires
            old(self).wf(),
        ensures
            final(self).wf(),
            exists|order: Seq<CellIdentifier>| #[trigger]
                final(self).swept(old(self), initial_cell, order),
            final(self).same_edges(old(self)),
            forall|c: CellIdentifier|
                (#[trigger] final(self).contains(c)) == old(self).contains(c),
            forall|c: CellIdentifier|
                !old(self).reaches(initial_cell, c) ==> (#[trigger] final(self).cell(c)) == old(
                    self,
                ).cell(c),
            forall|c: CellIdentifier|
                (#[trigger] final(self).cell(c)).expr == old(self).cell(c).expr,
            forall|c: CellIdentifier|
                (#[trigger] final(self).cell(c)) == old(self).cell(c) || final(self).stored_anew(
                    old(self),
                    c,
                ),
            old(self).has_room() ==> forall|c: CellIdentifier| #[trigger]
                old(self).reaches(initial_cell, c) ==> final(self).stored_anew(old(self), c),
            final(self).clock() >= old(self).clock(),
    {
        let order = self.propagate_from(initial_cell);
        proof {
            assert(self.swept(old(self), initial_cell, order@));
            if old(self).has_room() {
                assert forall|c: CellIdentifier| #[trigger]
                    old(self).reaches(initial_cell, c) implies self.stored_anew(old(self), c) by {
                    assert(order@.contains(c));
                }
            }
        }
    }
}

/// The cell `c` waits in `queue` at a place that `listers` marks with `j`.
pub open spec fn waits_under(
    queue: Seq<CellIdentifier>,
    listers: Seq<int>,
    j: int,
    c: CellIdentifier,
) -> bool {
    exists|k: int| 0 <= k < queue.len() && #[trigger] queue[k] == c && listers[k] == j
}

/// The value that is stored for an outcome of the evaluator: the value that
/// it gave, or the dependency error where it refused.
pub open spec fn stored_value(outcome: Result<CellValue, EvaluationError>) -> ValueView {
    match outcome {
        Ok(value) => value@,
        Err(_) => ValueView::Error(dependency_error_marker()),
    }
}

/// One step of a sweep: when the cell `next`, which was not evaluated yet,
/// is evaluated against the sheet as it stands and all other cells stay,
/// every cell evaluated so far holds the value of its formula at its turn.
pub proof fn lemma_step_holds_turn(
    start: &Spreadsheet,
    prev: &Spreadsheet,
    after: &Spreadsheet,
    done: Seq<CellIdentifier>,
    next: CellIdentifier,
    committed: bool,
)
    requires
        !done.contains(next),
        forall|c: CellIdentifier| c != next ==> (#[trigger] after.cell(c)) == prev.cell(c),
        forall|c: CellIdentifier| (#[trigger] after.contains(c)) == prev.contains(c),
        forall|c: CellIdentifier| (#[trigger] prev.contains(c)) == start.contains(c),
        forall|c: CellIdentifier| !done.contains(c) ==> (#[trigger] prev.cell(c)) == start.cell(c),
        after.cell(next).expr == prev.cell(next).expr,
        !committed ==> after.cell(next) == prev.cell(next),
        committed ==> after.cell(next).value == prev.value_under(prev.formula_of(next)),
        forall|i: int| 0 <= i < done.len() ==> #[trigger] prev.holds_value_of_turn(start, done, i),
    ensures
        forall|i: int|
            0 <= i < done.len() + 1 ==> #[trigger] after.holds_value_of_turn(
                start,
                done.push(next),
                i,
            ),
{
    let order = done.push(next);
    assert forall|i: int| 0 <= i < order.len() implies #[trigger] after.holds_value_of_turn(
        start,
        order,
        i,
    ) by {
        let c = order[i];
        if after.stored_anew(start, c) {
            assert(order.take(i) =~= done.take(i));
            assert forall|d: CellIdentifier| done.take(i).contains(d) implies done.contains(d) by {
                let k = choose|k: int| 0 <= k < done.take(i).len() && done.take(i)[k] == d;
                assert(done[k] == d);
            }
            if i < done.len() {
                assert(done.contains(done[i]));
                assert(prev.holds_value_of_turn(start, done, i));
                let turn = choose|turn: Spreadsheet| #[trigger]
                    turn.at_turn(start, prev, done.take(i)) && prev.cell(done[i]).value
                        == turn.value_under(prev.formula_of(done[i]));
                assert(turn.at_turn(start, after, order.take(i))) by {
                    assert forall|d: CellIdentifier| #[trigger]
                        turn.value_of(d) == if order.take(i).contains(d) {
                            after.value_of(d)
                        } else {
                            start.value_of(d)
                        } by {
                        if done.take(i).contains(d) {
                            assert(d != next);
                            assert(after.cell(d) == prev.cell(d));
                        }
                    }
                }
                assert(after.formula_of(c) == prev.formula_of(c));
            } else {
                assert(c == next);
                assert(order.take(i) =~= done);
                assert(prev.at_turn(start, after, order.take(i))) by {
                    assert forall|d: CellIdentifier| #[trigger]
                        prev.value_of(d) == if order.take(i).contains(d) {
                            after.value_of(d)
                        } else {
                            start.value_of(d)
                        } by {
                        if done.contains(d) {
                            assert(d != next);
                            assert(after.cell(d) == prev.cell(d));
                        } else {
                            assert(prev.cell(d) == start.cell(d));
                        }
                    }
                }
                assert(after.formula_of(next) == prev.formula_of(next));
            }
        }
    }
}

/// A cell of a sweep that was stored anew after every cell that its
/// formula reads was settled holds the value of its formula against the
/// sheet as the sweep left it.
pub proof fn lemma_settled_holds_result(
    after: &Spreadsheet,
    before: &Spreadsheet,
    id: CellIdentifier,
    order: Seq<CellIdentifier>,
    i: int,
)
    requires
        after.swept(before, id, order),
        0 <= i < order.len(),
    ensures
        after.holds_result(before, order, i),
{
    let c = order[i];
    let e = after.formula_of(c);
    if after.stored_anew(before, c) && after.inputs_settled(order, i) {
        assert(after.holds_value_of_turn(before, order, i));
        let turn = choose|turn: Spreadsheet| #[trigger]
            turn.at_turn(before, after, order.take(i)) && after.cell(c).value == turn.value_under(e);
        lemma_cells_of_any_sheet(after, &turn, formula_variables(e));
        assert forall|d: CellIdentifier| #[trigger]
            turn.formula_cells(e).contains(d) implies turn.value_of(d) == after.value_of(d) by {
            assert(after.formula_cells(e).contains(d));
            if !order.take(i).contains(d) {
                assert(!order.contains(d));
                assert(after.contains(d) == before.contains(d));
                assert(after.cell(d) == before.cell(d));
            }
        }
        turn.lemma_value_rests_on_inputs(after, e);
    }
}

/// A change runs down a chain. Let the formula of `b` read the cell `a`
/// alone and the formula of `c` the cell `b` alone; let `c` be listed as a
/// reader of `b` only, and `a` not depend on itself. After a sweep from `a`
/// over a sheet with room, `a` is as it was, `b` holds the value of its
/// formula against the sheet as it now stands, and `c` holds the value of
/// its formula against the sheet with that new value of `b`. Both formulas
/// are kept.
#[verifier::rlimit(20)]
pub proof fn lemma_change_runs_down_a_chain(
    after: &Spreadsheet,
    before: &Spreadsheet,
    order: Seq<CellIdentifier>,
    a: CellIdentifier,
    b: CellIdentifier,
    c: CellIdentifier,
)
    requires
        after.swept(before, a, order),
        before.has_room(),
        before.feeds(a, b),
        before.feeds(b, c),
        !before.reaches(a, a),
        forall|x: CellIdentifier| #[trigger] before.dependents(x).contains(c) ==> x == b,
        before.formula_cells(before.formula_of(b)) == seq![a],
        before.formula_cells(before.formula_of(c)) == seq![b],
    ensures
        after.contains(a) == before.contains(a),
        after.cell(a) == before.cell(a),
        after.contains(b) && after.contains(c),
        after.formula_of(b) == before.formula_of(b),
        after.formula_of(c) == before.formula_of(c),
        after.cell(b).value == after.value_under(before.formula_of(b)),
        after.cell(c).value == after.value_under(before.formula_of(c)),
{
    let eb = before.formula_of(b);
    let ec = before.formula_of(c);
    assert(before.reaches(a, b)) by {
        let path = seq![b];
        assert(before.is_path(a, path) && path.last() == b);
    }
    assert(before.reaches(a, c)) by {
        let path = seq![b, c];
        assert(before.is_path(a, path) && path.last() == c);
    }
    assert(order.contains(b) && order.contains(c));
    assert(!order.contains(a));
    let ib = choose|k: int| 0 <= k < order.len() && order[k] == b;
    let ic = choose|k: int| 0 <= k < order.len() && order[k] == c;
    assert(after.cell(b).expr == before.cell(b).expr);
    assert(after.cell(c).expr == before.cell(c).expr);
    lemma_cells_of_any_sheet(after, before, formula_variables(eb));
    lemma_cells_of_any_sheet(after, before, formula_variables(ec));

    assert(after.inputs_settled(order, ib)) by {
        assert forall|d: CellIdentifier| #[trigger]
            after.formula_cells(eb).contains(d) implies !order.contains(d) by {
            assert(seq![a][0] == a);
        }
    }
    lemma_settled_holds_result(after, before, a, order, ib);

    assert(after.listed_no_later(before, a, order, ic - 1, order[ic]));
    assert(a != b);
    let k = after.lemma_some_place_lists(before, a, order, ic - 1, c);
    assert(order.take(ic)[k] == b);
    assert(after.inputs_settled(order, ic)) by {
        assert forall|d: CellIdentifier| #[trigger]
            after.formula_cells(ec).contains(d) implies order.take(ic).contains(d) by {
            assert(seq![b][0] == b);
        }
    }
    lemma_settled_holds_result(after, before, a, order, ic);
}

/// A diamond. Let `b` and `c` read `a`, and let `d` read `b` and `c` and
/// nothing else, and be listed as a reader of these two only, neither of
/// which is `a`. After a sweep from `a` over a sheet with room, `d` stands
/// once in the order of evaluation, behind both `b` and `c`, and holds the
/// value of its formula against the sheet with the new values of both.
#[verifier::rlimit(20)]
pub proof fn lemma_diamond_tip_reads_both(
    after: &Spreadsheet,
    before: &Spreadsheet,
    order: Seq<CellIdentifier>,
    a: CellIdentifier,
    b: CellIdentifier,
    c: CellIdentifier,
    d: CellIdentifier,
)
    requires
        after.swept(before, a, order),
        before.has_room(),
        before.feeds(a, b),
        before.feeds(a, c),
        before.feeds(b, d),
        before.feeds(c, d),
        a != b,
        a != c,
        forall|x: CellIdentifier| #[trigger] before.dependents(x).contains(d) ==> x == b || x == c,
        forall|x: CellIdentifier| #[trigger]
            before.formula_cells(before.formula_of(d)).contains(x) ==> x == b || x == c,
    ensures
        exists|i: int, j: int, k: int|
            0 <= i < k < order.len() && 0 <= j < k && order[i] == b && order[j] == c && order[k]
                == d,
        order.no_duplicates(),
        after.formula_of(d) == before.formula_of(d),
        after.cell(d).value == after.value_under(before.formula_of(d)),
{
    let ed = before.formula_of(d);
    assert(before.reaches(a, b)) by {
        let path = seq![b];
        assert(before.is_path(a, path) && path.last() == b);
    }
    assert(before.reaches(a, c)) by {
        let path = seq![c];
        assert(before.is_path(a, path) && path.last() == c);
    }
    assert(before.reaches(a, d)) by {
        let path = seq![b, d];
        assert(before.is_path(a, path) && path.last() == d);
    }
    assert(order.contains(b) && order.contains(c) && order.contains(d));
    let i = choose|i: int| 0 <= i < order.len() && order[i] == b;
    let j = choose|j: int| 0 <= j < order.len() && order[j] == c;
    let k = choose|k: int| 0 <= k < order.len() && order[k] == d;
    assert(after.lists(before, a, order, -1, order[i]));
    assert(after.lists(before, a, order, -1, order[j]));
    if k < i || k < j {
        assert(after.listed_no_later(before, a, order, -1, order[k]));
        let place = after.lemma_some_place_lists(before, a, order, -1, d);
    }
    assert(i < k && j < k);
    assert(after.cell(d).expr == before.cell(d).expr);
    lemma_cells_of_any_sheet(after, before, formula_variables(ed));
    assert(order.take(k)[i] == b);
    assert(order.take(k)[j] == c);
    assert(after.inputs_settled(order, k)) by {
        assert(after.formula_of(order[k]) == ed);
        assert forall|x: CellIdentifier| #[trigger]
            after.formula_cells(ed).contains(x) implies order.take(k).contains(x) by {
            assert(before.formula_cells(ed).contains(x));
        }
    }
    lemma_settled_holds_result(after, before, a, order, k);
}

/// An error runs down a chain. In a chain as in
/// `lemma_change_runs_down_a_chain`, where `a` is the `i`-th name of the
/// formula of `b` and `b` the `j`-th name of the formula of `c`: when `a`
/// holds an error, both `b` and `c` hold the dependency error after the
/// sweep.
#[verifier::rlimit(20)]
pub proof fn lemma_error_runs_down_a_chain(
    after: &Spreadsheet,
    before: &Spreadsheet,
    order: Seq<CellIdentifier>,
    a: CellIdentifier,
    b: CellIdentifier,
    c: CellIdentifier,
    i: int,
    j: int,
)
    requires
        after.swept(before, a, order),
        before.has_room(),
        before.feeds(a, b),
        before.feeds(b, c),
        !before.reaches(a, a),
        forall|x: CellIdentifier| #[trigger] before.dependents(x).contains(c) ==> x == b,
        before.formula_cells(before.formula_of(b)) == seq![a],
        before.formula_cells(before.formula_of(c)) == seq![b],
        0 <= i < formula_variables(before.formula_of(b)).len(),
        !crate::eval::is_range(formula_variables(before.formula_of(b))[i]),
        crate::identifier::parse_identifier(formula_variables(before.formula_of(b))[i]) == Some(a),
        0 <= j < formula_variables(before.formula_of(c)).len(),
        !crate::eval::is_range(formula_variables(before.formula_of(c))[j]),
        crate::identifier::parse_identifier(formula_variables(before.formula_of(c))[j]) == Some(b),
        before.value_of(a) is Error,
    ensures
        after.value_of(b) == ValueView::Error(dependency_error_marker()),
        after.value_of(c) == ValueView::Error(dependency_error_marker()),
{
    lemma_change_runs_down_a_chain(after, before, order, a, b, c);
    after.lemma_error_is_read(before.formula_of(b), i);
    after.lemma_error_is_read(before.formula_of(c), j);
}

/// Writing a formula into a cell a second time changes nothing but the
/// cell's timestamp and the clock, where the formula does not read the
/// cell itself: the same cells are stored with the same values and
/// formulas, both indices are as they were, and the timestamp is not
/// earlier.
pub proof fn lemma_second_set_changes_only_the_timestamp(
    second: &Spreadsheet,
    first: &Spreadsheet,
    before: &Spreadsheet,
    id: CellIdentifier,
    expr: Seq<char>,
)
    requires
        first.formula_written(before, id, expr),
        second.formula_written(first, id, expr),
        !before.formula_cells(expr).contains(id),
    ensures
        second.same_edges(first),
        forall|c: CellIdentifier| (#[trigger] second.contains(c)) == first.contains(c),
        forall|c: CellIdentifier| c != id ==> (#[trigger] second.cell(c)) == first.cell(c),
        second.cell(id).value == first.cell(id).value,
        second.cell(id).expr == first.cell(id).expr,
        second.cell(id).timestamp >= first.cell(id).timestamp,
{
    assert forall|d: CellIdentifier| #[trigger]
        before.formula_cells(expr).contains(d) implies before.value_of(d) == first.value_of(
        d,
    ) by {
        assert(d != id);
        assert(first.contains(d) == before.contains(d));
        assert(first.cell(d) == before.cell(d));
    }
    before.lemma_value_rests_on_inputs(first, expr);
    second.lemma_rewrite_changes_only_the_timestamp(
        first,
        before,
        id,
        first.cell(id),
        second.cell(id),
        before.formula_cells(expr),
    );
}

/// A list that repeats nothing is its own list of distinct addresses.
pub proof fn lemma_distinct_of_distinct(s: Seq<CellIdentifier>)
    requires
        s.no_duplicates(),
    ensures
        distinct(s) == s,
    decreases s.len(),
{
    if s.len() > 0 {
        let front = s.drop_last();
        assert forall|i: int, j: int| 0 <= i < front.len() && 0 <= j < front.len() && i
            != j implies front[i] != front[j] by {
            assert(front[i] == s[i] && front[j] == s[j]);
        }
        lemma_distinct_of_distinct(front);
        assert(!front.contains(s.last())) by {
            if front.contains(s.last()) {
                let i = choose|i: int| 0 <= i < front.len() && front[i] == s.last();
                assert(s[i] == s[s.len() - 1]);
            }
        }
        assert(s == front.push(s.last()));
    }
}

} // verus!

//! Resolving the variables of a formula against the sheet: each name becomes
//! an argument for the evaluator, and every cell that was looked at becomes a
//! dependency.

use crate::cell_value::{columns_view, values_view, ArgumentView, CellArgument, CellValue, ValueView};
use crate::formula::arguments_view;
use crate::identifier::{parse_identifier, CellIdentifier};
use crate::text::chars_of;
use crate::spreadsheet::{distinct, distinct_ids, Spreadsheet};
use vstd::prelude::*;
use vstd::string::StrSliceExecFns;

verus! {

/// The character that parts the two ends of a range.
pub const RANGE_SEPARATOR: char = '_';

/// How many characters stand before the first separator of `s`: the whole
/// length where it has none.
pub open spec fn separator_index(s: Seq<char>) -> nat
    decreases s.len(),
{
    if s.len() > 0 && s[0] != RANGE_SEPARATOR {
        1 + separator_index(s.drop_first())
    } else {
        0
    }
}

/// When no separator stands among the first `k` characters and one stands
/// next, or the text ends there, then `k` is the index of the first separator.
pub proof fn lemma_separator_index(s: Seq<char>, k: int)
    requires
        0 <= k <= s.len(),
        forall|i: int| 0 <= i < k ==> #[trigger] s[i] != RANGE_SEPARATOR,
        k == s.len() || s[k] == RANGE_SEPARATOR,
    ensures
        separator_index(s) == k,
    decreases k,
{
    if k > 0 {
        let rest = s.drop_first();
        assert(s[0] != RANGE_SEPARATOR);
        assert forall|i: int| 0 <= i < k - 1 implies #[trigger] rest[i] != RANGE_SEPARATOR by {
            assert(rest[i] == s[i + 1]);
        }
        if k < s.len() {
            assert(rest[k - 1] == s[k]);
        }
        lemma_separator_index(rest, k - 1);
    }
}

/// True when the name holds a separator, which makes it the name of a range.
pub open spec fn is_range(name: Seq<char>) -> bool {
    separator_index(name) < name.len()
}

/// The first end of a range name: what stands before the first separator.
pub open spec fn first_end(name: Seq<char>) -> Seq<char> {
    name.take(separator_index(name) as int)
}

/// The second end of a range name: what stands between the first separator
/// and the next, or the end of the name.
pub open spec fn second_end(name: Seq<char>) -> Seq<char> {
    let rest = name.skip(separator_index(name) as int + 1);
    rest.take(separator_index(rest) as int)
}

/// How many steps lead from `first` to `last`, both counted: none when
/// `last` stands before `first`.
pub open spec fn span(first: u32, last: u32) -> nat {
    if first <= last {
        (last - first + 1) as nat
    } else {
        0
    }
}

/// `count` cells of column `col`, from row `first` downwards.
pub open spec fn cells_down(col: u32, first: u32, count: nat) -> Seq<CellIdentifier> {
    Seq::new(count, |k: int| CellIdentifier { col, row: (first + k) as u32 })
}

/// `count` cells of row `row`, from column `first` to the right.
pub open spec fn cells_across(row: u32, first: u32, count: nat) -> Seq<CellIdentifier> {
    Seq::new(count, |k: int| CellIdentifier { col: (first + k) as u32, row })
}

/// The cells of `columns` columns from column `first_col` on, each with its
/// `rows` rows from `first_row` downwards, column after column.
pub open spec fn cells_block(first_col: u32, columns: nat, first_row: u32, rows: nat) -> Seq<
    CellIdentifier,
>
    decreases columns,
{
    if columns == 0 {
        Seq::empty()
    } else {
        cells_block(first_col, (columns - 1) as nat, first_row, rows) + cells_down(
            (first_col + columns - 1) as u32,
            first_row,
            rows,
        )
    }
}

/// What a read of each of `cells` gives, in their order.
pub open spec fn values_at(sheet: &Spreadsheet, cells: Seq<CellIdentifier>) -> Seq<ValueView> {
    cells.map_values(|id: CellIdentifier| sheet.value_of(id))
}

/// The columns of a rectangle, each read from `first_row` downwards.
pub open spec fn columns_at(
    sheet: &Spreadsheet,
    first_col: u32,
    columns: nat,
    first_row: u32,
    rows: nat,
) -> Seq<Seq<ValueView>> {
    Seq::new(
        columns,
        |c: int| values_at(sheet, cells_down((first_col + c) as u32, first_row, rows)),
    )
}

/// The argument that a range between two cells stands for, and the cells
/// that it reads. Two ends in one column give the values of that column from
/// the first end's row to the second's; two ends in one row give the values
/// of that row from the first end's column to the second's; otherwise the
/// range is a rectangle, given column after column, each from the first
/// end's row to the second's.
pub open spec fn resolve_range(sheet: &Spreadsheet, from: CellIdentifier, to: CellIdentifier) -> (
    ArgumentView,
    Seq<CellIdentifier>,
) {
    if from.col == to.col {
        let cells = cells_down(from.col, from.row, span(from.row, to.row));
        (ArgumentView::Vector(values_at(sheet, cells)), cells)
    } else if from.row == to.row {
        let cells = cells_across(from.row, from.col, span(from.col, to.col));
        (ArgumentView::Vector(values_at(sheet, cells)), cells)
    } else {
        (
            ArgumentView::Matrix(
                columns_at(sheet, from.col, span(from.col, to.col), from.row, span(from.row, to.row)),
            ),
            cells_block(from.col, span(from.col, to.col), from.row, span(from.row, to.row)),
        )
    }
}

/// The argument that a variable name stands for, and the cells that it
/// reads; nothing where the name, or an end of the range it names, is not
/// the address of a cell.
pub open spec fn resolve(sheet: &Spreadsheet, name: Seq<char>) -> Option<
    (ArgumentView, Seq<CellIdentifier>),
> {
    if is_range(name) {
        match (parse_identifier(first_end(name)), parse_identifier(second_end(name))) {
            (Some(from), Some(to)) => Some(resolve_range(sheet, from, to)),
            _ => None,
        }
    } else {
        match parse_identifier(name) {
            Some(id) => Some((ArgumentView::Scalar(sheet.value_of(id)), seq![id])),
            None => None,
        }
    }
}

/// The named arguments of the names that stand for something, in the order
/// of the names.
pub open spec fn resolved_arguments(sheet: &Spreadsheet, names: Seq<Seq<char>>) -> Seq<
    (Seq<char>, ArgumentView),
>
    decreases names.len(),
{
    if names.len() == 0 {
        Seq::empty()
    } else {
        match resolve(sheet, names.last()) {
            Some((argument, _)) => resolved_arguments(sheet, names.drop_last()).push(
                (names.last(), argument),
            ),
            None => resolved_arguments(sheet, names.drop_last()),
        }
    }
}

/// Every cell that the names read, in the order in which they are read, a
/// cell as often as it is read.
pub open spec fn resolved_cells(sheet: &Spreadsheet, names: Seq<Seq<char>>) -> Seq<CellIdentifier>
    decreases names.len(),
{
    if names.len() == 0 {
        Seq::empty()
    } else {
        match resolve(sheet, names.last()) {
            Some((_, cells)) => resolved_cells(sheet, names.drop_last()) + cells,
            None => resolved_cells(sheet, names.drop_last()),
        }
    }
}

/// Counts the characters before the first separator.
fn find_separator(chars: &Vec<char>, from: usize) -> (k: usize)
    requires
        from <= chars@.len(),
    ensures
        from <= k <= chars@.len(),
        k - from == separator_index(chars@.skip(from as int)),
{
    let mut k: usize = from;
    while k < chars.len() && chars[k] != RANGE_SEPARATOR
        invariant
            from <= k <= chars@.len(),
            forall|i: int| from <= i < k ==> #[trigger] chars@[i] != RANGE_SEPARATOR,
        decreases chars@.len() - k,
    {
        k += 1;
    }
    proof {
        let rest = chars@.skip(from as int);
        assert forall|i: int| 0 <= i < k - from implies #[trigger] rest[i] != RANGE_SEPARATOR by {
            assert(rest[i] == chars@[from + i]);
        }
        lemma_separator_index(rest, k - from);
    }
    k
}

/// Reads `count` cells of column `col` from row `first` downwards.
fn read_down(sheet: &Spreadsheet, col: u32, first: u32, last: u32, cells: &mut Vec<CellIdentifier>) -> (values:
    Vec<CellValue>)
    ensures
        values_view(values@) == values_at(sheet, cells_down(col, first, span(first, last))),
        final(cells)@ == old(cells)@ + cells_down(col, first, span(first, last)),
{
    let mut values: Vec<CellValue> = Vec::new();
    let mut row: u64 = first as u64;
    let ghost target = cells_down(col, first, span(first, last));
    proof {
        assert(values_view(values@) == values_at(sheet, target.take(0)));
        assert(cells@ == old(cells)@ + target.take(0));
    }
    while row <= last as u64
        invariant
            first <= row <= last + 1 || (first > last && row == first),
            target == cells_down(col, first, span(first, last)),
            values_view(values@) == values_at(sheet, target.take(row - first)),
            cells@ == old(cells)@ + target.take(row - first),
        decreases last + 1 - row,
    {
        let id = CellIdentifier { col, row: row as u32 };
        let value = sheet.get_value(&id);
        proof {
            let k = row - first;
            assert(target[k] == id);
            assert(target.take(k + 1) == target.take(k).push(id));
            assert(values_view(values@.push(value)) == values_view(values@).push(value@));
            assert(values_at(sheet, target.take(k).push(id)) == values_at(
                sheet,
                target.take(k),
            ).push(sheet.value_of(id)));
        }
        values.push(value);
        cells.push(id);
        row += 1;
    }
    proof {
        assert(target.take(target.len() as int) == target);
    }
    values
}

/// Reads `count` cells of row `row` from column `first` to the right.
fn read_across(sheet: &Spreadsheet, row: u32, first: u32, last: u32, cells: &mut Vec<CellIdentifier>) -> (values:
    Vec<CellValue>)
    ensures
        values_view(values@) == values_at(sheet, cells_across(row, first, span(first, last))),
        final(cells)@ == old(cells)@ + cells_across(row, first, span(first, last)),
{
    let mut values: Vec<CellValue> = Vec::new();
    let mut col: u64 = first as u64;
    let ghost target = cells_across(row, first, span(first, last));
    proof {
        assert(values_view(values@) == values_at(sheet, target.take(0)));
        assert(cells@ == old(cells)@ + target.take(0));
    }
    while col <= last as u64
        invariant
            first <= col <= last + 1 || (first > last && col == first),
            target == cells_across(row, first, span(first, last)),
            values_view(values@) == values_at(sheet, target.take(col - first)),
            cells@ == old(cells)@ + target.take(col - first),
        decreases last + 1 - col,
    {
        let id = CellIdentifier { col: col as u32, row };
        let value = sheet.get_value(&id);
        proof {
            let k = col - first;
            assert(target[k] == id);
            assert(target.take(k + 1) == target.take(k).push(id));
            assert(values_view(values@.push(value)) == values_view(values@).push(value@));
            assert(values_at(sheet, target.take(k).push(id)) == values_at(
                sheet,
                target.take(k),
            ).push(sheet.value_of(id)));
        }
        values.push(value);
        cells.push(id);
        col += 1;
    }
    proof {
        assert(target.take(target.len() as int) == target);
    }
    values
}

/// The argument of the range between two cells; the cells that it reads are
/// put at the end of `cells`.
pub fn read_range(
    sheet: &Spreadsheet,
    from: CellIdentifier,
    to: CellIdentifier,
    cells: &mut Vec<CellIdentifier>,
) -> (argument: CellArgument)
    ensures
        argument@ == resolve_range(sheet, from, to).0,
        final(cells)@ == old(cells)@ + resolve_range(sheet, from, to).1,
{
    if from.col == to.col {
        CellArgument::Vector(read_down(sheet, from.col, from.row, to.row, cells))
    } else if from.row == to.row {
        CellArgument::Vector(read_across(sheet, from.row, from.col, to.col, cells))
    } else {
        let mut columns: Vec<Vec<CellValue>> = Vec::new();
        let mut col: u64 = from.col as u64;
        let ghost rows = span(from.row, to.row);
        let ghost count = span(from.col, to.col);
        proof {
            assert(columns_view(columns@) == columns_at(sheet, from.col, 0, from.row, rows));
            assert(cells@ == old(cells)@ + cells_block(from.col, 0, from.row, rows));
        }
        while col <= to.col as u64
            invariant
                from.col <= col <= to.col + 1 || (from.col > to.col && col == from.col),
                rows == span(from.row, to.row),
                count == span(from.col, to.col),
                columns_view(columns@) == columns_at(
                    sheet,
                    from.col,
                    (col - from.col) as nat,
                    from.row,
                    rows,
                ),
                cells@ == old(cells)@ + cells_block(
                    from.col,
                    (col - from.col) as nat,
                    from.row,
                    rows,
                ),
            decreases to.col + 1 - col,
        {
            let ghost before = cells@;
            let column = read_down(sheet, col as u32, from.row, to.row, cells);
            proof {
                let done = (col - from.col) as nat;
                assert(columns_view(columns@.push(column)) == columns_view(columns@).push(
                    values_view(column@),
                ));
                assert(columns_at(sheet, from.col, done + 1, from.row, rows) == columns_at(
                    sheet,
                    from.col,
                    done,
                    from.row,
                    rows,
                ).push(values_at(sheet, cells_down(col as u32, from.row, rows))));
                assert(cells@ == old(cells)@ + cells_block(from.col, done + 1, from.row, rows)) by {
                    assert(cells_block(from.col, done + 1, from.row, rows) == cells_block(
                        from.col,
                        done,
                        from.row,
                        rows,
                    ) + cells_down(col as u32, from.row, rows));
                    assert(cells@ == before + cells_down(col as u32, from.row, rows));
                }
            }
            columns.push(column);
            col += 1;
        }
        CellArgument::Matrix(columns)
    }
}

/// Resolves the name of a range: where both ends are addresses, the range's
/// argument is put at the end of `variables` under the name and the cells
/// that it reads at the end of `dependencies`; otherwise nothing changes.
pub fn parse_range_variable_with_deps(
    spreadsheet: &Spreadsheet,
    cell_variable: &String,
    variables: &mut Vec<(String, CellArgument)>,
    dependencies: &mut Vec<CellIdentifier>,
)
    requires
        is_range(cell_variable@),
    ensures
        match resolve(spreadsheet, cell_variable@) {
            Some((argument, cells)) => {
                &&& arguments_view(final(variables)@) == arguments_view(old(variables)@).push(
                    (cell_variable@, argument),
                )
                &&& final(dependencies)@ == old(dependencies)@ + cells
            },
            None => {
                &&& final(variables)@ == old(variables)@
                &&& final(dependencies)@ == old(dependencies)@
            },
        },
{
    let name = cell_variable.as_str();
    let chars = chars_of(name);
    let first_stop = find_separator(&chars, 0);
    let count = chars.len();
    proof {
        assert(chars@.skip(0) == chars@);
        assert(chars@ == cell_variable@);
        assert(first_stop == separator_index(cell_variable@));
        assert(first_stop < count);
    }
    let second_stop = find_separator(&chars, first_stop + 1);
    let from = match CellIdentifier::parse(name.substring_char(0, first_stop)) {
        Some(id) => id,
        None => {
            return ;
        },
    };
    proof {
        let rest = chars@.skip(first_stop + 1);
        assert(chars@.subrange(first_stop + 1, second_stop as int) == rest.take(
            separator_index(rest) as int,
        ));
        assert(chars@.subrange(0, first_stop as int) == chars@.take(first_stop as int));
    }
    let to = match CellIdentifier::parse(name.substring_char(first_stop + 1, second_stop)) {
        Some(id) => id,
        None => {
            return ;
        },
    };
    let argument = read_range(spreadsheet, from, to, dependencies);
    proof {
        assert(arguments_view(variables@.push((*cell_variable, argument))) == arguments_view(
            variables@,
        ).push((cell_variable@, argument@)));
    }
    variables.push((cell_variable.clone(), argument));
}

/// Resolves the name of one cell: where it is an address, the cell's value
/// is put at the end of `variables` under the name and the cell at the end
/// of `dependencies`; otherwise, as for the name of a range, nothing
/// changes.
pub fn parse_scalar_variable_with_deps(
    spreadsheet: &Spreadsheet,
    cell_variable: &String,
    variables: &mut Vec<(String, CellArgument)>,
    dependencies: &mut Vec<CellIdentifier>,
)
    ensures
        match parse_identifier(cell_variable@) {
            Some(id) => {
                &&& arguments_view(final(variables)@) == arguments_view(old(variables)@).push(
                    (cell_variable@, ArgumentView::Scalar(spreadsheet.value_of(id))),
                )
                &&& final(dependencies)@ == old(dependencies)@.push(id)
            },
            None => {
                &&& final(variables)@ == old(variables)@
                &&& final(dependencies)@ == old(dependencies)@
            },
        },
{
    let cell_identifier = match CellIdentifier::parse(cell_variable.as_str()) {
        Some(id) => id,
        None => {
            return ;
        },
    };
    let argument = CellArgument::Scalar(spreadsheet.get_value(&cell_identifier));
    proof {
        assert(arguments_view(variables@.push((*cell_variable, argument))) == arguments_view(
            variables@,
        ).push((cell_variable@, argument@)));
    }
    variables.push((cell_variable.clone(), argument));
    dependencies.push(cell_identifier);
}

/// True when the name holds a range separator.
pub fn names_range(name: &String) -> (range: bool)
    ensures
        range == is_range(name@),
{
    let chars = chars_of(name.as_str());
    let stop = find_separator(&chars, 0);
    proof {
        assert(chars@.skip(0) == chars@);
    }
    stop < chars.len()
}

/// Resolves the variables of a formula against the sheet. Gives the named
/// arguments of the names that stand for a cell or a range, in the order of
/// the names, and the cells that they read, each once, in the order in which
/// they are first read. Names that stand for nothing are passed over.
pub fn parse_variables_with_deps(spreadsheet: &Spreadsheet, cell_variables: Vec<String>) -> (resolved: (
    Vec<(String, CellArgument)>,
    Vec<CellIdentifier>,
))
    ensures
        arguments_view(resolved.0@) == resolved_arguments(
            spreadsheet,
            crate::formula::texts(cell_variables@),
        ),
        resolved.1@ == distinct(
            resolved_cells(spreadsheet, crate::formula::texts(cell_variables@)),
        ),
{
    let mut variables: Vec<(String, CellArgument)> = Vec::new();
    let mut cells: Vec<CellIdentifier> = Vec::new();
    let ghost names = crate::formula::texts(cell_variables@);
    let mut i: usize = 0;
    proof {
        assert(arguments_view(variables@) == resolved_arguments(spreadsheet, names.take(0)));
    }
    while i < cell_variables.len()
        invariant
            i <= cell_variables@.len(),
            names == crate::formula::texts(cell_variables@),
            arguments_view(variables@) == resolved_arguments(spreadsheet, names.take(i as int)),
            cells@ == resolved_cells(spreadsheet, names.take(i as int)),
        decreases cell_variables@.len() - i,
    {
        proof {
            assert(names.take(i + 1).drop_last() == names.take(i as int));
            assert(names.take(i + 1).last() == cell_variables@[i as int]@);
        }
        if names_range(&cell_variables[i]) {
            parse_range_variable_with_deps(
                spreadsheet,
                &cell_variables[i],
                &mut variables,
                &mut cells,
            );
        } else {
            parse_scalar_variable_with_deps(
                spreadsheet,
                &cell_variables[i],
                &mut variables,
                &mut cells,
            );
        }
        i += 1;
    }
    proof {
        assert(names.take(names.len() as int) == names);
    }
    (variables, distinct_ids(&cells))
}

/// The argument that a name stands for; an empty cell's where it stands
/// for nothing.
pub open spec fn argument_of(sheet: &Spreadsheet, name: Seq<char>) -> ArgumentView {
    match resolve(sheet, name) {
        Some((argument, _)) => argument,
        None => ArgumentView::Scalar(ValueView::Empty),
    }
}

/// Every name that stands for something is bound, by the arguments that
/// the names resolve to, to what it stands for.
pub proof fn lemma_resolved_bindings(sheet: &Spreadsheet, names: Seq<Seq<char>>, i: int)
    requires
        0 <= i < names.len(),
        resolve(sheet, names[i]) is Some,
    ensures
        crate::formula::bindings(resolved_arguments(sheet, names)).contains_key(names[i]),
        crate::formula::bindings(resolved_arguments(sheet, names))[names[i]] == argument_of(
            sheet,
            names[i],
        ),
    decreases names.len(),
{
    let front = names.drop_last();
    if i < names.len() - 1 {
        assert(front[i] == names[i]);
        lemma_resolved_bindings(sheet, front, i);
    }
    match resolve(sheet, names.last()) {
        Some((argument, _)) => {
            let before = resolved_arguments(sheet, front);
            assert(resolved_arguments(sheet, names).drop_last() == before);
        },
        None => {},
    }
}

/// A block holds every cell of each of its columns.
pub proof fn lemma_block_holds_column(
    first_col: u32,
    columns: nat,
    first_row: u32,
    rows: nat,
    c: int,
    d: CellIdentifier,
)
    requires
        0 <= c < columns,
        cells_down((first_col + c) as u32, first_row, rows).contains(d),
    ensures
        cells_block(first_col, columns, first_row, rows).contains(d),
    decreases columns,
{
    let front = cells_block(first_col, (columns - 1) as nat, first_row, rows);
    let last = cells_down((first_col + columns - 1) as u32, first_row, rows);
    if c == columns - 1 {
        let k = choose|k: int| 0 <= k < last.len() && last[k] == d;
        assert((front + last)[front.len() + k] == d);
    } else {
        lemma_block_holds_column(first_col, (columns - 1) as nat, first_row, rows, c, d);
        let k = choose|k: int| 0 <= k < front.len() && front[k] == d;
        assert((front + last)[k] == d);
    }
}

/// The cells that a name reads; none where it stands for nothing.
pub open spec fn cells_of(sheet: &Spreadsheet, name: Seq<char>) -> Seq<CellIdentifier> {
    match resolve(sheet, name) {
        Some((_, cells)) => cells,
        None => Seq::empty(),
    }
}

/// What a name stands for rests on the values of the cells that it reads
/// and on nothing else in the sheet.
pub proof fn lemma_resolve_reads_its_cells(a: &Spreadsheet, b: &Spreadsheet, name: Seq<char>)
    requires
        resolve(a, name) is Some,
        forall|d: CellIdentifier|
            (#[trigger] cells_of(a, name).contains(d)) ==> a.value_of(d) == b.value_of(d),
    ensures
        resolve(a, name) == resolve(b, name),
{
    let cells = cells_of(a, name);
    if is_range(name) {
        let from = parse_identifier(first_end(name))->0;
        let to = parse_identifier(second_end(name))->0;
        if from.col == to.col || from.row == to.row {
            assert forall|k: int| 0 <= k < cells.len() implies a.value_of(cells[k]) == b.value_of(
                cells[k],
            ) by {
                assert(cells.contains(cells[k]));
            }
            assert(values_at(a, cells) == values_at(b, cells));
        } else {
            let columns = span(from.col, to.col);
            let rows = span(from.row, to.row);
            assert forall|c: int| 0 <= c < columns implies #[trigger] columns_at(
                a,
                from.col,
                columns,
                from.row,
                rows,
            )[c] == columns_at(b, from.col, columns, from.row, rows)[c] by {
                let column = cells_down((from.col + c) as u32, from.row, rows);
                assert forall|k: int| 0 <= k < column.len() implies a.value_of(column[k])
                    == b.value_of(column[k]) by {
                    assert(column.contains(column[k]));
                    lemma_block_holds_column(from.col, columns, from.row, rows, c, column[k]);
                }
                assert(values_at(a, column) == values_at(b, column));
            }
            assert(columns_at(a, from.col, columns, from.row, rows) == columns_at(
                b,
                from.col,
                columns,
                from.row,
                rows,
            ));
        }
    } else {
        let id = parse_identifier(name)->0;
        assert(cells[0] == id);
        assert(cells.contains(id));
    }
}

/// The arguments of a formula rest on the values of the cells that its
/// names read and on nothing else in the sheet: two sheets that give the
/// same value for each of these cells give the same arguments.
pub proof fn lemma_arguments_read_their_cells(a: &Spreadsheet, b: &Spreadsheet, names: Seq<Seq<char>>)
    requires
        forall|d: CellIdentifier|
            (#[trigger] resolved_cells(a, names).contains(d)) ==> a.value_of(d) == b.value_of(d),
    ensures
        resolved_arguments(a, names) == resolved_arguments(b, names),
        resolved_cells(a, names) == resolved_cells(b, names),
    decreases names.len(),
{
    if names.len() > 0 {
        let front = names.drop_last();
        let before = resolved_cells(a, front);
        match resolve(a, names.last()) {
            Some((_, cells)) => {
                assert forall|d: CellIdentifier| #[trigger] cells.contains(d) implies a.value_of(d)
                    == b.value_of(d) by {
                    let k = choose|k: int| 0 <= k < cells.len() && cells[k] == d;
                    assert((before + cells)[before.len() + k] == d);
                    assert(resolved_cells(a, names).contains(d));
                }
                lemma_resolve_reads_its_cells(a, b, names.last());
            },
            None => {
                assert(resolved_cells(a, names) == before);
            },
        }
        assert forall|d: CellIdentifier| #[trigger] before.contains(d) implies a.value_of(d)
            == b.value_of(d) by {
            if resolve(a, names.last()) is Some {
                let k = choose|k: int| 0 <= k < before.len() && before[k] == d;
                assert((before + cells_of(a, names.last()))[k] == d);
                assert(resolved_cells(a, names).contains(d));
            }
        }
        lemma_arguments_read_their_cells(a, b, front);
    }
}

/// Which cells a list of names reads does not rest on the sheet.
pub proof fn lemma_cells_of_any_sheet(a: &Spreadsheet, b: &Spreadsheet, names: Seq<Seq<char>>)
    ensures
        resolved_cells(a, names) == resolved_cells(b, names),
    decreases names.len(),
{
    if names.len() > 0 {
        lemma_cells_of_any_sheet(a, b, names.drop_last());
    }
}

} // verus!

//! The formula evaluator of the spreadsheet protocol crate, as the sheet
//! uses it: the variable names of a formula, and the value of a formula
//! under given arguments.

pub use crate::admission::{arguments_view, bindings, holds_error};
use crate::admission::{admits, admitted, binds_error};
use crate::cell_value::{ArgumentView, CellArgument, CellValue, ValueView};
use rsheet_lib::cell_expr::CellArgument as EvaluatorArgument;
use rsheet_lib::cell_expr::CellExpr;
use rsheet_lib::cell_value::CellValue as EvaluatorValue;
use std::collections::HashMap;
use vstd::prelude::*;

verus! {

/// Why a formula gave no value.
#[derive(Debug, PartialEq, Eq, Structural, Clone, Copy)]
pub enum EvaluationError {
    /// One of the arguments holds an error value.
    VariableDependsOnError,
}

/// The variable names that the evaluator finds in the text of a formula, in
/// the order in which it finds them.
pub uninterp spec fn formula_variables(expr: Seq<char>) -> Seq<Seq<char>>;

/// The text of each string of a list.
pub open spec fn texts(strings: Seq<String>) -> Seq<Seq<char>> {
    strings.map_values(|s: String| s@)
}

/// `CellExpr::new` and `CellExpr::find_variable_names`. The contract names
/// the list that the evaluator's parser gives for a formula's text.
#[verifier::external_body]
pub(crate) fn find_variable_names(expr: &str) -> (names: Vec<String>)
    ensures
        texts(names@) == formula_variables(expr@),
{
    CellExpr::new(expr).find_variable_names()
}

/// The arguments of one evaluation, each filed under the name of its
/// variable, in the form in which the evaluator takes them.
#[verifier::external_body]
pub struct ArgumentTable {
    arguments: HashMap<String, EvaluatorArgument>,
}

/// The value that the evaluator gives for an admitted formula under
/// arguments that hold no error. An admitted formula assigns nothing and
/// calls nothing but `sum`, `sleep_then` and the evaluator's two constants
/// in capitals, `E` and `PI`, so its value rests on its text and its
/// arguments and on nothing else.
pub uninterp spec fn formula_value(expr: Seq<char>, bound: Map<Seq<char>, ArgumentView>) -> ValueView;

/// What an [`ArgumentTable`] holds: the argument filed under each name.
pub uninterp spec fn table_bindings(table: ArgumentTable) -> Map<Seq<char>, ArgumentView>;

impl ArgumentTable {
    /// `HashMap::new`. The contract claims that the new table holds nothing.
    #[verifier::external_body]
    fn new() -> (table: ArgumentTable)
        ensures
            table_bindings(table) == (Map::<Seq<char>, ArgumentView>::empty()),
    {
        ArgumentTable { arguments: HashMap::new() }
    }

    /// `HashMap::insert`, with the argument written as the evaluator's own
    /// type. The contract claims that the table then holds `argument` under
    /// `name`, in place of what it held there, and the rest as before.
    #[verifier::external_body]
    fn bind(&mut self, name: &str, argument: &CellArgument)
        ensures
            table_bindings(*final(self)) == table_bindings(*old(self)).insert(name@, argument@),
    {
        let value = |v: &CellValue| match v {
            CellValue::Empty => EvaluatorValue::None,
            CellValue::Integer(i) => EvaluatorValue::Int(*i),
            CellValue::Text(s) => EvaluatorValue::String(s.clone()),
            CellValue::Error(s) => EvaluatorValue::Error(s.clone()),
        };
        let argument = match argument {
            CellArgument::Scalar(v) => EvaluatorArgument::Value(value(v)),
            CellArgument::Vector(vs) => EvaluatorArgument::Vector(vs.iter().map(value).collect()),
            CellArgument::Matrix(m) => EvaluatorArgument::Matrix(m.iter().map(|c| c.iter().map(value).collect()).collect()),
        };
        self.arguments.insert(name.to_string(), argument);
    }

    /// `CellExpr::new` and `CellExpr::evaluate`. The contract claims that the
    /// evaluator refuses with `VariableDependsOnError` exactly when an
    /// argument of the table holds an error value, and names the value that
    /// it gives otherwise. Formulas that are not admitted are left out,
    /// unless an argument holds an error: the evaluator looks at the
    /// arguments first and at the formula only when none holds an error,
    /// and then adds up ranges without a check and pauses for as long as
    /// the formula asks.
    #[verifier::external_body]
    fn evaluate(&self, expr: &str) -> (outcome: Result<CellValue, EvaluationError>)
        requires
            holds_error(table_bindings(*self)) || admitted(expr@, table_bindings(*self)),
        ensures
            (outcome is Err) == holds_error(table_bindings(*self)),
            outcome is Ok ==> outcome->Ok_0@ == formula_value(expr@, table_bindings(*self)),
    {
        match CellExpr::new(expr).evaluate(&self.arguments) {
            Ok(EvaluatorValue::None) => Ok(CellValue::Empty),
            Ok(EvaluatorValue::Int(i)) => Ok(CellValue::Integer(i)),
            Ok(EvaluatorValue::String(s)) => Ok(CellValue::Text(s)),
            Ok(EvaluatorValue::Error(s)) => Ok(CellValue::Error(s)),
            Err(_) => Err(EvaluationError::VariableDependsOnError),
        }
    }
}

/// The message of the error that stands for the value of a formula that is
/// not admitted.
pub open spec fn refusal_message() -> Seq<char> {
    "FORMULA_NOT_ADMITTED"@
}

/// What evaluating the formula `expr` under the arguments `bound` comes
/// to: the refusal where an argument holds an error; else the error of a
/// formula that is not admitted where `expr` is not; else the value that
/// the evaluator gives.
pub open spec fn evaluated(expr: Seq<char>, bound: Map<Seq<char>, ArgumentView>) -> Result<
    ValueView,
    EvaluationError,
> {
    if holds_error(bound) {
        Err(EvaluationError::VariableDependsOnError)
    } else if !admitted(expr, bound) {
        Ok(ValueView::Error(refusal_message()))
    } else {
        Ok(formula_value(expr, bound))
    }
}

/// An outcome of an evaluation as plain values.
pub open spec fn outcome_view(outcome: Result<CellValue, EvaluationError>) -> Result<
    ValueView,
    EvaluationError,
> {
    match outcome {
        Ok(value) => Ok(value@),
        Err(error) => Err(error),
    }
}

/// Evaluates a formula under the arguments that `variables` binds, as
/// `evaluated` says.
pub fn evaluate(expr: &str, variables: &Vec<(String, CellArgument)>) -> (outcome: Result<
    CellValue,
    EvaluationError,
>)
    ensures
        outcome_view(outcome) == evaluated(expr@, bindings(arguments_view(variables@))),
{
    if !admits(expr, variables) && !binds_error(variables) {
        return Ok(CellValue::Error("FORMULA_NOT_ADMITTED".to_owned()));
    }
    let mut table = ArgumentTable::new();
    let mut i: usize = 0;
    while i < variables.len()
        invariant
            i <= variables@.len(),
            table_bindings(table) == bindings(arguments_view(variables@.take(i as int))),
        decreases variables@.len() - i,
    {
        proof {
            assert(variables@.take(i + 1).drop_last() == variables@.take(i as int));
            assert(arguments_view(variables@.take(i + 1)).drop_last() == arguments_view(
                variables@.take(i as int),
            ));
        }
        table.bind(variables[i].0.as_str(), &variables[i].1);
        i += 1;
    }
    proof {
        assert(variables@.take(variables@.len() as int) == variables@);
    }
    table.evaluate(expr)
}

} // verus!

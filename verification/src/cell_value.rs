//! The values a cell can hold and the arguments a formula is evaluated with.

use vstd::prelude::*;

verus! {

/// What a cell holds: nothing, a whole number, a piece of text, or the
/// message of an evaluation that went wrong.
#[derive(Debug)]
pub enum CellValue {
    Empty,
    Integer(i64),
    Text(String),
    Error(String),
}

/// The mathematical content of a [`CellValue`].
pub ghost enum ValueView {
    Empty,
    Integer(i64),
    Text(Seq<char>),
    Error(Seq<char>),
}

impl View for CellValue {
    type V = ValueView;

    open spec fn view(&self) -> ValueView {
        match self {
            CellValue::Empty => ValueView::Empty,
            CellValue::Integer(i) => ValueView::Integer(*i),
            CellValue::Text(s) => ValueView::Text(s@),
            CellValue::Error(s) => ValueView::Error(s@),
        }
    }
}

/// The message of the error that a cell holds when its formula could not be
/// evaluated because a cell that it reads holds an error.
pub open spec fn dependency_error_marker() -> Seq<char> {
    "CELL_DEPENDENCY_ERROR"@
}

impl CellValue {
    /// The error of a cell that reads a cell in error.
    pub fn dependency_error() -> (value: CellValue)
        ensures
            value@ == ValueView::Error(dependency_error_marker()),
    {
        CellValue::Error("CELL_DEPENDENCY_ERROR".to_owned())
    }

    /// True exactly for the error of a cell that reads a cell in error.
    pub fn is_dependency_error(&self) -> (b: bool)
        ensures
            b == (self@ == ValueView::Error(dependency_error_marker())),
    {
        match self {
            CellValue::Error(message) => {
                let marker = "CELL_DEPENDENCY_ERROR".to_owned();
                *message == marker
            },
            _ => false,
        }
    }

    /// True exactly for the `Error` variant.
    pub fn is_error(&self) -> (b: bool)
        ensures
            b == (self@ is Error),
    {
        match self {
            CellValue::Error(_) => true,
            _ => false,
        }
    }

    /// A copy with the same content.
    pub fn duplicate(&self) -> (copy: CellValue)
        ensures
            copy@ == self@,
    {
        match self {
            CellValue::Empty => CellValue::Empty,
            CellValue::Integer(i) => CellValue::Integer(*i),
            CellValue::Text(s) => CellValue::Text(s.clone()),
            CellValue::Error(s) => CellValue::Error(s.clone()),
        }
    }
}

impl Clone for CellValue {
    fn clone(&self) -> (copy: CellValue)
        ensures
            copy@ == self@,
    {
        self.duplicate()
    }
}

/// The content of a list of values, element by element.
pub open spec fn values_view(values: Seq<CellValue>) -> Seq<ValueView> {
    values.map_values(|v: CellValue| v@)
}

/// The content of a list of columns of values.
pub open spec fn columns_view(columns: Seq<Vec<CellValue>>) -> Seq<Seq<ValueView>> {
    columns.map_values(|column: Vec<CellValue>| values_view(column@))
}

/// What a formula variable stands for: one cell, a run of cells along one
/// column or one row, or a rectangle of cells given column by column.
#[derive(Debug)]
pub enum CellArgument {
    Scalar(CellValue),
    Vector(Vec<CellValue>),
    Matrix(Vec<Vec<CellValue>>),
}

/// The mathematical content of a [`CellArgument`].
pub ghost enum ArgumentView {
    Scalar(ValueView),
    Vector(Seq<ValueView>),
    Matrix(Seq<Seq<ValueView>>),
}

impl View for CellArgument {
    type V = ArgumentView;

    open spec fn view(&self) -> ArgumentView {
        match self {
            CellArgument::Scalar(v) => ArgumentView::Scalar(v@),
            CellArgument::Vector(vs) => ArgumentView::Vector(values_view(vs@)),
            CellArgument::Matrix(columns) => ArgumentView::Matrix(columns_view(columns@)),
        }
    }
}

impl ArgumentView {
    /// True when some value inside the argument is an error.
    pub open spec fn holds_error(self) -> bool {
        match self {
            ArgumentView::Scalar(v) => v is Error,
            ArgumentView::Vector(vs) => exists|i: int| 0 <= i < vs.len() && vs[i] is Error,
            ArgumentView::Matrix(columns) => exists|i: int, j: int|
                0 <= i < columns.len() && 0 <= j < columns[i].len() && columns[i][j] is Error,
        }
    }
}

} // verus!

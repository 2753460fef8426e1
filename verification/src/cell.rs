//! One cell of the sheet: its value, the formula it came from, and the time
//! of the write that put it there.

use crate::cell_value::{CellValue, ValueView};
use std::time::{Duration, SystemTime, SystemTimeError};
use vstd::prelude::*;

verus! {

#[verifier::external_type_specification]
#[verifier::external_body]
pub struct ExSystemTime(SystemTime);

#[verifier::external_type_specification]
#[verifier::external_body]
pub struct ExSystemTimeError(SystemTimeError);

/// `SystemTime::now`: the reading of the system clock. Nothing is claimed of it.
pub assume_specification[ SystemTime::now ]() -> (now: SystemTime);

/// `SystemTime::duration_since`: the time between two readings, or an error
/// when the second is the later one. Nothing is claimed of either.
pub assume_specification[ SystemTime::duration_since ](
    time: &SystemTime,
    earlier: SystemTime,
) -> (elapsed: Result<Duration, SystemTimeError>);

/// `Duration::as_secs`: the whole seconds of a duration. Nothing is claimed
/// of their number.
pub assume_specification[ Duration::as_secs ](duration: &Duration) -> (seconds: u64);

/// `SystemTime::UNIX_EPOCH`: the reading that timestamps are counted from.
#[verifier::external_body]
fn unix_epoch() -> (epoch: SystemTime) {
    SystemTime::UNIX_EPOCH
}

/// What a cell is, as plain values.
pub ghost struct CellView {
    pub value: ValueView,
    pub expr: Option<Seq<char>>,
    pub timestamp: u64,
}

/// A value, the text of the formula that gave it (none for a literal), and
/// the timestamp of the write. Timestamps order writes and mean nothing else.
#[derive(Debug)]
pub struct Cell {
    expr: Option<String>,
    value: CellValue,
    timestamp: u64,
}

impl View for Cell {
    type V = CellView;

    closed spec fn view(&self) -> CellView {
        CellView {
            value: self.value@,
            expr: match self.expr {
                Some(text) => Some(text@),
                None => None,
            },
            timestamp: self.timestamp,
        }
    }
}

impl Cell {
    /// A literal cell, stamped with the clock's reading.
    pub fn new(value: &CellValue) -> (cell: Cell)
        ensures
            cell@.value == value@,
            cell@.expr is None,
    {
        Cell::with_timestamp(None, value.duplicate(), Cell::current_timestamp())
    }

    /// The result of a formula, stamped with the clock's reading.
    pub fn new_with_expr(expr: String, value: CellValue) -> (cell: Cell)
        ensures
            cell@.value == value@,
            cell@.expr == Some(expr@),
    {
        Cell::with_timestamp(Some(expr), value, Cell::current_timestamp())
    }

    /// A cell with every part given.
    pub fn with_timestamp(expr: Option<String>, value: CellValue, timestamp: u64) -> (cell: Cell)
        ensures
            cell@.value == value@,
            cell@.expr == match expr {
                Some(text) => Some(text@),
                None => None,
            },
            cell@.timestamp == timestamp,
    {
        Cell { expr, value, timestamp }
    }

    /// Whole seconds since the epoch by the system clock; 0 when the clock
    /// stands before the epoch.
    pub(crate) fn current_timestamp() -> (seconds: u64) {
        let now = SystemTime::now();
        match now.duration_since(unix_epoch()) {
            Ok(elapsed) => elapsed.as_secs(),
            Err(_) => 0,
        }
    }

    pub fn value(&self) -> (value: &CellValue)
        ensures
            value@ == self@.value,
    {
        &self.value
    }

    pub fn expr(&self) -> (expr: Option<&String>)
        ensures
            match expr {
                Some(text) => self@.expr == Some(text@),
                None => self@.expr is None,
            },
    {
        self.expr.as_ref()
    }

    pub fn timestamp(&self) -> (timestamp: &u64)
        ensures
            *timestamp == self@.timestamp,
    {
        &self.timestamp
    }

    /// A copy with the same value, formula and timestamp.
    pub fn duplicate(&self) -> (copy: Cell)
        ensures
            copy@ == self@,
    {
        let expr = match &self.expr {
            Some(text) => Some(text.clone()),
            None => None,
        };
        Cell { expr, value: self.value.duplicate(), timestamp: self.timestamp }
    }

    /// True when `self` was written strictly later than `other`.
    pub fn is_newer_than(&self, other: &Cell) -> (newer: bool)
        ensures
            newer == (self@.timestamp > other@.timestamp),
    {
        self.timestamp > other.timestamp
    }
}

} // verus!

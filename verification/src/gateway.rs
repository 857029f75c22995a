//! The persistence gateway, seen from the core: the statements it is asked
//! to execute and what it hands back.
use vstd::prelude::*;
use crate::models::{Row, Table};

verus! {

/// One statement for the store. Each touches one table.
#[derive(Debug, Clone, PartialEq)]
pub enum Statement {
    /// Read every row of a table, in no promised order.
    List(Table),
    /// Read the row that a table keeps under an identifier.
    Find(Table, u128),
    /// Add a row to its table.
    Insert(Row),
    /// Replace the row that has the same table and identifier.
    Update(Row),
    /// Remove the row that a table keeps under an identifier.
    Delete(Table, u128),
}

/// What came of a statement.
#[derive(Debug, Clone, PartialEq)]
pub enum Event {
    /// The store could not be reached, or refused the statement.
    Failed,
    /// The rows read.
    Rows(Vec<Row>),
    /// The row looked for, if there is one.
    Found(Option<Row>),
    /// How many rows a write touched.
    Affected(u64),
}

/// An [`Event`] with its rows as a sequence.
pub enum EventView {
    Failed,
    Rows(Seq<Row>),
    Found(Option<Row>),
    Affected(u64),
}

impl View for Event {
    type V = EventView;

    open spec fn view(&self) -> EventView {
        match *self {
            Event::Failed => EventView::Failed,
            Event::Rows(rows) => EventView::Rows(rows@),
            Event::Found(row) => EventView::Found(row),
            Event::Affected(count) => EventView::Affected(count),
        }
    }
}

} // verus!

//! A gateway that keeps its rows in memory, in the order in which they were
//! added. It is what the rest of the crate takes a store to be: within a
//! table no two rows share an identifier, and a statement touches the one
//! row it names or none.
use vstd::prelude::*;
use crate::gateway::{Event, EventView, Statement};
use crate::models::{Row, Table};

verus! {

/// The rows of all tables.
pub struct Store {
    rows: Vec<Row>,
}

impl View for Store {
    type V = Seq<Row>;

    closed spec fn view(&self) -> Seq<Row> {
        self.rows@
    }
}

/// Whether no two of the rows have both their table and their identifier
/// in common.
pub open spec fn keys_distinct(rows: Seq<Row>) -> bool {
    forall|i: int, j: int|
        0 <= i < j < rows.len() ==> !(#[trigger] rows[i]).is(
            (#[trigger] rows[j]).table(),
            rows[j].id(),
        )
}

/// Where the row that `table` keeps under `id` stands among the rows.
pub open spec fn position(rows: Seq<Row>, table: Table, id: u128) -> Option<int> {
    if exists|i: int| 0 <= i < rows.len() && (#[trigger] rows[i]).is(table, id) {
        Some(choose|i: int| 0 <= i < rows.len() && (#[trigger] rows[i]).is(table, id))
    } else {
        None
    }
}

/// The row that `table` keeps under `id`.
pub open spec fn row_of(rows: Seq<Row>, table: Table, id: u128) -> Option<Row> {
    match position(rows, table, id) {
        Some(at) => Some(rows[at]),
        None => None,
    }
}

/// The test of belonging to a table.
pub open spec fn of_table(table: Table) -> spec_fn(Row) -> bool {
    |row: Row| row.table() == table
}

/// What a statement does to the rows, and what comes of it.
///
/// Reading changes nothing. An insertion adds the row at the end, unless
/// its table has a row under that identifier already: then it fails. An
/// update replaces, and a removal takes out, the row that the table keeps
/// under the identifier, and touches nothing where there is none.
pub open spec fn executed(rows: Seq<Row>, statement: Statement) -> (Seq<Row>, EventView) {
    match statement {
        Statement::List(table) => (rows, EventView::Rows(rows.filter(of_table(table)))),
        Statement::Find(table, id) => (rows, EventView::Found(row_of(rows, table, id))),
        Statement::Insert(row) => match position(rows, row.table(), row.id()) {
            Some(_) => (rows, EventView::Failed),
            None => (rows.push(row), EventView::Affected(1)),
        },
        Statement::Update(row) => match position(rows, row.table(), row.id()) {
            Some(at) => (rows.update(at, row), EventView::Affected(1)),
            None => (rows, EventView::Affected(0)),
        },
        Statement::Delete(table, id) => match position(rows, table, id) {
            Some(at) => (rows.remove(at), EventView::Affected(1)),
            None => (rows, EventView::Affected(0)),
        },
    }
}

/// Executing a statement keeps the identifiers of each table distinct.
pub proof fn lemma_executed_keeps_keys_distinct(rows: Seq<Row>, statement: Statement)
    requires
        keys_distinct(rows),
    ensures
        keys_distinct(executed(rows, statement).0),
{
    let after = executed(rows, statement).0;
    match statement {
        Statement::Insert(row) => {
            if position(rows, row.table(), row.id()) is None {
                assert forall|i: int, j: int| 0 <= i < j < after.len() implies !(#[trigger] after[i]).is(
                    (#[trigger] after[j]).table(),
                    after[j].id(),
                ) by {
                    if j == rows.len() {
                        assert(!rows[i].is(row.table(), row.id()));
                    } else {
                        assert(!rows[i].is(rows[j].table(), rows[j].id()));
                    }
                }
            }
        },
        Statement::Update(row) => {
            match position(rows, row.table(), row.id()) {
                Some(at) => {
                    assert forall|i: int, j: int| 0 <= i < j < after.len() implies !(
                    #[trigger] after[i]).is((#[trigger] after[j]).table(), after[j].id()) by {
                        assert(!rows[i].is(rows[j].table(), rows[j].id()));
                    }
                },
                None => {},
            }
        },
        Statement::Delete(table, id) => {
            match position(rows, table, id) {
                Some(at) => {
                    assert forall|i: int, j: int| 0 <= i < j < after.len() implies !(
                    #[trigger] after[i]).is((#[trigger] after[j]).table(), after[j].id()) by {
                        let from = if i < at { i } else { i + 1 };
                        let to = if j < at { j } else { j + 1 };
                        assert(!rows[from].is(rows[to].table(), rows[to].id()));
                    }
                },
                None => {},
            }
        },
        _ => {},
    }
}

impl Store {
    /// Whether the store is as every store is: within a table no two rows
    /// share an identifier.
    pub open spec fn well_formed(&self) -> bool {
        keys_distinct(self@)
    }

    /// A store without rows.
    pub fn new() -> (store: Store)
        ensures
            store.well_formed(),
            store@ == Seq::<Row>::empty(),
    {
        Store { rows: Vec::new() }
    }

    /// How many rows the store holds, all tables together.
    pub fn len(&self) -> (count: usize)
        ensures
            count == self@.len(),
    {
        self.rows.len()
    }

    fn find(&self, table: Table, id: u128) -> (found: Option<usize>)
        requires
            self.well_formed(),
        ensures
            found matches Some(at) ==> position(self@, table, id) == Some(at as int) && at
                < self@.len() && self@[at as int].is(table, id),
            found is None ==> position(self@, table, id) is None,
    {
        let mut at: usize = 0;
        while at < self.rows.len()
            invariant
                at <= self.rows.len(),
                self.well_formed(),
                forall|j: int| 0 <= j < at ==> !(#[trigger] self.rows@[j]).is(table, id),
            decreases self.rows.len() - at,
        {
            if self.rows[at].is(table, id) {
                proof {
                    let rows = self.rows@;
                    let chosen = choose|i: int|
                        0 <= i < rows.len() && (#[trigger] rows[i]).is(table, id);
                    assert(rows[at as int].is(table, id));
                    if chosen < at {
                        assert(!rows[chosen].is(rows[at as int].table(), rows[at as int].id()));
                    } else if chosen > at {
                        assert(!rows[at as int].is(rows[chosen].table(), rows[chosen].id()));
                    }
                }
                return Some(at);
            }
            at += 1;
        }
        None
    }

    fn list(&self, table: Table) -> (rows: Vec<Row>)
        ensures
            rows@ == self@.filter(of_table(table)),
    {
        let mut rows: Vec<Row> = Vec::new();
        let mut at: usize = 0;
        while at < self.rows.len()
            invariant
                at <= self.rows.len(),
                rows@ == self.rows@.take(at as int).filter(of_table(table)),
            decreases self.rows.len() - at,
        {
            proof {
                self.rows@.take(at as int).lemma_filter_push(
                    self.rows@[at as int],
                    of_table(table),
                );
                assert(self.rows@.take(at as int + 1) =~= self.rows@.take(at as int).push(
                    self.rows@[at as int],
                ));
            }
            if self.rows[at].table() == table {
                rows.push(self.rows[at].duplicate());
            }
            at += 1;
        }
        proof {
            assert(self.rows@.take(self.rows.len() as int) =~= self.rows@);
        }
        rows
    }

    /// Executes a statement.
    pub fn execute(&mut self, statement: Statement) -> (event: Event)
        requires
            old(self).well_formed(),
        ensures
            final(self).well_formed(),
            (final(self)@, event@) == executed(old(self)@, statement),
    {
        proof {
            lemma_executed_keeps_keys_distinct(self.rows@, statement);
        }
        match statement {
            Statement::List(table) => Event::Rows(self.list(table)),
            Statement::Find(table, id) => {
                match self.find(table, id) {
                    Some(at) => Event::Found(Some(self.rows[at].duplicate())),
                    None => Event::Found(None),
                }
            },
            Statement::Insert(row) => {
                match self.find(row.table(), row.id()) {
                    Some(_) => Event::Failed,
                    None => {
                        self.rows.push(row);
                        Event::Affected(1)
                    },
                }
            },
            Statement::Update(row) => {
                match self.find(row.table(), row.id()) {
                    Some(at) => {
                        self.rows.set(at, row);
                        Event::Affected(1)
                    },
                    None => Event::Affected(0),
                }
            },
            Statement::Delete(table, id) => {
                match self.find(table, id) {
                    Some(at) => {
                        self.rows.remove(at);
                        Event::Affected(1)
                    },
                    None => Event::Affected(0),
                }
            },
        }
    }
}

} // verus!

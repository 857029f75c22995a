//! What every table has in common: partial updates, merged into the row as
//! it was read just before the write.
use vstd::prelude::*;
use crate::models::client::Client;
use crate::models::expense::{Expense, UpdateExpense};
use crate::models::payment::{Payment, UpdatePayment};
use crate::models::product::{Product, UpdateProduct};
use crate::models::supplier::Supplier;
use crate::models::{Row, Table};
use crate::schema::{UpdateClient, UpdateSupplier};

verus! {

/// Changes to a row of one of the tables that callers may update directly.
#[derive(Debug, Clone, PartialEq)]
pub enum Changes {
    Client(UpdateClient),
    Product(UpdateProduct),
    Supplier(UpdateSupplier),
    Expense(UpdateExpense),
    Payment(UpdatePayment),
}

impl Changes {
    /// The table whose rows the changes are for.
    pub open spec fn spec_table(&self) -> Table {
        match *self {
            Changes::Client(_) => Table::Clients,
            Changes::Product(_) => Table::Products,
            Changes::Supplier(_) => Table::Suppliers,
            Changes::Expense(_) => Table::Expenses,
            Changes::Payment(_) => Table::Payments,
        }
    }

    /// The row after the changes: every field that the changes give is
    /// replaced, every other field stays as it is in `existing`. `None`
    /// where the row is of another table than the changes.
    pub open spec fn applied(self, existing: Row) -> Option<Row> {
        match (self, existing) {
            (Changes::Client(changes), Row::Client(client)) => Some(
                Row::Client(client.merged(changes)),
            ),
            (Changes::Product(changes), Row::Product(product)) => Some(
                Row::Product(product.merged(changes)),
            ),
            (Changes::Supplier(changes), Row::Supplier(supplier)) => Some(
                Row::Supplier(supplier.merged(changes)),
            ),
            (Changes::Expense(changes), Row::Expense(expense)) => Some(
                Row::Expense(expense.merged(changes)),
            ),
            (Changes::Payment(changes), Row::Payment(payment)) => Some(
                Row::Payment(payment.merged(changes)),
            ),
            _ => None,
        }
    }

    /// Whether the changes give no field at all. Those to a product always
    /// give every field.
    pub open spec fn gives_nothing(&self) -> bool {
        match *self {
            Changes::Client(c) => c.name is None && c.email is None && c.phone is None,
            Changes::Product(_) => false,
            Changes::Supplier(c) => c.name is None && c.email is None && c.phone is None,
            Changes::Expense(c) => c.description is None && c.supplier_id is None && c.amount
                is None && c.due_date is None && c.paid is None,
            Changes::Payment(c) => c.expense_id is None && c.payment_date is None && c.amount
                is None && c.method is None,
        }
    }

    /// The table whose rows the changes are for.
    #[verifier::when_used_as_spec(spec_table)]
    pub fn table(&self) -> (table: Table)
        ensures
            table == self.spec_table(),
    {
        match self {
            Changes::Client(_) => Table::Clients,
            Changes::Product(_) => Table::Products,
            Changes::Supplier(_) => Table::Suppliers,
            Changes::Expense(_) => Table::Expenses,
            Changes::Payment(_) => Table::Payments,
        }
    }

    /// Merges the changes into the row that was read.
    pub fn apply(self, existing: Row) -> (merged: Option<Row>)
        ensures
            merged == self.applied(existing),
    {
        match (self, existing) {
            (Changes::Client(changes), Row::Client(client)) => Some(
                Row::Client(client.merge(changes)),
            ),
            (Changes::Product(changes), Row::Product(product)) => Some(
                Row::Product(product.merge(changes)),
            ),
            (Changes::Supplier(changes), Row::Supplier(supplier)) => Some(
                Row::Supplier(supplier.merge(changes)),
            ),
            (Changes::Expense(changes), Row::Expense(expense)) => Some(
                Row::Expense(expense.merge(changes)),
            ),
            (Changes::Payment(changes), Row::Payment(payment)) => Some(
                Row::Payment(payment.merge(changes)),
            ),
            _ => None,
        }
    }
}

} // verus!

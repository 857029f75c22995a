//! The six kinds of row that the store keeps.
use vstd::prelude::*;

pub mod client;
pub mod expense;
pub mod payment;
pub mod product;
pub mod sale;
pub mod supplier;

use client::Client;
use expense::Expense;
use payment::Payment;
use product::Product;
use sale::SaleRecord;
use supplier::Supplier;

verus! {

/// A table of the store, one for each kind of row.
#[derive(Debug, Clone, Copy, PartialEq, Eq, Structural)]
pub enum Table {
    Clients,
    Products,
    Suppliers,
    Expenses,
    Payments,
    Sales,
}

/// A row of any table.
#[derive(Debug, Clone, PartialEq)]
pub enum Row {
    Client(Client),
    Product(Product),
    Supplier(Supplier),
    Expense(Expense),
    Payment(Payment),
    Sale(SaleRecord),
}

impl Table {
    /// The name of the table in the store.
    pub open spec fn name_of(self) -> Seq<char> {
        match self {
            Table::Clients => "clients"@,
            Table::Products => "products"@,
            Table::Suppliers => "suppliers"@,
            Table::Expenses => "expenses"@,
            Table::Payments => "payments"@,
            Table::Sales => "sales"@,
        }
    }

    /// The name under which the store knows the table.
    pub fn name(self) -> (name: &'static str)
        ensures
            name@ == self.name_of(),
    {
        match self {
            Table::Clients => "clients",
            Table::Products => "products",
            Table::Suppliers => "suppliers",
            Table::Expenses => "expenses",
            Table::Payments => "payments",
            Table::Sales => "sales",
        }
    }
}

impl Row {
    /// The table that the row belongs to.
    pub open spec fn spec_table(&self) -> Table {
        match *self {
            Row::Client(_) => Table::Clients,
            Row::Product(_) => Table::Products,
            Row::Supplier(_) => Table::Suppliers,
            Row::Expense(_) => Table::Expenses,
            Row::Payment(_) => Table::Payments,
            Row::Sale(_) => Table::Sales,
        }
    }

    /// The identifier of the row, unique within its table.
    pub open spec fn spec_id(&self) -> u128 {
        match *self {
            Row::Client(client) => client.id,
            Row::Product(product) => product.id,
            Row::Supplier(supplier) => supplier.id,
            Row::Expense(expense) => expense.id,
            Row::Payment(payment) => payment.id,
            Row::Sale(sale) => sale.id,
        }
    }

    /// Whether the row is the one that `table` keeps under `id`.
    pub open spec fn spec_is(&self, table: Table, id: u128) -> bool {
        self.spec_table() == table && self.spec_id() == id
    }

    /// The table that the row belongs to.
    #[verifier::when_used_as_spec(spec_table)]
    pub fn table(&self) -> (table: Table)
        ensures
            table == self.spec_table(),
    {
        match self {
            Row::Client(_) => Table::Clients,
            Row::Product(_) => Table::Products,
            Row::Supplier(_) => Table::Suppliers,
            Row::Expense(_) => Table::Expenses,
            Row::Payment(_) => Table::Payments,
            Row::Sale(_) => Table::Sales,
        }
    }

    /// The identifier of the row.
    #[verifier::when_used_as_spec(spec_id)]
    pub fn id(&self) -> (id: u128)
        ensures
            id == self.spec_id(),
    {
        match self {
            Row::Client(client) => client.id,
            Row::Product(product) => product.id,
            Row::Supplier(supplier) => supplier.id,
            Row::Expense(expense) => expense.id,
            Row::Payment(payment) => payment.id,
            Row::Sale(sale) => sale.id,
        }
    }

    /// Whether the row is the one that `table` keeps under `id`.
    #[verifier::when_used_as_spec(spec_is)]
    pub fn is(&self, table: Table, id: u128) -> (same: bool)
        ensures
            same == self.spec_is(table, id),
    {
        self.table() == table && self.id() == id
    }

    /// A copy of the row.
    pub fn duplicate(&self) -> (copy: Row)
        ensures
            copy == *self,
    {
        match self {
            Row::Client(client) => Row::Client(client.duplicate()),
            Row::Product(product) => Row::Product(product.duplicate()),
            Row::Supplier(supplier) => Row::Supplier(supplier.duplicate()),
            Row::Expense(expense) => Row::Expense(expense.duplicate()),
            Row::Payment(payment) => Row::Payment(payment.duplicate()),
            Row::Sale(sale) => Row::Sale(*sale),
        }
    }
}

} // verus!

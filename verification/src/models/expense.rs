//! Expenses. Amounts are whole numbers of hundredths; dates count days since
//! 1970-01-01.
use vstd::prelude::*;
use crate::schema::{overlaid, overlaid_optional, overlay, overlay_optional};

verus! {

/// An expense, owed to a supplier or to nobody in particular.
#[derive(Debug, Clone, PartialEq)]
pub struct Expense {
    pub id: u128,
    pub description: String,
    /// The supplier, if any; nothing here checks that it exists.
    pub supplier_id: Option<u128>,
    pub amount: i64,
    pub due_date: i32,
    pub paid: bool,
    pub created_at: i64,
}

/// An expense to be created; it starts unpaid.
#[derive(Debug, Clone, PartialEq)]
pub struct CreateExpense {
    pub description: String,
    pub supplier_id: Option<u128>,
    pub amount: i64,
    pub due_date: i32,
}

/// Changes to an expense; an absent field keeps its stored value.
#[derive(Debug, Clone, PartialEq)]
pub struct UpdateExpense {
    pub description: Option<String>,
    pub supplier_id: Option<u128>,
    pub amount: Option<i64>,
    pub due_date: Option<i32>,
    pub paid: Option<bool>,
}

impl Expense {
    /// The expense that `input` describes, created unpaid at `now` under `id`.
    pub open spec fn created(id: u128, now: i64, input: CreateExpense) -> Expense {
        Expense {
            id,
            description: input.description,
            supplier_id: input.supplier_id,
            amount: input.amount,
            due_date: input.due_date,
            paid: false,
            created_at: now,
        }
    }

    /// This expense after `changes`: each given field replaces the stored
    /// one; the identifier and the creation time stay.
    pub open spec fn merged(self, changes: UpdateExpense) -> Expense {
        Expense {
            id: self.id,
            description: overlaid(changes.description, self.description),
            supplier_id: overlaid_optional(changes.supplier_id, self.supplier_id),
            amount: overlaid(changes.amount, self.amount),
            due_date: overlaid(changes.due_date, self.due_date),
            paid: overlaid(changes.paid, self.paid),
            created_at: self.created_at,
        }
    }

    /// Makes the expense that an input describes.
    pub fn create(id: u128, now: i64, input: CreateExpense) -> (expense: Expense)
        ensures
            expense == Expense::created(id, now, input),
    {
        Expense {
            id,
            description: input.description,
            supplier_id: input.supplier_id,
            amount: input.amount,
            due_date: input.due_date,
            paid: false,
            created_at: now,
        }
    }

    /// Applies changes to the expense.
    pub fn merge(self, changes: UpdateExpense) -> (expense: Expense)
        ensures
            expense == self.merged(changes),
    {
        Expense {
            id: self.id,
            description: overlay(changes.description, self.description),
            supplier_id: overlay_optional(changes.supplier_id, self.supplier_id),
            amount: overlay(changes.amount, self.amount),
            due_date: overlay(changes.due_date, self.due_date),
            paid: overlay(changes.paid, self.paid),
            created_at: self.created_at,
        }
    }

    /// A copy of the expense.
    pub fn duplicate(&self) -> (copy: Expense)
        ensures
            copy == *self,
    {
        Expense {
            id: self.id,
            description: self.description.clone(),
            supplier_id: self.supplier_id,
            amount: self.amount,
            due_date: self.due_date,
            paid: self.paid,
            created_at: self.created_at,
        }
    }
}

} // verus!

//! Payments. Amounts are whole numbers of hundredths; dates count days since
//! 1970-01-01.
use vstd::prelude::*;
use crate::schema::{duplicate_text, overlaid, overlaid_optional, overlay, overlay_optional};

verus! {

/// A payment, made against an expense or against none.
#[derive(Debug, Clone, PartialEq)]
pub struct Payment {
    pub id: u128,
    /// The expense, if any; nothing here checks that it exists.
    pub expense_id: Option<u128>,
    pub payment_date: Option<i32>,
    pub amount: i64,
    pub method: Option<String>,
}

/// A payment to be created.
#[derive(Debug, Clone, PartialEq)]
pub struct CreatePayment {
    pub expense_id: Option<u128>,
    pub payment_date: Option<i32>,
    pub amount: i64,
    pub method: Option<String>,
}

/// Changes to a payment; an absent field keeps its stored value.
#[derive(Debug, Clone, PartialEq)]
pub struct UpdatePayment {
    pub expense_id: Option<u128>,
    pub payment_date: Option<i32>,
    pub amount: Option<i64>,
    pub method: Option<String>,
}

impl Payment {
    /// The payment that `input` describes, under the identifier `id`.
    pub open spec fn created(id: u128, input: CreatePayment) -> Payment {
        Payment {
            id,
            expense_id: input.expense_id,
            payment_date: input.payment_date,
            amount: input.amount,
            method: input.method,
        }
    }

    /// This payment after `changes`: each given field replaces the stored
    /// one; the identifier stays.
    pub open spec fn merged(self, changes: UpdatePayment) -> Payment {
        Payment {
            id: self.id,
            expense_id: overlaid_optional(changes.expense_id, self.expense_id),
            payment_date: overlaid_optional(changes.payment_date, self.payment_date),
            amount: overlaid(changes.amount, self.amount),
            method: overlaid_optional(changes.method, self.method),
        }
    }

    /// Makes the payment that an input describes.
    pub fn create(id: u128, input: CreatePayment) -> (payment: Payment)
        ensures
            payment == Payment::created(id, input),
    {
        Payment {
            id,
            expense_id: input.expense_id,
            payment_date: input.payment_date,
            amount: input.amount,
            method: input.method,
        }
    }

    /// Applies changes to the payment.
    pub fn merge(self, changes: UpdatePayment) -> (payment: Payment)
        ensures
            payment == self.merged(changes),
    {
        Payment {
            id: self.id,
            expense_id: overlay_optional(changes.expense_id, self.expense_id),
            payment_date: overlay_optional(changes.payment_date, self.payment_date),
            amount: overlay(changes.amount, self.amount),
            method: overlay_optional(changes.method, self.method),
        }
    }

    /// A copy of the payment.
    pub fn duplicate(&self) -> (copy: Payment)
        ensures
            copy == *self,
    {
        Payment {
            id: self.id,
            expense_id: self.expense_id,
            payment_date: self.payment_date,
            amount: self.amount,
            method: duplicate_text(&self.method),
        }
    }
}

} // verus!

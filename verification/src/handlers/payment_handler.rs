//! Requests on payments.
use vstd::prelude::*;
use crate::ids::{is_random_id, new_id, parse_id, parsed_id};
use crate::models::payment::{CreatePayment, Payment, UpdatePayment};
use crate::models::{Row, Table};
use crate::repository::Changes;
use crate::task::Task;

verus! {

/// `GET /payments`.
pub fn get_payments() -> (task: Task)
    ensures
        task == Task::List(Table::Payments),
{
    Task::List(Table::Payments)
}

/// `GET /payments/{id}`.
pub fn get_payment_by_id(path: &str) -> (task: Task)
    ensures
        task == Task::Get(Table::Payments, parsed_id(path@)),
{
    Task::Get(Table::Payments, parse_id(path))
}

/// `POST /payments`: the payment is stored under a new identifier, which is
/// the answer.
pub fn create_payment(payment: CreatePayment) -> (task: Task)
    ensures
        task matches Task::Create { row: Row::Payment(created), echo: false } && created
            == Payment::created(created.id, payment) && is_random_id(created.id),
{
    Task::Create { row: Row::Payment(Payment::create(new_id(), payment)), echo: false }
}

/// `PATCH /payments/{id}`: the fields given replace the stored ones.
pub fn update_payment(path: &str, payment_update: UpdatePayment) -> (task: Task)
    ensures
        task == (Task::Patch { id: parsed_id(path@), changes: Changes::Payment(payment_update) }),
{
    Task::Patch { id: parse_id(path), changes: Changes::Payment(payment_update) }
}

/// `DELETE /payments/{id}`.
pub fn delete_payment(path: &str) -> (task: Task)
    ensures
        task == Task::Delete(Table::Payments, parsed_id(path@)),
{
    Task::Delete(Table::Payments, parse_id(path))
}

} // verus!

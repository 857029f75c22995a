//! Requests on expenses.
use vstd::prelude::*;
use crate::calendar::{civil_month, now};
use crate::ids::{is_random_id, new_id, parse_id, parsed_id};
use crate::models::expense::{CreateExpense, Expense, UpdateExpense};
use crate::models::{Row, Table};
use crate::repository::Changes;
use crate::task::Task;

verus! {

/// `GET /expenses/total`: the sum of all expenses, zero where there are
/// none.
pub fn get_expenses_total() -> (task: Task)
    ensures
        task == Task::Total(Table::Expenses),
{
    Task::Total(Table::Expenses)
}

/// `GET /expenses`: all expenses, by due date.
pub fn get_expenses() -> (task: Task)
    ensures
        task == Task::List(Table::Expenses),
{
    Task::List(Table::Expenses)
}

/// `GET /expenses/{id}`.
pub fn get_expense_by_id(path: &str) -> (task: Task)
    ensures
        task == Task::Get(Table::Expenses, parsed_id(path@)),
{
    Task::Get(Table::Expenses, parse_id(path))
}

/// `POST /expenses`: the expense is stored unpaid under a new identifier,
/// which is the answer, with the time of the request as its creation time.
pub fn create_expense(expense: CreateExpense) -> (task: Task)
    ensures
        task matches Task::Create { row: Row::Expense(created), echo: false } && created
            == Expense::created(created.id, created.created_at, expense) && is_random_id(
            created.id,
        ) && civil_month(created.created_at) is Some,
{
    Task::Create { row: Row::Expense(Expense::create(new_id(), now(), expense)), echo: false }
}

/// `PATCH /expenses/{id}`: the fields given replace the stored ones.
pub fn update_expense(path: &str, expense_update: UpdateExpense) -> (task: Task)
    ensures
        task == (Task::Patch { id: parsed_id(path@), changes: Changes::Expense(expense_update) }),
{
    Task::Patch { id: parse_id(path), changes: Changes::Expense(expense_update) }
}

/// `DELETE /expenses/{id}`.
pub fn delete_expense(path: &str) -> (task: Task)
    ensures
        task == Task::Delete(Table::Expenses, parsed_id(path@)),
{
    Task::Delete(Table::Expenses, parse_id(path))
}

} // verus!

//! Requests on sales.
use vstd::prelude::*;
use crate::calendar::{civil_month, now};
use crate::ids::{is_random_id, new_id, parse_id, parsed_id};
use crate::models::Table;
use crate::schema::{CreateSale, UpdateSale};
use crate::task::{Purpose, Task};

verus! {

/// `GET /sales/count`: how many sales there are.
pub fn count_sales() -> (task: Task)
    ensures
        task == Task::Count(Table::Sales),
{
    Task::Count(Table::Sales)
}

/// `GET /sales/revenue`: the sum of the totals of all sales.
pub fn revenue_sales() -> (task: Task)
    ensures
        task == Task::Total(Table::Sales),
{
    Task::Total(Table::Sales)
}

/// `GET /sales`: all sales with the names of their products, the newest
/// first.
pub fn get_sales() -> (task: Task)
    ensures
        task == Task::Sales(Purpose::Listing),
{
    Task::Sales(Purpose::Listing)
}

/// `GET /sales/{id}`.
pub fn get_sale_by_id(path: &str) -> (task: Task)
    ensures
        task == Task::GetSale(parsed_id(path@)),
{
    Task::GetSale(parse_id(path))
}

/// `POST /sales`: the sale is recorded under a new identifier, which is the
/// answer, at the time of the request, a time within the calendar; its
/// total is the price of the product at that time, times the quantity.
pub fn create_sale(sale: CreateSale) -> (task: Task)
    ensures
        task matches Task::CreateSale { id, now, input } && input == sale && is_random_id(id)
            && civil_month(now) is Some,
{
    Task::CreateSale { id: new_id(), now: now(), input: sale }
}

/// `PATCH /sales/{id}`: the product and the quantity given replace the
/// stored ones, and the total is computed anew from the price that the
/// product has now. A sale cannot be left with no units or fewer.
pub fn update_sale(path: &str, sale_update: UpdateSale) -> (task: Task)
    ensures
        task == (Task::UpdateSale { id: parsed_id(path@), input: sale_update }),
{
    Task::UpdateSale { id: parse_id(path), input: sale_update }
}

/// `DELETE /sales/{id}`.
pub fn delete_sale(path: &str) -> (task: Task)
    ensures
        task == Task::Delete(Table::Sales, parsed_id(path@)),
{
    Task::Delete(Table::Sales, parse_id(path))
}

} // verus!

//! Requests on products.
use vstd::prelude::*;
use crate::ids::{is_random_id, new_id, parse_id, parsed_id};
use crate::models::product::{CreateProduct, Product, UpdateProduct};
use crate::models::{Row, Table};
use crate::repository::Changes;
use crate::task::Task;

verus! {

/// `GET /products`.
pub fn get_products() -> (task: Task)
    ensures
        task == Task::List(Table::Products),
{
    Task::List(Table::Products)
}

/// `GET /products/{id}`.
pub fn get_product_by_id(path: &str) -> (task: Task)
    ensures
        task == Task::Get(Table::Products, parsed_id(path@)),
{
    Task::Get(Table::Products, parse_id(path))
}

/// `POST /products`: the product is stored under a new identifier, which is
/// the answer.
pub fn create_product(product: CreateProduct) -> (task: Task)
    ensures
        task matches Task::Create { row: Row::Product(created), echo: false } && created
            == Product::created(created.id, product) && is_random_id(created.id),
{
    Task::Create { row: Row::Product(Product::create(new_id(), product)), echo: false }
}

/// `PATCH /products/{id}`: every field is replaced.
pub fn update_product(path: &str, product: UpdateProduct) -> (task: Task)
    ensures
        task == (Task::Patch { id: parsed_id(path@), changes: Changes::Product(product) }),
{
    Task::Patch { id: parse_id(path), changes: Changes::Product(product) }
}

/// `DELETE /products/{id}`.
pub fn delete_product(path: &str) -> (task: Task)
    ensures
        task == Task::Delete(Table::Products, parsed_id(path@)),
{
    Task::Delete(Table::Products, parse_id(path))
}

} // verus!

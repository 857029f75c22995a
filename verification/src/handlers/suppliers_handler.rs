//! Requests on suppliers.
use vstd::prelude::*;
use crate::calendar::{civil_month, now};
use crate::ids::{is_random_id, new_id, parse_id, parsed_id};
use crate::models::supplier::Supplier;
use crate::models::{Row, Table};
use crate::repository::Changes;
use crate::schema::{CreateSupplier, UpdateSupplier};
use crate::task::Task;

verus! {

/// `GET /suppliers`: all suppliers, by name.
pub fn get_suppliers() -> (task: Task)
    ensures
        task == Task::List(Table::Suppliers),
{
    Task::List(Table::Suppliers)
}

/// `GET /suppliers/{id}`.
pub fn get_supplier_by_id(path: &str) -> (task: Task)
    ensures
        task == Task::Get(Table::Suppliers, parsed_id(path@)),
{
    Task::Get(Table::Suppliers, parse_id(path))
}

/// `POST /suppliers`: the supplier is stored under a new identifier, which
/// is the answer, with the time of the request as its creation time.
pub fn create_supplier(supplier: CreateSupplier) -> (task: Task)
    ensures
        task matches Task::Create { row: Row::Supplier(created), echo: false } && created
            == Supplier::created(created.id, created.created_at, supplier) && is_random_id(
            created.id,
        ) && civil_month(created.created_at) is Some,
{
    Task::Create { row: Row::Supplier(Supplier::create(new_id(), now(), supplier)), echo: false }
}

/// `PATCH /suppliers/{id}`: the fields given replace the stored ones.
pub fn update_supplier(path: &str, supplier_update: UpdateSupplier) -> (task: Task)
    ensures
        task == (Task::Patch {
            id: parsed_id(path@),
            changes: Changes::Supplier(supplier_update),
        }),
{
    Task::Patch { id: parse_id(path), changes: Changes::Supplier(supplier_update) }
}

/// `DELETE /suppliers/{id}`.
pub fn delete_supplier(path: &str) -> (task: Task)
    ensures
        task == Task::Delete(Table::Suppliers, parsed_id(path@)),
{
    Task::Delete(Table::Suppliers, parse_id(path))
}

} // verus!

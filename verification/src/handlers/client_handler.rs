//! Requests on clients.
use vstd::prelude::*;
use crate::ids::{is_random_id, new_id, parse_id, parsed_id};
use crate::models::client::Client;
use crate::models::{Row, Table};
use crate::repository::Changes;
use crate::schema::{CreateClient, UpdateClient};
use crate::task::Task;

verus! {

/// `POST /clients`: the client is stored under a new identifier and
/// answered in full.
pub fn create_client(body: CreateClient) -> (task: Task)
    ensures
        task matches Task::Create { row: Row::Client(client), echo: true } && client
            == Client::created(client.id, body) && is_random_id(client.id),
{
    Task::Create { row: Row::Client(Client::create(new_id(), body)), echo: true }
}

/// `GET /clients`: all clients, by name.
pub fn get_all_clients() -> (task: Task)
    ensures
        task == Task::List(Table::Clients),
{
    Task::List(Table::Clients)
}

/// `GET /clients/{id}`.
pub fn get_client_by_id(path: &str) -> (task: Task)
    ensures
        task == Task::Get(Table::Clients, parsed_id(path@)),
{
    Task::Get(Table::Clients, parse_id(path))
}

/// `PATCH /clients/{id}`: the fields given replace the stored ones.
pub fn update_client_by_id(path: &str, body: UpdateClient) -> (task: Task)
    ensures
        task == (Task::Patch { id: parsed_id(path@), changes: Changes::Client(body) }),
{
    Task::Patch { id: parse_id(path), changes: Changes::Client(body) }
}

/// `DELETE /clients/{id}`.
pub fn delete_client_by_id(path: &str) -> (task: Task)
    ensures
        task == Task::Delete(Table::Clients, parsed_id(path@)),
{
    Task::Delete(Table::Clients, parse_id(path))
}

} // verus!

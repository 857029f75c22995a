//! Clients.
use vstd::prelude::*;
use crate::schema::{overlaid, overlay, CreateClient, UpdateClient};

verus! {

/// A client; every field is required.
#[derive(Debug, Clone, PartialEq)]
pub struct Client {
    pub id: u128,
    pub name: String,
    pub email: String,
    pub phone: String,
}

impl Client {
    /// The client that `input` describes, under the identifier `id`.
    pub open spec fn created(id: u128, input: CreateClient) -> Client {
        Client { id, name: input.name, email: input.email, phone: input.phone }
    }

    /// This client after `changes`: each given field replaces the stored
    /// one, every other field and the identifier stay.
    pub open spec fn merged(self, changes: UpdateClient) -> Client {
        Client {
            id: self.id,
            name: overlaid(changes.name, self.name),
            email: overlaid(changes.email, self.email),
            phone: overlaid(changes.phone, self.phone),
        }
    }

    /// Makes the client that an input describes.
    pub fn create(id: u128, input: CreateClient) -> (client: Client)
        ensures
            client == Client::created(id, input),
    {
        Client { id, name: input.name, email: input.email, phone: input.phone }
    }

    /// Applies changes to the client.
    pub fn merge(self, changes: UpdateClient) -> (client: Client)
        ensures
            client == self.merged(changes),
    {
        Client {
            id: self.id,
            name: overlay(changes.name, self.name),
            email: overlay(changes.email, self.email),
            phone: overlay(changes.phone, self.phone),
        }
    }

    /// A copy of the client.
    pub fn duplicate(&self) -> (copy: Client)
        ensures
            copy == *self,
    {
        Client {
            id: self.id,
            name: self.name.clone(),
            email: self.email.clone(),
            phone: self.phone.clone(),
        }
    }
}

} // verus!

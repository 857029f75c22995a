//! Suppliers.
use vstd::prelude::*;
use crate::schema::{
    duplicate_text, overlaid, overlaid_optional, overlay, overlay_optional, CreateSupplier,
    UpdateSupplier,
};

verus! {

/// A supplier. `created_at` counts microseconds since 1970-01-01 00:00 UTC.
#[derive(Debug, Clone, PartialEq)]
pub struct Supplier {
    pub id: u128,
    pub name: String,
    pub email: Option<String>,
    pub phone: Option<String>,
    pub created_at: i64,
}

impl Supplier {
    /// The supplier that `input` describes, created at `now` under `id`.
    pub open spec fn created(id: u128, now: i64, input: CreateSupplier) -> Supplier {
        Supplier { id, name: input.name, email: input.email, phone: input.phone, created_at: now }
    }

    /// This supplier after `changes`: each given field replaces the stored
    /// one; the identifier and the creation time stay.
    pub open spec fn merged(self, changes: UpdateSupplier) -> Supplier {
        Supplier {
            id: self.id,
            name: overlaid(changes.name, self.name),
            email: overlaid_optional(changes.email, self.email),
            phone: overlaid_optional(changes.phone, self.phone),
            created_at: self.created_at,
        }
    }

    /// Makes the supplier that an input describes.
    pub fn create(id: u128, now: i64, input: CreateSupplier) -> (supplier: Supplier)
        ensures
            supplier == Supplier::created(id, now, input),
    {
        Supplier { id, name: input.name, email: input.email, phone: input.phone, created_at: now }
    }

    /// Applies changes to the supplier.
    pub fn merge(self, changes: UpdateSupplier) -> (supplier: Supplier)
        ensures
            supplier == self.merged(changes),
    {
        Supplier {
            id: self.id,
            name: overlay(changes.name, self.name),
            email: overlay_optional(changes.email, self.email),
            phone: overlay_optional(changes.phone, self.phone),
            created_at: self.created_at,
        }
    }

    /// A copy of the supplier.
    pub fn duplicate(&self) -> (copy: Supplier)
        ensures
            copy == *self,
    {
        Supplier {
            id: self.id,
            name: self.name.clone(),
            email: duplicate_text(&self.email),
            phone: duplicate_text(&self.phone),
            created_at: self.created_at,
        }
    }
}

} // verus!

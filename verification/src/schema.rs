//! What callers send to create or change a client, a supplier or a sale.
use vstd::prelude::*;

verus! {

/// A client to be created.
#[derive(Debug, Clone, PartialEq)]
pub struct CreateClient {
    pub name: String,
    pub email: String,
    pub phone: String,
}

/// Changes to a client; an absent field keeps its stored value.
#[derive(Debug, Clone, PartialEq)]
pub struct UpdateClient {
    pub name: Option<String>,
    pub email: Option<String>,
    pub phone: Option<String>,
}

/// A sale to be created. The total is never taken from the caller.
#[derive(Debug, Clone, Copy, PartialEq)]
pub struct CreateSale {
    pub product_id: u128,
    pub quantity: i32,
}

/// Changes to a sale; an absent field keeps its stored value.
#[derive(Debug, Clone, Copy, PartialEq)]
pub struct UpdateSale {
    pub product_id: Option<u128>,
    pub quantity: Option<i32>,
}

/// A supplier to be created.
#[derive(Debug, Clone, PartialEq)]
pub struct CreateSupplier {
    pub name: String,
    pub email: Option<String>,
    pub phone: Option<String>,
}

/// Changes to a supplier; an absent field keeps its stored value.
#[derive(Debug, Clone, PartialEq)]
pub struct UpdateSupplier {
    pub name: Option<String>,
    pub email: Option<String>,
    pub phone: Option<String>,
}

/// The value of a field after a change: the given one, or the current one
/// where none is given.
pub open spec fn overlaid<T>(given: Option<T>, current: T) -> T {
    match given {
        Some(value) => value,
        None => current,
    }
}

/// The value of an optional field after a change: an absent value leaves
/// the current one, present or not, as it is.
pub open spec fn overlaid_optional<T>(given: Option<T>, current: Option<T>) -> Option<T> {
    match given {
        Some(value) => Some(value),
        None => current,
    }
}

/// Applies a change to one field.
pub fn overlay<T>(given: Option<T>, current: T) -> (value: T)
    ensures
        value == overlaid(given, current),
{
    match given {
        Some(value) => value,
        None => current,
    }
}

/// Applies a change to one optional field.
pub fn overlay_optional<T>(given: Option<T>, current: Option<T>) -> (value: Option<T>)
    ensures
        value == overlaid_optional(given, current),
{
    match given {
        Some(value) => Some(value),
        None => current,
    }
}

/// A copy of an optional text.
pub fn duplicate_text(text: &Option<String>) -> (copy: Option<String>)
    ensures
        copy == *text,
{
    match text {
        Some(value) => Some(value.clone()),
        None => None,
    }
}

} // verus!

//! Sales. A sale's total is derived: the unit price of its product at the
//! time of writing, times the quantity sold.
use vstd::prelude::*;
use crate::schema::{CreateSale, UpdateSale};

verus! {

/// A sale as the store keeps it.
#[derive(Debug, Clone, Copy, PartialEq)]
pub struct SaleRecord {
    pub id: u128,
    pub product_id: u128,
    pub quantity: i32,
    /// Unit price times quantity, in hundredths.
    pub total_price: i128,
    /// Microseconds since 1970-01-01 00:00 UTC.
    pub created_at: i64,
}

/// A sale as callers see it: the stored fields, and the name of the product
/// as it is when the sale is read.
#[derive(Debug, Clone, PartialEq)]
pub struct Sale {
    pub id: u128,
    pub product_id: u128,
    pub product_name: String,
    pub quantity: i32,
    pub total_price: i128,
    pub created_at: i64,
}

/// A sale to be created, as a point of sale sends it.
#[derive(Debug, Clone, Copy, PartialEq)]
pub struct CreateSaleSchema {
    pub product_id: u128,
    pub quantity: i32,
}

/// A change of quantity alone.
#[derive(Debug, Clone, Copy, PartialEq)]
pub struct UpdateSaleSchema {
    pub quantity: Option<i32>,
}

/// The total of `quantity` units at `price` each.
pub open spec fn priced(price: i64, quantity: i32) -> int {
    price * quantity
}

/// The total of `quantity` units at `price` each. Whatever the price and
/// the quantity, the total fits.
pub fn total_price(price: i64, quantity: i32) -> (total: i128)
    ensures
        total == priced(price, quantity),
{
    let unit: i128 = price as i128;
    let count: i128 = quantity as i128;
    assert(-0x8000_0000_0000_0000 * 0x8000_0000 <= unit * count <= 0x8000_0000_0000_0000
        * 0x8000_0000) by (nonlinear_arith)
        requires
            -0x8000_0000_0000_0000 <= unit <= 0x8000_0000_0000_0000,
            -0x8000_0000 <= count <= 0x8000_0000,
    ;
    unit * count
}

impl CreateSaleSchema {
    /// The sale as an input of the sale workflow.
    pub fn into_input(self) -> (input: CreateSale)
        ensures
            input == (CreateSale { product_id: self.product_id, quantity: self.quantity }),
    {
        CreateSale { product_id: self.product_id, quantity: self.quantity }
    }
}

impl UpdateSaleSchema {
    /// The change as a sale update: the product stays.
    pub fn into_input(self) -> (input: UpdateSale)
        ensures
            input == (UpdateSale { product_id: None, quantity: self.quantity }),
    {
        UpdateSale { product_id: None, quantity: self.quantity }
    }
}

impl SaleRecord {
    /// The sale that `input` describes, written at `now` under `id` while
    /// the product costs `price`.
    pub open spec fn created(id: u128, now: i64, input: CreateSale, price: i64) -> SaleRecord {
        SaleRecord {
            id,
            product_id: input.product_id,
            quantity: input.quantity,
            total_price: priced(price, input.quantity) as i128,
            created_at: now,
        }
    }

    /// This sale rewritten for `quantity` units of `product_id` while that
    /// product costs `price`: the total is computed anew, the identifier and
    /// the creation time stay.
    pub open spec fn repriced(self, product_id: u128, quantity: i32, price: i64) -> SaleRecord {
        SaleRecord {
            id: self.id,
            product_id,
            quantity,
            total_price: priced(price, quantity) as i128,
            created_at: self.created_at,
        }
    }

    /// This sale with the name of its product.
    pub open spec fn named(self, product_name: String) -> Sale {
        Sale {
            id: self.id,
            product_id: self.product_id,
            product_name,
            quantity: self.quantity,
            total_price: self.total_price,
            created_at: self.created_at,
        }
    }

    /// Makes the record of a new sale.
    pub fn create(id: u128, now: i64, input: CreateSale, price: i64) -> (record: SaleRecord)
        ensures
            record == SaleRecord::created(id, now, input, price),
            record.total_price == priced(price, input.quantity),
    {
        SaleRecord {
            id,
            product_id: input.product_id,
            quantity: input.quantity,
            total_price: total_price(price, input.quantity),
            created_at: now,
        }
    }

    /// Rewrites the record for another product, quantity or price.
    pub fn reprice(self, product_id: u128, quantity: i32, price: i64) -> (record: SaleRecord)
        ensures
            record == self.repriced(product_id, quantity, price),
            record.total_price == priced(price, quantity),
    {
        SaleRecord {
            id: self.id,
            product_id,
            quantity,
            total_price: total_price(price, quantity),
            created_at: self.created_at,
        }
    }

    /// Puts the name of the product on the record.
    pub fn name(self, product_name: String) -> (sale: Sale)
        ensures
            sale == self.named(product_name),
    {
        Sale {
            id: self.id,
            product_id: self.product_id,
            product_name,
            quantity: self.quantity,
            total_price: self.total_price,
            created_at: self.created_at,
        }
    }
}

impl Sale {
    /// A copy of the sale.
    pub fn duplicate(&self) -> (copy: Sale)
        ensures
            copy == *self,
    {
        Sale {
            id: self.id,
            product_id: self.product_id,
            product_name: self.product_name.clone(),
            quantity: self.quantity,
            total_price: self.total_price,
            created_at: self.created_at,
        }
    }
}

} // verus!

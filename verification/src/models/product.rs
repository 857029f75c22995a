//! Products. Prices are whole numbers of hundredths of the currency unit.
use vstd::prelude::*;
use crate::schema::duplicate_text;

verus! {

/// A product on offer.
#[derive(Debug, Clone, PartialEq)]
pub struct Product {
    pub id: u128,
    pub name: String,
    pub description: Option<String>,
    /// The unit price, in hundredths.
    pub price: i64,
    pub stock: i32,
}

/// A product to be created.
#[derive(Debug, Clone, PartialEq)]
pub struct CreateProduct {
    pub name: String,
    pub description: Option<String>,
    pub price: i64,
    pub stock: i32,
}

/// New values for every field of a product: an update replaces them all.
#[derive(Debug, Clone, PartialEq)]
pub struct UpdateProduct {
    pub name: String,
    pub description: Option<String>,
    pub price: i64,
    pub stock: i32,
}

impl Product {
    /// The product that `input` describes, under the identifier `id`.
    pub open spec fn created(id: u128, input: CreateProduct) -> Product {
        Product {
            id,
            name: input.name,
            description: input.description,
            price: input.price,
            stock: input.stock,
        }
    }

    /// This product after `changes`: only the identifier stays.
    pub open spec fn merged(self, changes: UpdateProduct) -> Product {
        Product {
            id: self.id,
            name: changes.name,
            description: changes.description,
            price: changes.price,
            stock: changes.stock,
        }
    }

    /// Makes the product that an input describes.
    pub fn create(id: u128, input: CreateProduct) -> (product: Product)
        ensures
            product == Product::created(id, input),
    {
        Product {
            id,
            name: input.name,
            description: input.description,
            price: input.price,
            stock: input.stock,
        }
    }

    /// Applies changes to the product.
    pub fn merge(self, changes: UpdateProduct) -> (product: Product)
        ensures
            product == self.merged(changes),
    {
        Product {
            id: self.id,
            name: changes.name,
            description: changes.description,
            price: changes.price,
            stock: changes.stock,
        }
    }

    /// A copy of the product.
    pub fn duplicate(&self) -> (copy: Product)
        ensures
            copy == *self,
    {
        Product {
            id: self.id,
            name: self.name.clone(),
            description: duplicate_text(&self.description),
            price: self.price,
            stock: self.stock,
        }
    }
}

} // verus!

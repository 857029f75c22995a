//! Sales and the products they refer to: a sale is shown with the name of
//! its product, and priced by the price of its product.
use vstd::prelude::*;
use crate::models::product::Product;
use crate::models::sale::Sale;
use crate::models::Row;
use crate::ordering::{in_order, Ranked};

verus! {

/// Whether a row is the product with the given identifier.
pub open spec fn is_product(row: Row, id: u128) -> bool {
    row matches Row::Product(product) && product.id == id
}

/// The first product with the given identifier among some rows.
pub open spec fn product_in(rows: Seq<Row>, id: u128) -> Option<Product> {
    if exists|i: int| 0 <= i < rows.len() && is_product(#[trigger] rows[i], id) {
        let first = choose|i: int|
            0 <= i < rows.len() && is_product(#[trigger] rows[i], id) && forall|j: int|
                0 <= j < i ==> !is_product(#[trigger] rows[j], id);
        Some(rows[first]->Product_0)
    } else {
        None
    }
}

/// A sale with the name of its product, looked up among `products`; `None`
/// for a row that is no sale and for a sale whose product is not there.
pub open spec fn named_sale(row: Row, products: Seq<Row>) -> Option<Sale> {
    match row {
        Row::Sale(record) => match product_in(products, record.product_id) {
            Some(product) => Some(record.named(product.name)),
            None => None,
        },
        _ => None,
    }
}

/// The sales among `sales` whose product is among `products`, each with the
/// name of its product, in the order of `sales`.
pub open spec fn joined(sales: Seq<Row>, products: Seq<Row>) -> Seq<Sale>
    decreases sales.len(),
{
    if sales.len() == 0 {
        Seq::empty()
    } else {
        let before = joined(sales.drop_last(), products);
        match named_sale(sales.last(), products) {
            Some(sale) => before.push(sale),
            None => before,
        }
    }
}

/// Looks a product up among some rows.
pub fn find_product(rows: &Vec<Row>, id: u128) -> (found: Option<&Product>)
    ensures
        found matches Some(product) ==> product_in(rows@, id) == Some(*product),
        found is None ==> product_in(rows@, id) is None,
{
    let mut at: usize = 0;
    while at < rows.len()
        invariant
            at <= rows.len(),
            forall|j: int| 0 <= j < at ==> !is_product(#[trigger] rows@[j], id),
        decreases rows.len() - at,
    {
        match &rows[at] {
            Row::Product(product) => {
                if product.id == id {
                    proof {
                        let first = choose|i: int|
                            0 <= i < rows@.len() && is_product(#[trigger] rows@[i], id)
                                && forall|j: int|
                                0 <= j < i ==> !is_product(#[trigger] rows@[j], id);
                        assert(is_product(rows@[at as int], id));
                        assert(first == at as int);
                    }
                    return Some(product);
                }
            },
            _ => {},
        }
        at += 1;
    }
    None
}

/// Gives each sale the name of its product.
pub fn join(sales: &Vec<Row>, products: &Vec<Row>) -> (named: Vec<Sale>)
    ensures
        named@ == joined(sales@, products@),
{
    let mut named: Vec<Sale> = Vec::new();
    let mut at: usize = 0;
    while at < sales.len()
        invariant
            at <= sales.len(),
            named@ == joined(sales@.take(at as int), products@),
        decreases sales.len() - at,
    {
        proof {
            assert(sales@.take(at as int + 1).drop_last() =~= sales@.take(at as int));
        }
        match &sales[at] {
            Row::Sale(record) => {
                match find_product(products, record.product_id) {
                    Some(product) => {
                        named.push(record.name(product.name.clone()));
                    },
                    None => {},
                }
            },
            _ => {},
        }
        at += 1;
    }
    proof {
        assert(sales@.take(sales.len() as int) =~= sales@);
    }
    named
}

/// Every sale that the join gives stems from a row of `sales`.
pub proof fn lemma_joined_stems_from_sales(sales: Seq<Row>, products: Seq<Row>, at: int)
    requires
        0 <= at < joined(sales, products).len(),
    ensures
        exists|k: int|
            0 <= k < sales.len() && named_sale(#[trigger] sales[k], products) == Some(
                joined(sales, products)[at],
            ),
    decreases sales.len(),
{
    let before = sales.drop_last();
    if named_sale(sales.last(), products) is Some && at == joined(before, products).len() {
        assert(named_sale(sales[sales.len() - 1], products) == Some(joined(sales, products)[at]));
    } else {
        lemma_joined_stems_from_sales(before, products, at);
        let k = choose|k: int|
            0 <= k < before.len() && named_sale(#[trigger] before[k], products) == Some(
                joined(before, products)[at],
            );
        assert(sales[k] == before[k]);
    }
}

/// Where every row is a sale whose product is among `products`, the join
/// gives every sale once, in its place.
pub proof fn lemma_joined_holds_every_sale(sales: Seq<Row>, products: Seq<Row>)
    requires
        forall|k: int| 0 <= k < sales.len() ==> named_sale(#[trigger] sales[k], products) is Some,
    ensures
        joined(sales, products).len() == sales.len(),
        forall|k: int|
            0 <= k < sales.len() ==> named_sale(#[trigger] sales[k], products) == Some(
                joined(sales, products)[k],
            ),
    decreases sales.len(),
{
    if sales.len() > 0 {
        let before = sales.drop_last();
        assert forall|k: int| 0 <= k < before.len() implies named_sale(
            #[trigger] before[k],
            products,
        ) is Some by {
            assert(before[k] == sales[k]);
        }
        lemma_joined_holds_every_sale(before, products);
        assert(named_sale(sales[sales.len() - 1], products) is Some);
        assert forall|k: int| 0 <= k < sales.len() implies named_sale(
            #[trigger] sales[k],
            products,
        ) == Some(joined(sales, products)[k]) by {
            if k < before.len() {
                assert(before[k] == sales[k]);
            }
        }
    }
}

/// Every sale that the join gives shows the name that its product has
/// among `products`.
pub proof fn lemma_joined_shows_the_product(sales: Seq<Row>, products: Seq<Row>, at: int)
    requires
        0 <= at < joined(sales, products).len(),
    ensures
        ({
            let sale = joined(sales, products)[at];
            product_in(products, sale.product_id) matches Some(product) && product.name
                == sale.product_name
        }),
{
    lemma_joined_stems_from_sales(sales, products, at);
}

/// Sales joined from rows that go from the newest to the oldest go from the
/// newest to the oldest.
pub proof fn lemma_joined_keeps_the_newest_first(sales: Seq<Row>, products: Seq<Row>)
    requires
        in_order(sales),
    ensures
        forall|i: int, j: int|
            0 <= i < j < joined(sales, products).len() ==> (#[trigger] joined(
                sales,
                products,
            )[i]).created_at >= (#[trigger] joined(sales, products)[j]).created_at,
    decreases sales.len(),
{
    if sales.len() > 0 {
        let before = sales.drop_last();
        let last = sales.last();
        assert forall|a: int, b: int| 0 <= a < b < before.len() implies #[trigger] before[a].precedes(
            &before[b],
        ) by {
            assert(sales[a].precedes(&sales[b]));
        }
        lemma_joined_keeps_the_newest_first(before, products);
        let all = joined(sales, products);
        let most = joined(before, products);
        assert forall|i: int, j: int| 0 <= i < j < all.len() implies (#[trigger] all[i]).created_at >= (
        #[trigger] all[j]).created_at by {
            if j < most.len() {
                assert(all[i] == most[i] && all[j] == most[j]);
            } else {
                lemma_joined_stems_from_sales(before, products, i);
                let k = choose|k: int|
                    0 <= k < before.len() && named_sale(#[trigger] before[k], products) == Some(
                        most[i],
                    );
                assert(sales[k].precedes(&sales[sales.len() - 1]));
            }
        }
    }
}

} // verus!

use backend::handlers::product_handler::{create_product, update_product};
use backend::handlers::reports_handler::sales_report;
use backend::handlers::sale_handler::{
    create_sale, delete_sale, get_sale_by_id, get_sales, update_sale,
};
use backend::models::product::{CreateProduct, Product, UpdateProduct};
use backend::models::sale::{total_price, CreateSaleSchema, Sale, SaleRecord, UpdateSaleSchema};
use backend::models::{Row, Table};
use backend::gateway::{Event, Statement};
use backend::reply::{Body, Failure, Reply};
use backend::reports::SalesReport;
use backend::runner::run;
use backend::schema::{CreateSale, UpdateSale};
use backend::store::Store;
use backend::task::Task;

fn text(id: u128) -> String {
    uuid::Uuid::from_u128(id).to_string()
}

fn created_id(reply: Reply) -> u128 {
    match reply {
        Reply::Created(Body::Id(id)) => id,
        other => panic!("not created: {:?}", other),
    }
}

fn shop_with(price: i64) -> (Store, u128) {
    let mut store = Store::new();
    let product = CreateProduct {
        name: String::from("Widget"),
        description: None,
        price,
        stock: 10,
    };
    let id = created_id(run(&mut store, create_product(product)));
    (store, id)
}

fn stored_sale(store: &mut Store, id: u128) -> SaleRecord {
    match store.execute(Statement::Find(Table::Sales, id)) {
        Event::Found(Some(Row::Sale(record))) => record,
        other => panic!("no such sale: {:?}", other),
    }
}

#[test]
fn total_price_is_price_times_quantity() {
    assert_eq!(total_price(1999, 3), 5997);
    assert_eq!(total_price(1999, 5), 9995);
    assert_eq!(total_price(0, 7), 0);
    assert_eq!(total_price(-250, 4), -1000);
}

#[test]
fn total_price_fits_at_the_extremes() {
    assert_eq!(
        total_price(i64::MAX, i32::MAX),
        (i64::MAX as i128) * (i32::MAX as i128)
    );
    assert_eq!(
        total_price(i64::MIN, i32::MIN),
        (i64::MIN as i128) * (i32::MIN as i128)
    );
}

#[test]
fn create_sale_stores_price_times_quantity() {
    let (mut store, product_id) = shop_with(1999);
    let reply = run(&mut store, create_sale(CreateSale { product_id, quantity: 3 }));
    assert_eq!(reply.status(), 201);
    let sale = stored_sale(&mut store, created_id(reply));
    assert_eq!(sale.product_id, product_id);
    assert_eq!(sale.quantity, 3);
    assert_eq!(sale.total_price, 5997);
}

#[test]
fn create_sale_with_chosen_id_and_time() {
    let (mut store, product_id) = shop_with(250);
    let task = Task::CreateSale {
        id: 77,
        now: 1_700_000_000_000_000,
        input: CreateSale { product_id, quantity: 4 },
    };
    assert_eq!(run(&mut store, task), Reply::Created(Body::Id(77)));
    assert_eq!(
        stored_sale(&mut store, 77),
        SaleRecord {
            id: 77,
            product_id,
            quantity: 4,
            total_price: 1000,
            created_at: 1_700_000_000_000_000,
        }
    );
}

#[test]
fn create_sale_takes_the_time_of_the_request() {
    let (mut store, product_id) = shop_with(100);
    let id = created_id(run(&mut store, create_sale(CreateSale { product_id, quantity: 1 })));
    let sale = stored_sale(&mut store, id);
    // After 2020-09-13 and before the year 2200, in microseconds.
    assert!(sale.created_at > 1_600_000_000_000_000);
    assert!(sale.created_at < 7_258_118_400_000_000);
}

#[test]
fn create_sale_draws_a_new_id_each_time() {
    let (mut store, product_id) = shop_with(100);
    let first = created_id(run(&mut store, create_sale(CreateSale { product_id, quantity: 1 })));
    let second = created_id(run(&mut store, create_sale(CreateSale { product_id, quantity: 1 })));
    assert_ne!(first, second);
    assert_eq!(store.len(), 3);
}

#[test]
fn create_sale_of_unknown_product_is_a_reference_error() {
    let (mut store, _) = shop_with(1999);
    let before = store.len();
    let reply = run(&mut store, create_sale(CreateSale { product_id: 12345, quantity: 3 }));
    assert_eq!(reply, Reply::Failed(Failure::Reference));
    assert_eq!(reply.status(), 400);
    assert_eq!(store.len(), before);
    assert_eq!(run(&mut store, get_sales()), Reply::Success(Body::Sales(vec![])));
}

#[test]
fn create_sale_of_unknown_product_fails_whatever_the_quantity() {
    let (mut store, _) = shop_with(1999);
    for quantity in [i32::MIN, -1, 0, 1, i32::MAX] {
        let task = Task::CreateSale {
            id: 1,
            now: 0,
            input: CreateSale { product_id: 12345, quantity },
        };
        assert_eq!(run(&mut store, task), Reply::Failed(Failure::Reference));
    }
    assert_eq!(store.len(), 1);
}

#[test]
fn create_sale_rejects_a_quantity_that_is_not_positive() {
    let (mut store, product_id) = shop_with(1999);
    for quantity in [0, -1, i32::MIN] {
        let reply = run(&mut store, create_sale(CreateSale { product_id, quantity }));
        assert_eq!(reply, Reply::Failed(Failure::Validation));
        assert_eq!(reply.status(), 400);
    }
    assert_eq!(store.len(), 1);
}

#[test]
fn create_sale_under_a_taken_id_fails_and_keeps_the_first() {
    let (mut store, product_id) = shop_with(100);
    let first = Task::CreateSale { id: 5, now: 10, input: CreateSale { product_id, quantity: 1 } };
    let second = Task::CreateSale { id: 5, now: 20, input: CreateSale { product_id, quantity: 9 } };
    assert_eq!(run(&mut store, first), Reply::Created(Body::Id(5)));
    assert_eq!(run(&mut store, second), Reply::Failed(Failure::Storage));
    assert_eq!(stored_sale(&mut store, 5).quantity, 1);
}

#[test]
fn update_sale_reprices_with_the_new_quantity() {
    let (mut store, product_id) = shop_with(1999);
    let id = created_id(run(&mut store, create_sale(CreateSale { product_id, quantity: 3 })));
    let created_at = stored_sale(&mut store, id).created_at;
    let change = UpdateSale { product_id: None, quantity: Some(5) };
    let reply = run(&mut store, update_sale(&text(id), change));
    assert_eq!(
        reply,
        Reply::Success(Body::Sale(Sale {
            id,
            product_id,
            product_name: String::from("Widget"),
            quantity: 5,
            total_price: 9995,
            created_at,
        }))
    );
    assert_eq!(
        stored_sale(&mut store, id),
        SaleRecord { id, product_id, quantity: 5, total_price: 9995, created_at }
    );
}

#[test]
fn update_sale_uses_the_current_price_even_when_nothing_is_given() {
    let (mut store, product_id) = shop_with(1000);
    let id = created_id(run(&mut store, create_sale(CreateSale { product_id, quantity: 2 })));
    assert_eq!(stored_sale(&mut store, id).total_price, 2000);
    let dearer = UpdateProduct {
        name: String::from("Widget"),
        description: None,
        price: 1500,
        stock: 10,
    };
    assert_eq!(run(&mut store, update_product(&text(product_id), dearer)).status(), 200);
    // The sale keeps its total until it is written again.
    assert_eq!(stored_sale(&mut store, id).total_price, 2000);
    let nothing = UpdateSale { product_id: None, quantity: None };
    assert_eq!(run(&mut store, update_sale(&text(id), nothing)).status(), 200);
    let sale = stored_sale(&mut store, id);
    assert_eq!(sale.quantity, 2);
    assert_eq!(sale.total_price, 3000);
}

#[test]
fn update_sale_can_move_the_sale_to_another_product() {
    let (mut store, first) = shop_with(1000);
    let other = CreateProduct {
        name: String::from("Gadget"),
        description: Some(String::from("shiny")),
        price: 300,
        stock: 2,
    };
    let second = created_id(run(&mut store, create_product(other)));
    let id = created_id(run(&mut store, create_sale(CreateSale { product_id: first, quantity: 2 })));
    let change = UpdateSale { product_id: Some(second), quantity: None };
    match run(&mut store, update_sale(&text(id), change)) {
        Reply::Success(Body::Sale(sale)) => {
            assert_eq!(sale.product_id, second);
            assert_eq!(sale.product_name, "Gadget");
            assert_eq!(sale.quantity, 2);
            assert_eq!(sale.total_price, 600);
        }
        other => panic!("unexpected reply: {:?}", other),
    }
}

#[test]
fn update_sale_to_an_unknown_product_is_a_reference_error() {
    let (mut store, product_id) = shop_with(1000);
    let id = created_id(run(&mut store, create_sale(CreateSale { product_id, quantity: 2 })));
    let before = stored_sale(&mut store, id);
    let change = UpdateSale { product_id: Some(404), quantity: Some(7) };
    assert_eq!(
        run(&mut store, update_sale(&text(id), change)),
        Reply::Failed(Failure::Reference)
    );
    assert_eq!(stored_sale(&mut store, id), before);
}

#[test]
fn update_sale_of_unknown_sale_is_not_found() {
    let (mut store, _) = shop_with(1000);
    let change = UpdateSale { product_id: None, quantity: Some(7) };
    let reply = run(&mut store, update_sale(&text(31337), change));
    assert_eq!(reply, Reply::Failed(Failure::NotFound));
    assert_eq!(reply.status(), 404);
    assert_eq!(store.len(), 1);
}

#[test]
fn update_sale_with_a_malformed_id_is_rejected() {
    let (mut store, _) = shop_with(1000);
    let change = UpdateSale { product_id: None, quantity: Some(7) };
    let reply = run(&mut store, update_sale("not-an-id", change));
    assert_eq!(reply, Reply::Failed(Failure::Validation));
    assert_eq!(reply.status(), 400);
}

#[test]
fn update_sale_rejects_a_quantity_that_is_not_positive() {
    let (mut store, product_id) = shop_with(1000);
    let id = created_id(run(&mut store, create_sale(CreateSale { product_id, quantity: 2 })));
    let before = stored_sale(&mut store, id);
    for quantity in [0, -3, i32::MIN] {
        let change = UpdateSale { product_id: None, quantity: Some(quantity) };
        let reply = run(&mut store, update_sale(&text(id), change));
        assert_eq!(reply, Reply::Failed(Failure::Validation));
        assert_eq!(reply.status(), 400);
        assert_eq!(stored_sale(&mut store, id), before);
    }
    assert_eq!(store.len(), 2);
}

#[test]
fn update_sale_to_an_unknown_product_fails_whatever_the_quantity() {
    let (mut store, product_id) = shop_with(1000);
    let id = created_id(run(&mut store, create_sale(CreateSale { product_id, quantity: 2 })));
    let before = stored_sale(&mut store, id);
    for quantity in [None, Some(0), Some(-1), Some(4)] {
        let change = UpdateSale { product_id: Some(404), quantity };
        assert_eq!(
            run(&mut store, update_sale(&text(id), change)),
            Reply::Failed(Failure::Reference)
        );
    }
    assert_eq!(stored_sale(&mut store, id), before);
}

#[test]
fn update_sale_cannot_keep_a_quantity_that_is_not_positive() {
    let (mut store, product_id) = shop_with(1000);
    let odd = SaleRecord { id: 9, product_id, quantity: 0, total_price: 0, created_at: 1 };
    assert_eq!(
        run(&mut store, Task::Create { row: Row::Sale(odd), echo: false }).status(),
        201
    );
    let nothing = UpdateSale { product_id: None, quantity: None };
    assert_eq!(
        run(&mut store, update_sale(&text(9), nothing)),
        Reply::Failed(Failure::Validation)
    );
    let mended = UpdateSale { product_id: None, quantity: Some(1) };
    assert_eq!(run(&mut store, update_sale(&text(9), mended)).status(), 200);
    assert_eq!(stored_sale(&mut store, 9).total_price, 1000);
}

#[test]
fn delete_sale_twice() {
    let (mut store, product_id) = shop_with(1000);
    let id = created_id(run(&mut store, create_sale(CreateSale { product_id, quantity: 2 })));
    let first = run(&mut store, delete_sale(&text(id)));
    assert_eq!(first, Reply::NoContent);
    assert_eq!(first.status(), 204);
    let second = run(&mut store, delete_sale(&text(id)));
    assert_eq!(second, Reply::Failed(Failure::NotFound));
    assert_eq!(second.status(), 404);
    assert_eq!(store.len(), 1);
}

#[test]
fn get_sale_by_id_shows_the_product_name() {
    let (mut store, product_id) = shop_with(1000);
    let id = created_id(run(&mut store, create_sale(CreateSale { product_id, quantity: 2 })));
    match run(&mut store, get_sale_by_id(&text(id))) {
        Reply::Success(Body::Sale(sale)) => {
            assert_eq!(sale.id, id);
            assert_eq!(sale.product_name, "Widget");
            assert_eq!(sale.total_price, 2000);
        }
        other => panic!("unexpected reply: {:?}", other),
    }
    assert_eq!(
        run(&mut store, get_sale_by_id(&text(id + 1))),
        Reply::Failed(Failure::NotFound)
    );
    assert_eq!(
        run(&mut store, get_sale_by_id("zzz")),
        Reply::Failed(Failure::Validation)
    );
}

#[test]
fn get_sales_lists_the_newest_first() {
    let (mut store, product_id) = shop_with(100);
    for (id, now) in [(1u128, 30i64), (2, 10), (3, 20)] {
        let task = Task::CreateSale { id, now, input: CreateSale { product_id, quantity: 1 } };
        assert_eq!(run(&mut store, task).status(), 201);
    }
    match run(&mut store, get_sales()) {
        Reply::Success(Body::Sales(sales)) => {
            let ids: Vec<u128> = sales.iter().map(|sale| sale.id).collect();
            assert_eq!(ids, vec![1, 3, 2]);
            assert!(sales.iter().all(|sale| sale.product_name == "Widget"));
        }
        other => panic!("unexpected reply: {:?}", other),
    }
}

#[test]
fn get_sales_leaves_out_sales_of_products_that_are_gone() {
    let (mut store, product_id) = shop_with(100);
    let task = Task::CreateSale { id: 1, now: 5, input: CreateSale { product_id, quantity: 1 } };
    assert_eq!(run(&mut store, task).status(), 201);
    assert_eq!(
        run(&mut store, Task::Delete(Table::Products, Some(product_id))),
        Reply::NoContent
    );
    assert_eq!(run(&mut store, get_sales()), Reply::Success(Body::Sales(vec![])));
    assert_eq!(
        run(&mut store, get_sale_by_id(&text(1))),
        Reply::Failed(Failure::NotFound)
    );
}

#[test]
fn sale_of_three_then_five_widgets() {
    let price = (19.99f64 * 100.0).round() as i64;
    assert_eq!(price, 1999);
    let (mut store, product_id) = shop_with(price);
    let reply = run(&mut store, create_sale(CreateSale { product_id, quantity: 3 }));
    let id = created_id(reply);
    assert_eq!(stored_sale(&mut store, id).total_price, 5997);
    let change = UpdateSaleSchema { quantity: Some(5) }.into_input();
    match run(&mut store, update_sale(&text(id), change)) {
        Reply::Success(Body::Sale(sale)) => assert_eq!(sale.total_price, 9995),
        other => panic!("unexpected reply: {:?}", other),
    }
    assert_eq!(
        run(&mut store, sales_report()),
        Reply::Success(Body::Report(vec![SalesReport {
            product_id,
            product_name: String::from("Widget"),
            total_quantity: 5,
            total_revenue: 9995,
        }]))
    );
    assert_eq!(5997 as f64 / 100.0, 59.97);
    assert_eq!(9995 as f64 / 100.0, 99.95);
}

#[test]
fn sale_schemas_become_inputs() {
    assert_eq!(
        CreateSaleSchema { product_id: 9, quantity: 2 }.into_input(),
        CreateSale { product_id: 9, quantity: 2 }
    );
    assert_eq!(
        UpdateSaleSchema { quantity: None }.into_input(),
        UpdateSale { product_id: None, quantity: None }
    );
}

#[test]
fn product_rows_are_kept_as_given() {
    let (mut store, product_id) = shop_with(1999);
    assert_eq!(
        store.execute(Statement::Find(Table::Products, product_id)),
        Event::Found(Some(Row::Product(Product {
            id: product_id,
            name: String::from("Widget"),
            description: None,
            price: 1999,
            stock: 10,
        })))
    );
}

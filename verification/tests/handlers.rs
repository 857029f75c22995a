use backend::gateway::{Event, Statement};
use backend::handlers::client_handler::{
    create_client, delete_client_by_id, get_all_clients, update_client_by_id,
};
use backend::handlers::dashboard_handler::{
    clients_count, expenses_total, sales_count, sales_revenue,
};
use backend::handlers::expense_handler::{
    create_expense, delete_expense, get_expense_by_id, get_expenses, get_expenses_total,
    update_expense,
};
use backend::handlers::payment_handler::{
    create_payment, delete_payment, get_payment_by_id, get_payments, update_payment,
};
use backend::handlers::product_handler::{
    create_product, delete_product, get_product_by_id, get_products, update_product,
};
use backend::handlers::reports_handler::sales_report;
use backend::handlers::sale_handler::{
    count_sales, create_sale, delete_sale, get_sale_by_id, get_sales, revenue_sales, update_sale,
};
use backend::handlers::suppliers_handler::{
    create_supplier, delete_supplier, get_supplier_by_id, get_suppliers, update_supplier,
};
use backend::models::client::Client;
use backend::models::expense::{CreateExpense, UpdateExpense};
use backend::models::payment::{CreatePayment, UpdatePayment};
use backend::models::product::{CreateProduct, Product, UpdateProduct};
use backend::models::sale::SaleRecord;
use backend::models::{Row, Table};
use backend::reply::{Body, Failure, Reply};
use backend::repository::Changes;
use backend::schema::{
    CreateClient, CreateSale, CreateSupplier, UpdateClient, UpdateSale, UpdateSupplier,
};
use backend::task::{resume, start, Pending, Purpose, Step, Task, Wait};

const ID: &str = "550e8400-e29b-41d4-a716-446655440000";
const VALUE: u128 = 0x550e8400_e29b_41d4_a716_446655440000;

fn waiting(wait: Wait) -> Pending {
    Pending { wait, held: vec![] }
}

fn widget(price: i64) -> Row {
    Row::Product(Product {
        id: 2,
        name: String::from("Widget"),
        description: None,
        price,
        stock: 1,
    })
}

#[test]
fn handlers_that_read_name_their_table() {
    assert_eq!(get_all_clients(), Task::List(Table::Clients));
    assert_eq!(get_products(), Task::List(Table::Products));
    assert_eq!(get_suppliers(), Task::List(Table::Suppliers));
    assert_eq!(get_expenses(), Task::List(Table::Expenses));
    assert_eq!(get_payments(), Task::List(Table::Payments));
    assert_eq!(get_sales(), Task::Sales(Purpose::Listing));
    assert_eq!(sales_report(), Task::Sales(Purpose::Report(None)));
    assert_eq!(clients_count(), Task::Count(Table::Clients));
    assert_eq!(sales_count(), Task::Count(Table::Sales));
    assert_eq!(count_sales(), Task::Count(Table::Sales));
    assert_eq!(sales_revenue(), Task::Total(Table::Sales));
    assert_eq!(revenue_sales(), Task::Total(Table::Sales));
    assert_eq!(expenses_total(), Task::Total(Table::Expenses));
    assert_eq!(get_expenses_total(), Task::Total(Table::Expenses));
}

#[test]
fn handlers_that_take_a_path_read_the_id() {
    assert_eq!(get_product_by_id(ID), Task::Get(Table::Products, Some(VALUE)));
    assert_eq!(get_supplier_by_id(ID), Task::Get(Table::Suppliers, Some(VALUE)));
    assert_eq!(get_expense_by_id(ID), Task::Get(Table::Expenses, Some(VALUE)));
    assert_eq!(get_payment_by_id(ID), Task::Get(Table::Payments, Some(VALUE)));
    assert_eq!(get_sale_by_id(ID), Task::GetSale(Some(VALUE)));
    assert_eq!(delete_client_by_id(ID), Task::Delete(Table::Clients, Some(VALUE)));
    assert_eq!(delete_product(ID), Task::Delete(Table::Products, Some(VALUE)));
    assert_eq!(delete_supplier(ID), Task::Delete(Table::Suppliers, Some(VALUE)));
    assert_eq!(delete_expense(ID), Task::Delete(Table::Expenses, Some(VALUE)));
    assert_eq!(delete_payment(ID), Task::Delete(Table::Payments, Some(VALUE)));
    assert_eq!(delete_sale(ID), Task::Delete(Table::Sales, Some(VALUE)));
    assert_eq!(delete_sale("550e8400"), Task::Delete(Table::Sales, None));
    assert_eq!(get_sale_by_id(""), Task::GetSale(None));
}

#[test]
fn handlers_that_change_carry_the_changes() {
    let client = UpdateClient { name: Some(String::from("Ada")), email: None, phone: None };
    assert_eq!(
        update_client_by_id(ID, client.clone()),
        Task::Patch { id: Some(VALUE), changes: Changes::Client(client) }
    );
    let product = UpdateProduct {
        name: String::from("Widget"),
        description: None,
        price: 5,
        stock: 1,
    };
    assert_eq!(
        update_product(ID, product.clone()),
        Task::Patch { id: Some(VALUE), changes: Changes::Product(product) }
    );
    let supplier = UpdateSupplier { name: None, email: None, phone: Some(String::from("1")) };
    assert_eq!(
        update_supplier(ID, supplier.clone()),
        Task::Patch { id: Some(VALUE), changes: Changes::Supplier(supplier) }
    );
    let expense = UpdateExpense {
        description: None,
        supplier_id: None,
        amount: None,
        due_date: Some(4),
        paid: None,
    };
    assert_eq!(
        update_expense("nope", expense.clone()),
        Task::Patch { id: None, changes: Changes::Expense(expense) }
    );
    let payment = UpdatePayment {
        expense_id: None,
        payment_date: None,
        amount: Some(9),
        method: None,
    };
    assert_eq!(
        update_payment(ID, payment.clone()),
        Task::Patch { id: Some(VALUE), changes: Changes::Payment(payment) }
    );
    let sale = UpdateSale { product_id: Some(3), quantity: None };
    assert_eq!(update_sale(ID, sale), Task::UpdateSale { id: Some(VALUE), input: sale });
}

#[test]
fn handlers_that_create_build_the_row() {
    let client = CreateClient {
        name: String::from("Ada"),
        email: String::from("a@x.com"),
        phone: String::from("1"),
    };
    match create_client(client) {
        Task::Create { row: Row::Client(row), echo: true } => {
            assert_eq!(row.name, "Ada");
            assert_eq!(row.email, "a@x.com");
            assert_eq!(row.phone, "1");
        }
        other => panic!("unexpected task: {:?}", other),
    }
    let product = CreateProduct {
        name: String::from("Widget"),
        description: Some(String::from("round")),
        price: 1999,
        stock: 10,
    };
    match create_product(product) {
        Task::Create { row: Row::Product(row), echo: false } => {
            assert_eq!(row.name, "Widget");
            assert_eq!(row.description, Some(String::from("round")));
            assert_eq!(row.price, 1999);
            assert_eq!(row.stock, 10);
        }
        other => panic!("unexpected task: {:?}", other),
    }
    let supplier = CreateSupplier { name: String::from("Acme"), email: None, phone: None };
    match create_supplier(supplier) {
        Task::Create { row: Row::Supplier(row), echo: false } => {
            assert_eq!(row.name, "Acme");
            assert_eq!(row.email, None);
            assert_eq!(row.phone, None);
        }
        other => panic!("unexpected task: {:?}", other),
    }
    let expense = CreateExpense {
        description: String::from("Rent"),
        supplier_id: None,
        amount: 7,
        due_date: 9,
    };
    match create_expense(expense) {
        Task::Create { row: Row::Expense(row), echo: false } => {
            assert_eq!(row.description, "Rent");
            assert_eq!(row.amount, 7);
            assert_eq!(row.due_date, 9);
            assert!(!row.paid);
        }
        other => panic!("unexpected task: {:?}", other),
    }
    let payment = CreatePayment {
        expense_id: Some(1),
        payment_date: None,
        amount: 7,
        method: None,
    };
    match create_payment(payment) {
        Task::Create { row: Row::Payment(row), echo: false } => {
            assert_eq!(row.expense_id, Some(1));
            assert_eq!(row.amount, 7);
        }
        other => panic!("unexpected task: {:?}", other),
    }
    let sale = CreateSale { product_id: 4, quantity: 2 };
    match create_sale(sale) {
        Task::CreateSale { input, .. } => assert_eq!(input, sale),
        other => panic!("unexpected task: {:?}", other),
    }
}

#[test]
fn every_answer_has_its_status() {
    assert_eq!(Reply::Success(Body::Count(0)).status(), 200);
    assert_eq!(Reply::Created(Body::Id(1)).status(), 201);
    assert_eq!(Reply::NoContent.status(), 204);
    assert_eq!(Reply::Failed(Failure::Validation).status(), 400);
    assert_eq!(Reply::Failed(Failure::Reference).status(), 400);
    assert_eq!(Reply::Failed(Failure::NotFound).status(), 404);
    assert_eq!(Reply::Failed(Failure::Storage).status(), 500);
}

#[test]
fn update_sale_step_by_step() {
    let input = UpdateSale { product_id: None, quantity: Some(5) };
    let existing =
        SaleRecord { id: 1, product_id: 2, quantity: 3, total_price: 5997, created_at: 8 };
    let pending = match start(Task::UpdateSale { id: Some(1), input }) {
        Step::Ask(Statement::Find(Table::Sales, 1), pending) => pending,
        other => panic!("unexpected step: {:?}", other),
    };
    let pending = match resume(pending, Event::Found(Some(Row::Sale(existing)))) {
        Step::Ask(Statement::Find(Table::Products, 2), pending) => pending,
        other => panic!("unexpected step: {:?}", other),
    };
    let repriced =
        SaleRecord { id: 1, product_id: 2, quantity: 5, total_price: 9995, created_at: 8 };
    let pending = match resume(pending, Event::Found(Some(widget(1999)))) {
        Step::Ask(Statement::Update(Row::Sale(record)), pending) => {
            assert_eq!(record, repriced);
            pending
        }
        other => panic!("unexpected step: {:?}", other),
    };
    match resume(pending.clone(), Event::Affected(1)) {
        Step::Done(Reply::Success(Body::Sale(sale))) => {
            assert_eq!(sale.total_price, 9995);
            assert_eq!(sale.product_name, "Widget");
        }
        other => panic!("unexpected step: {:?}", other),
    }
    assert_eq!(
        resume(pending.clone(), Event::Affected(0)),
        Step::Done(Reply::Failed(Failure::NotFound))
    );
    assert_eq!(
        resume(pending, Event::Failed),
        Step::Done(Reply::Failed(Failure::Storage))
    );
}

#[test]
fn a_failing_store_is_a_storage_failure_at_every_step() {
    let input = CreateSale { product_id: 2, quantity: 1 };
    let record = SaleRecord { id: 1, product_id: 2, quantity: 1, total_price: 1, created_at: 0 };
    let waits = vec![
        Wait::Listed,
        Wait::Fetched,
        Wait::Inserted { row: widget(1), echo: true },
        Wait::PatchFetched {
            changes: Changes::Client(UpdateClient { name: None, email: None, phone: None }),
        },
        Wait::PatchWritten { row: widget(1) },
        Wait::Deleted,
        Wait::SalesListed { purpose: Purpose::Listing },
        Wait::ProductsListed { purpose: Purpose::Report(None) },
        Wait::SaleFetched,
        Wait::SaleProductFetched { record },
        Wait::SalePriced { id: 1, now: 0, input },
        Wait::SaleInserted { id: 1 },
        Wait::SaleUpdateFetched { input: UpdateSale { product_id: None, quantity: None } },
        Wait::SaleUpdatePriced { existing: record, product_id: 2, quantity: 1 },
        Wait::SaleUpdated { sale: record.name(String::from("Widget")) },
        Wait::Counted,
        Wait::Totalled,
        Wait::MonthlyListed { year: Some(2024) },
    ];
    for wait in waits {
        assert_eq!(
            resume(waiting(wait), Event::Failed),
            Step::Done(Reply::Failed(Failure::Storage))
        );
    }
}

#[test]
fn an_event_of_the_wrong_kind_is_a_storage_failure() {
    assert_eq!(
        resume(waiting(Wait::Listed), Event::Affected(1)),
        Step::Done(Reply::Failed(Failure::Storage))
    );
    assert_eq!(
        resume(waiting(Wait::Deleted), Event::Rows(vec![])),
        Step::Done(Reply::Failed(Failure::Storage))
    );
    let client = Row::Client(Client {
        id: 1,
        name: String::from("Ada"),
        email: String::from("a"),
        phone: String::from("1"),
    });
    assert_eq!(
        resume(waiting(Wait::SaleFetched), Event::Found(Some(client.clone()))),
        Step::Done(Reply::Failed(Failure::Storage))
    );
    let input = CreateSale { product_id: 1, quantity: 1 };
    assert_eq!(
        resume(waiting(Wait::SalePriced { id: 1, now: 0, input }), Event::Found(Some(client))),
        Step::Done(Reply::Failed(Failure::Storage))
    );
    let changes = Changes::Client(UpdateClient { name: None, email: None, phone: None });
    assert_eq!(
        resume(waiting(Wait::PatchFetched { changes }), Event::Found(Some(widget(1)))),
        Step::Done(Reply::Failed(Failure::Storage))
    );
}

#[test]
fn writes_that_touch_nothing_are_told_apart() {
    assert_eq!(
        resume(waiting(Wait::Deleted), Event::Affected(0)),
        Step::Done(Reply::Failed(Failure::NotFound))
    );
    assert_eq!(
        resume(waiting(Wait::Deleted), Event::Affected(2)),
        Step::Done(Reply::NoContent)
    );
    assert_eq!(
        resume(waiting(Wait::PatchWritten { row: widget(1) }), Event::Affected(0)),
        Step::Done(Reply::Failed(Failure::NotFound))
    );
    assert_eq!(
        resume(waiting(Wait::Inserted { row: widget(1), echo: false }), Event::Affected(0)),
        Step::Done(Reply::Failed(Failure::Storage))
    );
    assert_eq!(
        resume(waiting(Wait::Inserted { row: widget(1), echo: false }), Event::Affected(1)),
        Step::Done(Reply::Created(Body::Id(2)))
    );
    assert_eq!(
        resume(waiting(Wait::SaleInserted { id: 9 }), Event::Affected(0)),
        Step::Done(Reply::Failed(Failure::Storage))
    );
}

#[test]
fn new_ids_are_marked_as_random() {
    let mark = 0x0000_0000_0000_4000_8000_0000_0000_0000u128;
    let mask = 0x0000_0000_0000_f000_c000_0000_0000_0000u128;
    for _ in 0..16 {
        let sale = CreateSale { product_id: 4, quantity: 2 };
        match create_sale(sale) {
            Task::CreateSale { id, .. } => {
                assert_eq!(id & mask, mark);
                assert_eq!(uuid::Uuid::from_u128(id).get_version_num(), 4);
            }
            other => panic!("unexpected task: {:?}", other),
        }
    }
}

use backend::calendar::{instant, FIRST_DAY, LAST_DAY};
use backend::handlers::dashboard_handler::{
    clients_count, expenses_total, sales_count, sales_monthly, sales_monthly_at, sales_revenue,
};
use backend::handlers::expense_handler::get_expenses_total;
use backend::handlers::reports_handler::{sales_by_date, sales_report};
use backend::handlers::sale_handler::{count_sales, revenue_sales};
use backend::models::client::Client;
use backend::models::expense::Expense;
use backend::models::product::Product;
use backend::models::sale::{Sale, SaleRecord};
use backend::models::{Row, Table};
use backend::reply::{Body, Failure, Reply};
use backend::reports::{
    month_label, monthly, report, total, MonthlySale, ReportDateRange, SalesReport,
};
use backend::runner::run;
use backend::store::Store;
use backend::task::{Purpose, Task};

const DAY: i64 = 86_400_000_000;

fn add(store: &mut Store, row: Row) {
    assert_eq!(run(store, Task::Create { row, echo: false }).status(), 201);
}

fn product(id: u128, name: &str, price: i64) -> Row {
    Row::Product(Product { id, name: String::from(name), description: None, price, stock: 0 })
}

fn sold(id: u128, product_id: u128, quantity: i32, total_price: i128, created_at: i64) -> Row {
    Row::Sale(SaleRecord { id, product_id, quantity, total_price, created_at })
}

fn expense(id: u128, amount: i64) -> Row {
    Row::Expense(Expense {
        id,
        description: String::from("x"),
        supplier_id: None,
        amount,
        due_date: 0,
        paid: false,
        created_at: 0,
    })
}

fn line(
    product_id: u128,
    name: &str,
    total_quantity: i64,
    total_revenue: i128,
) -> SalesReport {
    SalesReport { product_id, product_name: String::from(name), total_quantity, total_revenue }
}

/// Two products; sales on 2024-01-15, 2024-01-31, 2024-03-01 and 2023-12-31.
fn shop() -> Store {
    let mut store = Store::new();
    add(&mut store, product(1, "Widget", 100));
    add(&mut store, product(2, "Gadget", 1000));
    // 2024-01-15 is day 19737 since 1970-01-01.
    add(&mut store, sold(10, 1, 3, 300, 19_737 * DAY + 5));
    add(&mut store, sold(11, 2, 1, 1000, 19_753 * DAY + DAY - 1_000_000));
    add(&mut store, sold(12, 1, 2, 200, 19_783 * DAY));
    add(&mut store, sold(13, 1, 50, 5000, 19_722 * DAY + 7));
    store
}

#[test]
fn figures_of_an_empty_store_are_zero() {
    let mut store = Store::new();
    assert_eq!(run(&mut store, clients_count()), Reply::Success(Body::Count(0)));
    assert_eq!(run(&mut store, sales_count()), Reply::Success(Body::Count(0)));
    assert_eq!(run(&mut store, count_sales()), Reply::Success(Body::Count(0)));
    assert_eq!(run(&mut store, sales_revenue()), Reply::Success(Body::Amount(0)));
    assert_eq!(run(&mut store, revenue_sales()), Reply::Success(Body::Amount(0)));
    assert_eq!(run(&mut store, expenses_total()), Reply::Success(Body::Amount(0)));
    assert_eq!(run(&mut store, get_expenses_total()), Reply::Success(Body::Amount(0)));
    assert_eq!(run(&mut store, sales_monthly()), Reply::Success(Body::Monthly(vec![])));
    assert_eq!(run(&mut store, sales_report()), Reply::Success(Body::Report(vec![])));
    let range = ReportDateRange { start_date: 0, end_date: 30_000 };
    assert_eq!(run(&mut store, sales_by_date(range)), Reply::Success(Body::Report(vec![])));
    assert_eq!(run(&mut store, get_expenses_total()).status(), 200);
}

#[test]
fn figures_count_only_their_own_table() {
    let mut store = shop();
    add(
        &mut store,
        Row::Client(Client {
            id: 1,
            name: String::from("Ada"),
            email: String::from("a"),
            phone: String::from("1"),
        }),
    );
    add(&mut store, expense(1, 250));
    add(&mut store, expense(2, -50));
    assert_eq!(run(&mut store, clients_count()), Reply::Success(Body::Count(1)));
    assert_eq!(run(&mut store, sales_count()), Reply::Success(Body::Count(4)));
    assert_eq!(run(&mut store, sales_revenue()), Reply::Success(Body::Amount(6500)));
    assert_eq!(run(&mut store, expenses_total()), Reply::Success(Body::Amount(200)));
    assert_eq!(run(&mut store, Task::Total(Table::Clients)), Reply::Success(Body::Amount(0)));
}

#[test]
fn total_adds_from_left_to_right() {
    assert_eq!(total(&vec![]), Some(0));
    assert_eq!(total(&vec![expense(1, 5), sold(1, 1, 1, 7, 0), product(1, "x", 99)]), Some(12));
    let most = sold(1, 1, 1, i128::MAX, 0);
    let one = sold(2, 1, 1, 1, 0);
    let back = sold(3, 1, 1, -1, 0);
    assert_eq!(total(&vec![most.clone(), back.clone(), one.clone()]), Some(i128::MAX));
    assert_eq!(total(&vec![most, one, back]), None);
}

#[test]
fn a_total_out_of_range_is_a_storage_failure() {
    let mut store = Store::new();
    add(&mut store, sold(1, 1, 1, i128::MAX, 0));
    add(&mut store, sold(2, 1, 1, 1, 0));
    let reply = run(&mut store, sales_revenue());
    assert_eq!(reply, Reply::Failed(Failure::Storage));
    assert_eq!(reply.status(), 500);
}

#[test]
fn report_groups_by_product_and_orders_by_revenue() {
    let mut store = shop();
    assert_eq!(
        run(&mut store, sales_report()),
        Reply::Success(Body::Report(vec![line(1, "Widget", 55, 5500), line(2, "Gadget", 1, 1000)]))
    );
}

#[test]
fn report_by_date_includes_both_days() {
    let mut store = shop();
    // From 2024-01-15 to 2024-01-31.
    let range = ReportDateRange { start_date: 19_737, end_date: 19_753 };
    assert_eq!(
        run(&mut store, sales_by_date(range)),
        Reply::Success(Body::Report(vec![line(2, "Gadget", 1, 1000), line(1, "Widget", 3, 300)]))
    );
    // The last sale of January was made at 23:59:59; a day earlier leaves it out.
    let shorter = ReportDateRange { start_date: 19_737, end_date: 19_752 };
    assert_eq!(
        run(&mut store, sales_by_date(shorter)),
        Reply::Success(Body::Report(vec![line(1, "Widget", 3, 300)]))
    );
    let later = ReportDateRange { start_date: 19_738, end_date: 19_800 };
    assert_eq!(
        run(&mut store, sales_by_date(later)),
        Reply::Success(Body::Report(vec![line(2, "Gadget", 1, 1000), line(1, "Widget", 2, 200)]))
    );
    let backwards = ReportDateRange { start_date: 19_800, end_date: 19_700 };
    assert_eq!(run(&mut store, sales_by_date(backwards)), Reply::Success(Body::Report(vec![])));
}

#[test]
fn report_days_run_from_midnight_to_the_last_second() {
    let range = ReportDateRange { start_date: 0, end_date: 0 };
    assert_eq!(
        sales_by_date(range),
        Task::ReportBetween(Some((0, 86_399_000_000)))
    );
    let range = ReportDateRange { start_date: 19_737, end_date: 19_753 };
    assert_eq!(
        sales_by_date(range),
        Task::ReportBetween(Some((19_737 * DAY, 19_753 * DAY + 86_399_000_000)))
    );
    let range = ReportDateRange { start_date: -1, end_date: -1 };
    assert_eq!(
        sales_by_date(range),
        Task::ReportBetween(Some((-DAY, -1_000_000)))
    );
}

#[test]
fn report_days_outside_the_calendar_are_rejected() {
    let mut store = shop();
    for (start_date, end_date) in [
        (i32::MIN, i32::MAX),
        (i32::MAX, 0),
        (0, i32::MAX),
        (i32::MIN, 0),
        (FIRST_DAY - 1, 0),
        (0, LAST_DAY + 1),
        (LAST_DAY + 1, LAST_DAY + 1),
    ] {
        let range = ReportDateRange { start_date, end_date };
        assert_eq!(sales_by_date(range), Task::ReportBetween(None));
        let reply = run(&mut store, sales_by_date(range));
        assert_eq!(reply, Reply::Failed(Failure::Validation));
        assert_eq!(reply.status(), 400);
    }
    assert_eq!(store.len(), 6);
}

#[test]
fn report_between_instants_is_the_report_on_that_range() {
    let mut store = shop();
    let range = (19_737 * DAY, 19_753 * DAY + 86_399_000_000);
    assert_eq!(
        run(&mut store, Task::ReportBetween(Some(range))),
        run(&mut store, Task::Sales(Purpose::Report(Some(range))))
    );
}

#[test]
fn report_adds_up_sales_by_product() {
    let sale = |product_id: u128, name: &str, quantity: i32, total_price: i128, at: i64| Sale {
        id: 0,
        product_id,
        product_name: String::from(name),
        quantity,
        total_price,
        created_at: at,
    };
    let sales = vec![
        sale(2, "b", 1, 10, 0),
        sale(1, "a", 2, 30, 1),
        sale(2, "b", 3, 15, 2),
        sale(3, "c", 1, 25, 3),
        sale(1, "a", -1, -10, 4),
    ];
    assert_eq!(
        report(&sales, None),
        Some(vec![line(2, "b", 4, 25), line(3, "c", 1, 25), line(1, "a", 1, 20)])
    );
    assert_eq!(
        report(&sales, Some((1, 3))),
        Some(vec![line(1, "a", 2, 30), line(3, "c", 1, 25), line(2, "b", 3, 15)])
    );
    assert_eq!(report(&sales, Some((5, 9))), Some(vec![]));
    let too_much = vec![
        sale(1, "a", 1, i128::MAX, 0),
        sale(2, "b", 1, 1, 0),
        sale(1, "a", 1, 1, 0),
    ];
    assert_eq!(report(&too_much, None), None);
    let too_many = vec![sale(1, "a", i32::MIN, 0, 0); 3];
    assert!(report(&too_many, None).is_some());
}

#[test]
fn report_keeps_products_of_one_name_apart() {
    let mut store = Store::new();
    add(&mut store, product(1, "Widget", 100));
    add(&mut store, product(2, "Widget", 250));
    add(&mut store, sold(10, 1, 3, 300, 5));
    add(&mut store, sold(11, 2, 1, 250, 6));
    add(&mut store, sold(12, 1, 1, 100, 7));
    assert_eq!(
        run(&mut store, sales_report()),
        Reply::Success(Body::Report(vec![
            line(1, "Widget", 4, 400),
            line(2, "Widget", 1, 250),
        ]))
    );
}

#[test]
fn report_shows_a_renamed_product_on_one_line() {
    let sale = |name: &str, quantity: i32, total_price: i128| Sale {
        id: 0,
        product_id: 7,
        product_name: String::from(name),
        quantity,
        total_price,
        created_at: 0,
    };
    let sales = vec![sale("Old", 1, 10), sale("New", 2, 20)];
    assert_eq!(report(&sales, None), Some(vec![line(7, "Old", 3, 30)]));
}

#[test]
fn monthly_sales_of_a_year() {
    let mut store = shop();
    assert_eq!(
        run(&mut store, Task::Monthly { year: Some(2024) }),
        Reply::Success(Body::Monthly(vec![
            MonthlySale { month: 1, sales: 1300 },
            MonthlySale { month: 3, sales: 200 },
        ]))
    );
    assert_eq!(
        run(&mut store, Task::Monthly { year: Some(2023) }),
        Reply::Success(Body::Monthly(vec![MonthlySale { month: 12, sales: 5000 }]))
    );
    assert_eq!(
        run(&mut store, Task::Monthly { year: Some(2022) }),
        Reply::Success(Body::Monthly(vec![]))
    );
    assert_eq!(
        run(&mut store, Task::Monthly { year: None }),
        Reply::Success(Body::Monthly(vec![]))
    );
}

#[test]
fn monthly_sales_take_the_year_of_the_instant_given() {
    // 2024-01-15 00:00:00 UTC.
    assert_eq!(sales_monthly_at(19_737 * DAY), Task::Monthly { year: Some(2024) });
    assert_eq!(sales_monthly_at(0), Task::Monthly { year: Some(1970) });
    assert_eq!(sales_monthly_at(-1), Task::Monthly { year: Some(1969) });
    assert_eq!(sales_monthly_at(i64::MAX), Task::Monthly { year: None });
    match sales_monthly() {
        Task::Monthly { year: Some(year) } => assert!(year >= 2024),
        other => panic!("unexpected task: {:?}", other),
    }
}

#[test]
fn monthly_fails_when_a_month_is_out_of_range() {
    let rows = vec![
        sold(1, 1, 1, i128::MAX, 19_737 * DAY),
        sold(2, 1, 1, 1, 19_783 * DAY),
    ];
    assert_eq!(
        monthly(&rows, Some(2024)),
        Some(vec![
            MonthlySale { month: 1, sales: i128::MAX },
            MonthlySale { month: 3, sales: 1 },
        ])
    );
    let rows = vec![
        sold(1, 1, 1, i128::MAX, 19_737 * DAY),
        sold(2, 1, 1, 1, 19_738 * DAY),
    ];
    assert_eq!(monthly(&rows, Some(2024)), None);
    assert_eq!(monthly(&rows, Some(2023)), Some(vec![]));
}

#[test]
fn months_have_english_labels() {
    let labels: Vec<&str> = (0..=13).map(month_label).collect();
    assert_eq!(
        labels,
        vec![
            "N/A", "Jan", "Feb", "Mar", "Apr", "May", "Jun", "Jul", "Aug", "Sep", "Oct", "Nov",
            "Dec", "N/A",
        ]
    );
}

#[test]
fn report_days_reach_from_the_first_day_of_the_calendar_to_the_last() {
    assert_eq!(FIRST_DAY, -96_465_292);
    assert_eq!(LAST_DAY, 95_026_236);
    let whole = ReportDateRange { start_date: FIRST_DAY, end_date: LAST_DAY };
    assert_eq!(
        sales_by_date(whole),
        Task::ReportBetween(Some((
            FIRST_DAY as i64 * DAY,
            LAST_DAY as i64 * DAY + 86_399_000_000
        )))
    );
    assert_eq!(FIRST_DAY as i64 * DAY, -8_334_601_228_800_000_000);
    assert_eq!(LAST_DAY as i64 * DAY + 86_399_000_000, 8_210_266_876_799_000_000);
    let beyond = ReportDateRange { start_date: FIRST_DAY - 1, end_date: LAST_DAY + 1 };
    assert_eq!(
        sales_by_date(beyond),
        Task::ReportBetween(None)
    );
    let inner = ReportDateRange { start_date: FIRST_DAY + 1, end_date: LAST_DAY - 1 };
    assert_eq!(
        sales_by_date(inner),
        Task::ReportBetween(Some((
            (FIRST_DAY as i64 + 1) * DAY,
            (LAST_DAY as i64 - 1) * DAY + 86_399_000_000
        )))
    );
}

#[test]
fn report_days_agree_with_the_calendar() {
    for (year, month, day) in [
        (1970, 1, 1),
        (1969, 12, 31),
        (2000, 2, 29),
        (2024, 1, 15),
        (1, 1, 1),
        (-262143, 1, 1),
        (262142, 12, 31),
    ] {
        let date = chrono::NaiveDate::from_ymd_opt(year, month, day).unwrap();
        let days = date.to_epoch_days();
        let start = date.and_hms_opt(0, 0, 0).unwrap().and_utc().timestamp_micros();
        let end = date.and_hms_opt(23, 59, 59).unwrap().and_utc().timestamp_micros();
        assert_eq!(start, days as i64 * DAY);
        assert_eq!(end, days as i64 * DAY + 86_399_000_000);
        assert_eq!(
            sales_by_date(ReportDateRange { start_date: days, end_date: days }),
            Task::ReportBetween(Some((start, end)))
        );
    }
    assert_eq!(chrono::NaiveDate::MIN.to_epoch_days(), FIRST_DAY);
    assert_eq!(chrono::NaiveDate::MAX.to_epoch_days(), LAST_DAY);
}

#[test]
fn every_month_of_the_year_has_its_entry() {
    let mut rows = Vec::new();
    let mut expected = Vec::new();
    for month in 1..=12u32 {
        let first = chrono::NaiveDate::from_ymd_opt(2024, month, 1).unwrap();
        let last = first
            .checked_add_months(chrono::Months::new(1))
            .unwrap()
            .pred_opt()
            .unwrap();
        let opens = first.and_hms_opt(0, 0, 0).unwrap().and_utc().timestamp_micros();
        let closes = last.and_hms_opt(23, 59, 59).unwrap().and_utc().timestamp_micros() + 999_999;
        rows.push(sold(2 * month as u128, 1, 1, month as i128, opens));
        rows.push(sold(2 * month as u128 + 1, 1, 1, 100, closes));
        expected.push(MonthlySale { month, sales: 100 + month as i128 });
    }
    assert_eq!(monthly(&rows, Some(2024)), Some(expected));
    assert_eq!(monthly(&rows, Some(2025)), Some(vec![]));
    let mut store = Store::new();
    for row in rows {
        add(&mut store, row);
    }
    assert_eq!(run(&mut store, sales_revenue()), Reply::Success(Body::Amount(1278)));
}

#[test]
fn a_reversed_range_reports_nothing() {
    let mut store = shop();
    let reversed = ReportDateRange { start_date: 19_753, end_date: 19_737 };
    assert_eq!(run(&mut store, sales_by_date(reversed)), Reply::Success(Body::Report(vec![])));
    let next_day = ReportDateRange { start_date: 19_738, end_date: 19_737 };
    assert_eq!(run(&mut store, sales_by_date(next_day)), Reply::Success(Body::Report(vec![])));
}

#[test]
fn sales_are_counted_even_when_their_product_is_gone() {
    let mut store = shop();
    assert_eq!(
        run(&mut store, Task::Delete(Table::Products, Some(1))),
        Reply::NoContent
    );
    assert_eq!(run(&mut store, sales_count()), Reply::Success(Body::Count(4)));
    assert_eq!(run(&mut store, sales_revenue()), Reply::Success(Body::Amount(6500)));
    assert_eq!(
        run(&mut store, sales_report()),
        Reply::Success(Body::Report(vec![line(2, "Gadget", 1, 1000)]))
    );
}

#[test]
fn expenses_are_added_up_paid_or_not() {
    let mut store = Store::new();
    add(&mut store, expense(1, 250));
    let paid = Row::Expense(Expense {
        id: 2,
        description: String::from("paid"),
        supplier_id: None,
        amount: 1_000,
        due_date: 0,
        paid: true,
        created_at: 0,
    });
    add(&mut store, paid);
    assert_eq!(run(&mut store, expenses_total()), Reply::Success(Body::Amount(1_250)));
    assert_eq!(store.len(), 2);
}

#[test]
fn instants_are_those_of_the_calendar() {
    let by_the_calendar = |day: i32, hour: u32, minute: u32, second: u32| {
        let date = chrono::NaiveDate::from_epoch_days(day)?;
        let time = date.and_hms_opt(hour, minute, second)?;
        Some(time.and_utc().timestamp_micros())
    };
    let days = [
        i32::MIN,
        FIRST_DAY - 1,
        FIRST_DAY,
        FIRST_DAY + 1,
        -719_163,
        -1,
        0,
        1,
        19_737,
        LAST_DAY - 1,
        LAST_DAY,
        LAST_DAY + 1,
        i32::MAX,
    ];
    let times = [
        (0, 0, 0),
        (23, 59, 59),
        (12, 34, 56),
        (24, 0, 0),
        (23, 60, 0),
        (23, 59, 60),
        (0, 0, u32::MAX),
        (u32::MAX, 0, 0),
        (0, u32::MAX, 0),
    ];
    for day in days {
        for (hour, minute, second) in times {
            assert_eq!(
                instant(day, hour, minute, second),
                by_the_calendar(day, hour, minute, second)
            );
        }
    }
    assert_eq!(instant(0, 0, 0, 1), Some(1_000_000));
    assert_eq!(instant(1, 1, 1, 1), Some(90_061_000_000));
    assert_eq!(instant(-1, 23, 59, 59), Some(-1_000_000));
    assert_eq!(instant(0, 24, 0, 0), None);
    assert_eq!(instant(FIRST_DAY - 1, 0, 0, 0), None);
    assert_eq!(instant(LAST_DAY + 1, 0, 0, 0), None);
}

#[test]
fn the_clock_always_stands_in_a_year() {
    for _ in 0..8 {
        match sales_monthly() {
            Task::Monthly { year: Some(year) } => assert!((1970..=262_142).contains(&year)),
            other => panic!("unexpected task: {:?}", other),
        }
    }
}

//! What holds of every task carried out against a store, whatever rows the
//! store holds.
use vstd::prelude::*;
use crate::models::product::Product;
use crate::models::sale::{priced, SaleRecord};
use crate::models::{Row, Table};
use crate::ordering::{arranged, in_order, lemma_arranged_holds_the_same, lemma_arranged_in_order};
use crate::reply::{BodyView, Failure, ReplyView};
use crate::calendar::{lemma_days_do_not_overlap, FIRST_DAY, LAST_DAY};
use crate::handlers::reports_handler::span_of;
use crate::reports::{
    entries_sum, has_line, in_range, lemma_monthly_adds_up_to_the_year,
    lemma_nothing_in_a_reversed_range, lemma_report_adds_up, lemma_report_is_by_product,
    lemma_total_is_the_sum, monthly_of, months_upto, quantities, report_of, revenue_made,
    revenue_within, revenues, sold_within, sum, sum_of, sums_fit, units_sold, units_within,
    year_sum, MonthlySale, ReportDateRange, SalesReport,
};
use crate::repository::Changes;
use crate::runner::{completed, settled};
use crate::sales::{joined, lemma_joined_keeps_the_newest_first};
use crate::schema::{overlaid, CreateSale, UpdateSale};
use crate::store::{keys_distinct, of_table, position, row_of};
use crate::task::{Purpose, Task};

verus! {

/// A sale of a product that exists, for a positive quantity, is stored with
/// the price of the product times the quantity as its total, and answered
/// with its identifier.
pub proof fn sale_is_created_at_the_product_price(
    rows: Seq<Row>,
    product: Product,
    quantity: i32,
    id: u128,
    now: i64,
)
    requires
        row_of(rows, Table::Products, product.id) == Some(Row::Product(product)),
        position(rows, Table::Sales, id) is None,
        quantity > 0,
    ensures
        ({
            let input = CreateSale { product_id: product.id, quantity };
            let stored = SaleRecord {
                id,
                product_id: product.id,
                quantity,
                total_price: (product.price * quantity) as i128,
                created_at: now,
            };
            &&& stored.total_price == product.price * quantity
            &&& completed(rows, Task::CreateSale { id, now, input }) == (
                rows.push(Row::Sale(stored)),
                ReplyView::Created(BodyView::Id(id)),
            )
        }),
{
    reveal_with_fuel(settled, 3);
    assert(priced(product.price, quantity) == product.price * quantity);
    assert(-0x8000_0000_0000_0000 * 0x8000_0000 <= product.price * quantity
        <= 0x8000_0000_0000_0000 * 0x8000_0000) by (nonlinear_arith)
        requires
            -0x8000_0000_0000_0000 <= product.price <= 0x8000_0000_0000_0000,
            -0x8000_0000 <= quantity <= 0x8000_0000,
    ;
}

/// A sale that is changed and still has a positive quantity is priced
/// anew: its total becomes the price that its product has now, times its
/// quantity, also where the change gives no product and the product stays
/// the same. Its identifier and its creation time stay, and no other row
/// changes.
pub proof fn sale_is_repriced_on_update(
    rows: Seq<Row>,
    sale: SaleRecord,
    input: UpdateSale,
    product: Product,
)
    requires
        keys_distinct(rows),
        row_of(rows, Table::Sales, sale.id) == Some(Row::Sale(sale)),
        row_of(rows, Table::Products, overlaid(input.product_id, sale.product_id)) == Some(
            Row::Product(product),
        ),
        overlaid(input.quantity, sale.quantity) > 0,
    ensures
        ({
            let quantity = overlaid(input.quantity, sale.quantity);
            let stored = SaleRecord {
                id: sale.id,
                product_id: product.id,
                quantity,
                total_price: (product.price * quantity) as i128,
                created_at: sale.created_at,
            };
            let (after, reply) = completed(rows, Task::UpdateSale { id: Some(sale.id), input });
            &&& product.id == overlaid(input.product_id, sale.product_id)
            &&& stored.total_price == product.price * quantity
            &&& reply == ReplyView::Success(BodyView::Sale(stored.named(product.name)))
            &&& after == rows.update(position(rows, Table::Sales, sale.id)->0, Row::Sale(stored))
            &&& row_of(after, Table::Sales, sale.id) == Some(Row::Sale(stored))
        }),
{
    reveal_with_fuel(settled, 4);
    let quantity = overlaid(input.quantity, sale.quantity);
    let product_id = overlaid(input.product_id, sale.product_id);
    assert(rows[position(rows, Table::Products, product_id)->0].is(Table::Products, product_id));
    assert(priced(product.price, quantity) == product.price * quantity);
    assert(-0x8000_0000_0000_0000 * 0x8000_0000 <= product.price * quantity
        <= 0x8000_0000_0000_0000 * 0x8000_0000) by (nonlinear_arith)
        requires
            -0x8000_0000_0000_0000 <= product.price <= 0x8000_0000_0000_0000,
            -0x8000_0000 <= quantity <= 0x8000_0000,
    ;
    let at = position(rows, Table::Sales, sale.id)->0;
    let stored = SaleRecord {
        id: sale.id,
        product_id: product.id,
        quantity,
        total_price: (product.price * quantity) as i128,
        created_at: sale.created_at,
    };
    let after = rows.update(at, Row::Sale(stored));
    assert(after[at].is(Table::Sales, sale.id));
    let found = position(after, Table::Sales, sale.id)->0;
    if found != at {
        assert(rows[found].is(Table::Sales, sale.id));
        if found < at {
            assert(!rows[found].is(rows[at].table(), rows[at].id()));
        } else {
            assert(!rows[at].is(rows[found].table(), rows[found].id()));
        }
    }
}

/// A change that would leave a sale with no units, or with fewer, fails
/// with `Validation`, and no row is written.
pub proof fn sale_is_never_left_without_units(
    rows: Seq<Row>,
    sale: SaleRecord,
    input: UpdateSale,
    product: Product,
)
    requires
        row_of(rows, Table::Sales, sale.id) == Some(Row::Sale(sale)),
        row_of(rows, Table::Products, overlaid(input.product_id, sale.product_id)) == Some(
            Row::Product(product),
        ),
        overlaid(input.quantity, sale.quantity) <= 0,
    ensures
        completed(rows, Task::UpdateSale { id: Some(sale.id), input }) == (
            rows,
            ReplyView::Failed(Failure::Validation),
        ),
{
    reveal_with_fuel(settled, 4);
}

/// A change of a sale to a product that does not exist fails with
/// `Reference`, and no row is written.
pub proof fn sale_update_to_unknown_product_writes_nothing(
    rows: Seq<Row>,
    sale: SaleRecord,
    input: UpdateSale,
)
    requires
        row_of(rows, Table::Sales, sale.id) == Some(Row::Sale(sale)),
        position(rows, Table::Products, overlaid(input.product_id, sale.product_id)) is None,
    ensures
        completed(rows, Task::UpdateSale { id: Some(sale.id), input }) == (
            rows,
            ReplyView::Failed(Failure::Reference),
        ),
{
    reveal_with_fuel(settled, 4);
}

/// A sale of a product that does not exist fails with `Reference`, and no
/// row is written.
pub proof fn sale_of_unknown_product_writes_nothing(
    rows: Seq<Row>,
    input: CreateSale,
    id: u128,
    now: i64,
)
    requires
        position(rows, Table::Products, input.product_id) is None,
    ensures
        completed(rows, Task::CreateSale { id, now, input }) == (
            rows,
            ReplyView::Failed(Failure::Reference),
        ),
{
    reveal_with_fuel(settled, 3);
}

/// A sale of no units, or of fewer, of a product that exists fails with
/// `Validation`, and no row is written.
pub proof fn sale_of_nothing_is_rejected(
    rows: Seq<Row>,
    product: Product,
    input: CreateSale,
    id: u128,
    now: i64,
)
    requires
        row_of(rows, Table::Products, input.product_id) == Some(Row::Product(product)),
        input.quantity <= 0,
    ensures
        completed(rows, Task::CreateSale { id, now, input }) == (
            rows,
            ReplyView::Failed(Failure::Validation),
        ),
{
    reveal_with_fuel(settled, 2);
}

/// Changes that give no field change nothing: the store stays as it is and
/// the answer is the row as it was.
pub proof fn empty_patch_changes_nothing(rows: Seq<Row>, id: u128, changes: Changes, existing: Row)
    requires
        row_of(rows, changes.table(), id) == Some(existing),
        changes.gives_nothing(),
    ensures
        completed(rows, Task::Patch { id: Some(id), changes }) == (
            rows,
            ReplyView::Success(BodyView::Row(existing)),
        ),
{
    reveal_with_fuel(settled, 3);
    let at = position(rows, changes.table(), id)->0;
    assert(rows[at] == existing);
    assert(changes.applied(existing) == Some(existing));
    let again = position(rows, existing.table(), existing.id())->0;
    assert(rows[at].is(existing.table(), existing.id()));
    assert(rows.update(again, existing) =~= rows) by {
        assert(rows[again].is(changes.table(), id));
    }
}

/// Changes to a row that exists are merged into it: the row is replaced by
/// the row with the changes applied, which is the answer, and no other row
/// changes.
pub proof fn patch_merges_into_the_stored_row(
    rows: Seq<Row>,
    id: u128,
    changes: Changes,
    existing: Row,
)
    requires
        keys_distinct(rows),
        row_of(rows, changes.table(), id) == Some(existing),
    ensures
        ({
            let merged = changes.applied(existing)->0;
            &&& changes.applied(existing) is Some
            &&& completed(rows, Task::Patch { id: Some(id), changes }) == (
                rows.update(position(rows, changes.table(), id)->0, merged),
                ReplyView::Success(BodyView::Row(merged)),
            )
        }),
{
    reveal_with_fuel(settled, 3);
    let at = position(rows, changes.table(), id)->0;
    assert(rows[at].is(changes.table(), id));
    let merged = changes.applied(existing)->0;
    assert(merged.is(changes.table(), id));
    let again = position(rows, merged.table(), merged.id())->0;
    if again != at {
        if again < at {
            assert(!rows[again].is(rows[at].table(), rows[at].id()));
        } else {
            assert(!rows[at].is(rows[again].table(), rows[again].id()));
        }
    }
}

/// Changes to a row that does not exist fail with `NotFound`, and no row is
/// created.
pub proof fn patch_of_unknown_row_creates_nothing(rows: Seq<Row>, id: u128, changes: Changes)
    requires
        position(rows, changes.table(), id) is None,
    ensures
        completed(rows, Task::Patch { id: Some(id), changes }) == (
            rows,
            ReplyView::Failed(Failure::NotFound),
        ),
{
    reveal_with_fuel(settled, 2);
}

/// Changes to a sale that does not exist fail with `NotFound`, and no row
/// is created.
pub proof fn update_of_unknown_sale_creates_nothing(rows: Seq<Row>, id: u128, input: UpdateSale)
    requires
        position(rows, Table::Sales, id) is None,
    ensures
        completed(rows, Task::UpdateSale { id: Some(id), input }) == (
            rows,
            ReplyView::Failed(Failure::NotFound),
        ),
{
    reveal_with_fuel(settled, 2);
}

/// Removing a row that exists succeeds and takes that row out; removing it
/// once more fails with `NotFound` and changes nothing.
pub proof fn second_delete_finds_nothing(rows: Seq<Row>, table: Table, id: u128)
    requires
        keys_distinct(rows),
        position(rows, table, id) is Some,
    ensures
        ({
            let task = Task::Delete(table, Some(id));
            let (once, first) = completed(rows, task);
            let (twice, second) = completed(once, task);
            &&& first == ReplyView::NoContent
            &&& once == rows.remove(position(rows, table, id)->0)
            &&& second == ReplyView::Failed(Failure::NotFound)
            &&& twice == once
        }),
{
    reveal_with_fuel(settled, 2);
    let at = position(rows, table, id)->0;
    let once = rows.remove(at);
    assert(rows[at].is(table, id));
    assert forall|i: int| 0 <= i < once.len() implies !(#[trigger] once[i]).is(table, id) by {
        if i < at {
            assert(!rows[i].is(rows[at].table(), rows[at].id()));
        } else {
            assert(!rows[at].is(rows[i + 1].table(), rows[i + 1].id()));
        }
    }
}

/// Removing a row that does not exist fails with `NotFound`.
pub proof fn delete_of_unknown_row_finds_nothing(rows: Seq<Row>, table: Table, id: u128)
    requires
        position(rows, table, id) is None,
    ensures
        completed(rows, Task::Delete(table, Some(id))) == (
            rows,
            ReplyView::Failed(Failure::NotFound),
        ),
{
    reveal_with_fuel(settled, 2);
}

/// The count and the total of a table without rows are zero.
pub proof fn figures_of_an_empty_table_are_zero(rows: Seq<Row>, table: Table)
    requires
        forall|i: int| 0 <= i < rows.len() ==> (#[trigger] rows[i]).table() != table,
    ensures
        completed(rows, Task::Count(table)) == (rows, ReplyView::Success(BodyView::Count(0))),
        completed(rows, Task::Total(table)) == (rows, ReplyView::Success(BodyView::Amount(0))),
        completed(rows, Task::List(table)) == (
            rows,
            ReplyView::Success(BodyView::Rows(Seq::empty())),
        ),
{
    reveal_with_fuel(settled, 2);
    rows.lemma_all_neg_filter_empty(of_table(table));
    assert(rows.filter(of_table(table)) =~= Seq::<Row>::empty());
}

/// With no sales, the sales by month and the report by product are empty,
/// whatever the year and the range.
pub proof fn reports_without_sales_are_empty(
    rows: Seq<Row>,
    year: Option<i32>,
    range: Option<(i64, i64)>,
)
    requires
        forall|i: int| 0 <= i < rows.len() ==> (#[trigger] rows[i]).table() != Table::Sales,
    ensures
        completed(rows, Task::Monthly { year }) == (
            rows,
            ReplyView::Success(BodyView::Monthly(Seq::empty())),
        ),
        completed(rows, Task::Sales(Purpose::Report(range))) == (
            rows,
            ReplyView::Success(BodyView::Report(Seq::empty())),
        ),
        completed(rows, Task::Sales(Purpose::Listing)) == (
            rows,
            ReplyView::Success(BodyView::Sales(Seq::empty())),
        ),
{
    reveal_with_fuel(settled, 3);
    rows.lemma_all_neg_filter_empty(of_table(Table::Sales));
    let none = Seq::<Row>::empty();
    assert(rows.filter(of_table(Table::Sales)) =~= none);
    reveal_with_fuel(months_upto, 13);
    assert(months_upto(none, year, 12) =~= Seq::<MonthlySale>::empty());
    let products = rows.filter(of_table(Table::Products));
    assert(joined(none, products) =~= Seq::empty());
    assert(report_of(Seq::empty(), range) == Some(Seq::<SalesReport>::empty()));
}

/// A sale of a positive quantity whose product costs what it cost when the
/// sale was written stays as it is when it is updated with nothing given.
pub proof fn empty_sale_update_changes_nothing_at_the_same_price(
    rows: Seq<Row>,
    sale: SaleRecord,
    product: Product,
)
    requires
        row_of(rows, Table::Sales, sale.id) == Some(Row::Sale(sale)),
        row_of(rows, Table::Products, sale.product_id) == Some(Row::Product(product)),
        sale.total_price == product.price * sale.quantity,
        sale.quantity > 0,
    ensures
        completed(
            rows,
            Task::UpdateSale {
                id: Some(sale.id),
                input: UpdateSale { product_id: None, quantity: None },
            },
        ) == (rows, ReplyView::Success(BodyView::Sale(sale.named(product.name)))),
{
    reveal_with_fuel(settled, 4);
    let at = position(rows, Table::Sales, sale.id)->0;
    assert(rows[at] == Row::Sale(sale));
    assert(sale.repriced(sale.product_id, sale.quantity, product.price) == sale);
    assert(rows.update(at, Row::Sale(sale)) =~= rows);
}

/// Whether a task only reads.
pub open spec fn reads_only(task: Task) -> bool {
    match task {
        Task::List(_) | Task::Get(_, _) | Task::Sales(_) | Task::ReportBetween(_) | Task::GetSale(
            _,
        ) | Task::Count(_)
        | Task::Total(_) | Task::Monthly { .. } => true,
        _ => false,
    }
}

/// A task that only reads leaves every row as it is.
pub proof fn reading_changes_nothing(rows: Seq<Row>, task: Task)
    requires
        reads_only(task),
    ensures
        completed(rows, task).0 == rows,
{
    reveal_with_fuel(settled, 4);
}

/// A task that fails has written nothing.
pub proof fn failed_task_writes_nothing(rows: Seq<Row>, task: Task)
    requires
        completed(rows, task).1 is Failed,
    ensures
        completed(rows, task).0 == rows,
{
    reveal_with_fuel(settled, 4);
    match task {
        Task::Patch { id: Some(id), changes } => {
            match position(rows, changes.table(), id) {
                Some(at) => {
                    assert(rows[at].is(changes.table(), id));
                    match changes.applied(rows[at]) {
                        Some(row) => {
                            assert(rows[at].is(row.table(), row.id()));
                        },
                        None => {},
                    }
                },
                None => {},
            }
        },
        Task::UpdateSale { id: Some(id), input } => {
            match position(rows, Table::Sales, id) {
                Some(at) => {
                    assert(rows[at].is(Table::Sales, id));
                },
                None => {},
            }
        },
        _ => {},
    }
}

/// A task writes at most one row: the rows after it are the rows before
/// it, or those with one row added, replaced or removed.
pub proof fn task_writes_at_most_one_row(rows: Seq<Row>, task: Task)
    ensures
        ({
            let after = completed(rows, task).0;
            ||| after == rows
            ||| exists|row: Row| after == #[trigger] rows.push(row)
            ||| exists|at: int, row: Row| 0 <= at < rows.len() && after == #[trigger] rows.update(at, row)
            ||| exists|at: int| 0 <= at < rows.len() && after == #[trigger] rows.remove(at)
        }),
{
    reveal_with_fuel(settled, 4);
    let after = completed(rows, task).0;
    match task {
        Task::Create { row, echo } => {
            if after != rows {
                assert(after == rows.push(row));
            }
        },
        Task::Patch { id: Some(id), changes } => {
            if after != rows {
                let at = position(rows, changes.table(), id)->0;
                let row = changes.applied(rows[at])->0;
                let to = position(rows, row.table(), row.id())->0;
                assert(after == rows.update(to, row));
            }
        },
        Task::Delete(table, Some(id)) => {
            if after != rows {
                assert(after == rows.remove(position(rows, table, id)->0));
            }
        },
        Task::CreateSale { id, now, input } => {
            if after != rows {
                let product = row_of(rows, Table::Products, input.product_id)->0->Product_0;
                assert(after == rows.push(
                    Row::Sale(SaleRecord::created(id, now, input, product.price)),
                ));
            }
        },
        Task::UpdateSale { id: Some(id), input } => {
            if after != rows {
                let existing = row_of(rows, Table::Sales, id)->0->Sale_0;
                let product_id = overlaid(input.product_id, existing.product_id);
                let quantity = overlaid(input.quantity, existing.quantity);
                let product = row_of(rows, Table::Products, product_id)->0->Product_0;
                let record = existing.repriced(product_id, quantity, product.price);
                let to = position(rows, Table::Sales, record.id)->0;
                assert(after == rows.update(to, Row::Sale(record)));
            }
        },
        _ => {},
    }
}

/// The rows of a table are listed in the order of the table, each of them
/// once: clients and suppliers by name, expenses by due date.
pub proof fn rows_are_listed_in_the_order_of_their_table(rows: Seq<Row>, table: Table)
    ensures
        ({
            let (after, reply) = completed(rows, Task::List(table));
            &&& after == rows
            &&& reply matches ReplyView::Success(BodyView::Rows(listed))
            &&& in_order(listed)
            &&& listed.to_multiset() == rows.filter(of_table(table)).to_multiset()
        }),
{
    reveal_with_fuel(settled, 2);
    lemma_arranged_in_order(rows.filter(of_table(table)));
    lemma_arranged_holds_the_same(rows.filter(of_table(table)));
}

/// Sales are listed from the newest to the oldest.
pub proof fn sales_are_listed_from_the_newest(rows: Seq<Row>)
    ensures
        ({
            let (after, reply) = completed(rows, Task::Sales(Purpose::Listing));
            &&& after == rows
            &&& reply matches ReplyView::Success(BodyView::Sales(listed))
            &&& forall|i: int, j: int|
                0 <= i < j < listed.len() ==> (#[trigger] listed[i]).created_at >= (
                #[trigger] listed[j]).created_at
        }),
{
    reveal_with_fuel(settled, 3);
    let sales = rows.filter(of_table(Table::Sales));
    let products = rows.filter(of_table(Table::Products));
    lemma_arranged_in_order(sales);
    lemma_joined_keeps_the_newest_first(arranged(sales), products);
}

/// The total of a table is the sum of the amounts of its rows, and the
/// answer where that sum stays within 128 bits while the rows are added up;
/// where it does not, the task fails with `Storage`. Nothing is written.
pub proof fn total_is_the_sum_of_the_table(rows: Seq<Row>, table: Table)
    ensures
        ({
            let listed = rows.filter(of_table(table));
            completed(rows, Task::Total(table)) == (
                rows,
                if sums_fit(listed) {
                    ReplyView::Success(BodyView::Amount(sum_of(listed) as i128))
                } else {
                    ReplyView::Failed(Failure::Storage)
                },
            )
        }),
{
    reveal_with_fuel(settled, 2);
    lemma_total_is_the_sum(rows.filter(of_table(table)));
}

/// The count of a table is the number of its rows, each counted once,
/// whatever else they refer to. Nothing is written.
pub proof fn count_is_the_number_of_rows(rows: Seq<Row>, table: Table)
    requires
        rows.len() <= u64::MAX,
    ensures
        ({
            let listed = rows.filter(of_table(table));
            &&& listed.len() <= rows.len()
            &&& listed.to_multiset() =~= rows.to_multiset().filter(of_table(table))
            &&& completed(rows, Task::Count(table)) == (
                rows,
                ReplyView::Success(BodyView::Count(listed.len() as u64)),
            )
        }),
{
    reveal_with_fuel(settled, 2);
    rows.lemma_filter_len(of_table(table));
    lemma_filter_counts_each_row_once(rows, table);
}

/// The rows of a table, listed, are the rows of the store that belong to
/// the table, each as often as the store holds it.
proof fn lemma_filter_counts_each_row_once(rows: Seq<Row>, table: Table)
    ensures
        rows.filter(of_table(table)).to_multiset() =~= rows.to_multiset().filter(of_table(table)),
    decreases rows.len(),
{
    broadcast use vstd::multiset::group_multiset_axioms;
    broadcast use vstd::seq_lib::group_to_multiset_ensures;

    reveal(Seq::filter);
    if rows.len() > 0 {
        let before = rows.drop_last();
        lemma_filter_counts_each_row_once(before, table);
        assert(rows =~= before.push(rows.last()));
    }
}

/// The report on sales is by product. It is made from the sales of the
/// store whose product exists; where a sum leaves its range the task fails
/// with `Storage`. Otherwise its lines go from the highest revenue to the
/// lowest; no two of them are of the same product; every line says what
/// the sales of its product, made within the range, sold and brought in;
/// there is a line for every product with such a sale and for no other;
/// and all lines together account for all those sales. Nothing is written.
pub proof fn report_is_by_product(rows: Seq<Row>, range: Option<(i64, i64)>)
    ensures
        ({
            let sales = joined(
                rows.filter(of_table(Table::Sales)),
                rows.filter(of_table(Table::Products)),
            );
            let (after, reply) = completed(rows, Task::Sales(Purpose::Report(range)));
            &&& after == rows
            &&& reply == match report_of(sales, range) {
                Some(lines) => ReplyView::Success(BodyView::Report(lines)),
                None => ReplyView::Failed(Failure::Storage),
            }
            &&& report_of(sales, range) matches Some(report) ==> {
                &&& in_order(report)
                &&& forall|i: int, j: int|
                    0 <= i < j < report.len() ==> (#[trigger] report[i]).product_id != (
                    #[trigger] report[j]).product_id
                &&& forall|i: int|
                    0 <= i < report.len() ==> (#[trigger] report[i]).total_quantity == units_sold(
                        sales,
                        range,
                        report[i].product_id,
                    ) && report[i].total_revenue == revenue_made(
                        sales,
                        range,
                        report[i].product_id,
                    )
                &&& forall|k: int|
                    0 <= k < sales.len() && in_range((#[trigger] sales[k]).created_at, range)
                        ==> has_line(report, sales[k].product_id)
                &&& forall|i: int|
                    0 <= i < report.len() ==> sold_within(
                        sales,
                        range,
                        (#[trigger] report[i]).product_id,
                    )
                &&& sum(revenues(report)) == revenue_within(sales, range)
                &&& sum(quantities(report)) == units_within(sales, range)
            }
        }),
{
    reveal_with_fuel(settled, 3);
    let sales = joined(rows.filter(of_table(Table::Sales)), rows.filter(of_table(Table::Products)));
    if report_of(sales, range) is Some {
        lemma_report_is_by_product(sales, range);
        lemma_report_adds_up(sales, range);
    }
}

/// The sales by month are those of the sales of the store made in the
/// given year; together the months account for all of them. Where the sum
/// of a month leaves its range the task fails with `Storage`. Nothing is
/// written.
pub proof fn months_add_up_to_the_year(rows: Seq<Row>, year: Option<i32>)
    ensures
        ({
            let sales = rows.filter(of_table(Table::Sales));
            let (after, reply) = completed(rows, Task::Monthly { year });
            &&& after == rows
            &&& reply == match monthly_of(sales, year) {
                Some(months) => ReplyView::Success(BodyView::Monthly(months)),
                None => ReplyView::Failed(Failure::Storage),
            }
            &&& monthly_of(sales, year) matches Some(months) ==> entries_sum(months) == year_sum(
                sales,
                year,
            )
        }),
{
    reveal_with_fuel(settled, 2);
    let sales = rows.filter(of_table(Table::Sales));
    if monthly_of(sales, year) is Some {
        lemma_monthly_adds_up_to_the_year(sales, year);
    }
}

/// A report between two instants is the report on the sales made between
/// them: what `report_is_by_product` says holds of it.
pub proof fn report_between_is_the_report(rows: Seq<Row>, range: (i64, i64))
    ensures
        completed(rows, Task::ReportBetween(Some(range))) == completed(
            rows,
            Task::Sales(Purpose::Report(Some(range))),
        ),
{
    reveal_with_fuel(settled, 3);
}

/// A report on days of the calendar runs from the first instant of the
/// first day to the last second of the last day.
pub proof fn report_on_days_runs_from_midnight_to_the_last_second(query: ReportDateRange)
    requires
        FIRST_DAY <= query.start_date <= LAST_DAY,
        FIRST_DAY <= query.end_date <= LAST_DAY,
    ensures
        span_of(query) == Some(
            (
                (query.start_date * 86_400_000_000) as i64,
                (query.end_date * 86_400_000_000 + 86_399_000_000) as i64,
            ),
        ),
{
}

/// A report that names a day outside the calendar fails with `Validation`
/// before the store is asked anything.
pub proof fn report_on_days_outside_the_calendar_is_rejected(
    rows: Seq<Row>,
    query: ReportDateRange,
)
    requires
        !(FIRST_DAY <= query.start_date <= LAST_DAY) || !(FIRST_DAY <= query.end_date
            <= LAST_DAY),
    ensures
        completed(rows, Task::ReportBetween(span_of(query))) == (
            rows,
            ReplyView::Failed(Failure::Validation),
        ),
{
    reveal_with_fuel(settled, 2);
}

/// A report from a day of the calendar to an earlier one is empty.
pub proof fn report_on_reversed_days_is_empty(rows: Seq<Row>, query: ReportDateRange)
    requires
        FIRST_DAY <= query.end_date < query.start_date <= LAST_DAY,
    ensures
        completed(rows, Task::ReportBetween(span_of(query))) == (
            rows,
            ReplyView::Success(BodyView::Report(Seq::empty())),
        ),
{
    reveal_with_fuel(settled, 3);
    lemma_days_do_not_overlap(query.end_date, query.start_date);
    let range = span_of(query)->0;
    let sales = joined(rows.filter(of_table(Table::Sales)), rows.filter(of_table(Table::Products)));
    lemma_nothing_in_a_reversed_range(sales, range.0, range.1);
}

} // verus!

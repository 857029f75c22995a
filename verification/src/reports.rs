//! Figures derived from the rows of the store: counts, totals, sales by
//! month and sales by product. Sums are added up from left to right in 128
//! bits (quantities in 64); a sum that leaves that range on the way has no
//! value.
use vstd::prelude::*;
use crate::calendar::{month, month_of};
use crate::models::sale::Sale;
use crate::models::Row;
use crate::ordering::{
    arrange, arranged, in_order, lemma_arranged_in_order, lemma_arranged_item_was_there,
    lemma_arranged_keeps_items_apart, lemma_item_is_arranged, placed, Ranked,
};

verus! {

/// What one product has sold.
#[derive(Debug, Clone, PartialEq)]
pub struct SalesReport {
    pub product_id: u128,
    /// The name of the product, as the first sale counted shows it.
    pub product_name: String,
    pub total_quantity: i64,
    /// In hundredths.
    pub total_revenue: i128,
}

/// The first and the last day of a report, both included; days count from
/// 1970-01-01.
#[derive(Debug, Clone, Copy, PartialEq, Eq)]
pub struct ReportDateRange {
    pub start_date: i32,
    pub end_date: i32,
}

/// What one month has sold.
#[derive(Debug, Clone, Copy, PartialEq, Eq)]
pub struct MonthlySale {
    /// 1 for January to 12 for December.
    pub month: u32,
    /// In hundredths.
    pub sales: i128,
}

impl Ranked for SalesReport {
    /// Lines go from the highest revenue to the lowest.
    open spec fn precedes(&self, other: &Self) -> bool {
        self.total_revenue >= other.total_revenue
    }

    fn comes_before(&self, other: &Self) -> (before: bool) {
        self.total_revenue >= other.total_revenue
    }

    proof fn precedes_total(a: &Self, b: &Self) {
    }

    proof fn precedes_transitive(a: &Self, b: &Self, c: &Self) {
    }
}

/// The amount that a row stands for: the total of a sale, the amount of an
/// expense or of a payment, nothing for any other row.
pub open spec fn amount_of(row: Row) -> i128 {
    match row {
        Row::Sale(sale) => sale.total_price,
        Row::Expense(expense) => expense.amount as i128,
        Row::Payment(payment) => payment.amount as i128,
        _ => 0,
    }
}

/// A running total with one more amount.
pub open spec fn added(total: Option<i128>, amount: i128) -> Option<i128> {
    match total {
        Some(so_far) => if i128::MIN <= so_far + amount <= i128::MAX {
            Some((so_far + amount) as i128)
        } else {
            None
        },
        None => None,
    }
}

/// The sum of the amounts of some rows; zero for no rows.
pub open spec fn total_of(rows: Seq<Row>) -> Option<i128>
    decreases rows.len(),
{
    if rows.len() == 0 {
        Some(0)
    } else {
        added(total_of(rows.drop_last()), amount_of(rows.last()))
    }
}

/// A total that has no value after some rows has none after more.
proof fn lemma_total_stays_lost(rows: Seq<Row>, upto: int)
    requires
        0 <= upto <= rows.len(),
        total_of(rows.take(upto)) is None,
    ensures
        total_of(rows) is None,
    decreases rows.len() - upto,
{
    if upto == rows.len() {
        assert(rows.take(upto) =~= rows);
    } else {
        assert(rows.take(upto + 1).drop_last() =~= rows.take(upto));
        lemma_total_stays_lost(rows, upto + 1);
    }
}

/// The sum of the amounts of some rows, however large.
pub open spec fn sum_of(rows: Seq<Row>) -> int
    decreases rows.len(),
{
    if rows.len() == 0 {
        0
    } else {
        sum_of(rows.drop_last()) + amount_of(rows.last())
    }
}

/// Whether the sum of the first rows, however many are taken, stays within
/// 128 bits.
pub open spec fn sums_fit(rows: Seq<Row>) -> bool {
    forall|upto: int|
        0 <= upto <= rows.len() ==> i128::MIN <= #[trigger] sum_of(rows.take(upto)) <= i128::MAX
}

/// The total of some rows is their sum, and has a value exactly where the
/// sum stays within 128 bits while the rows are added up one by one.
pub proof fn lemma_total_is_the_sum(rows: Seq<Row>)
    ensures
        total_of(rows) is Some <==> sums_fit(rows),
        total_of(rows) matches Some(total) ==> total == sum_of(rows),
    decreases rows.len(),
{
    if rows.len() == 0 {
        assert forall|upto: int| 0 <= upto <= rows.len() implies i128::MIN <= #[trigger] sum_of(
            rows.take(upto),
        ) <= i128::MAX by {
            assert(rows.take(upto) =~= rows);
        }
    } else {
        let before = rows.drop_last();
        lemma_total_is_the_sum(before);
        assert(rows.take(rows.len() as int) =~= rows);
        assert forall|upto: int| 0 <= upto <= before.len() implies #[trigger] rows.take(upto)
            == before.take(upto) by {
            assert(rows.take(upto) =~= before.take(upto));
        }
        if sums_fit(rows) {
            assert forall|upto: int| 0 <= upto <= before.len() implies i128::MIN
                <= #[trigger] sum_of(before.take(upto)) <= i128::MAX by {
                assert(rows.take(upto) == before.take(upto));
                assert(i128::MIN <= sum_of(rows.take(upto)) <= i128::MAX);
            }
            assert(i128::MIN <= sum_of(rows.take(rows.len() as int)) <= i128::MAX);
        }
        if total_of(rows) is Some {
            assert forall|upto: int| 0 <= upto <= rows.len() implies i128::MIN <= #[trigger] sum_of(
                rows.take(upto),
            ) <= i128::MAX by {
                if upto <= before.len() {
                    assert(rows.take(upto) == before.take(upto));
                    assert(i128::MIN <= sum_of(before.take(upto)) <= i128::MAX);
                }
            }
        }
    }
}

/// Amounts none of which is negative have a total where their sum fits in
/// 128 bits.
pub proof fn lemma_total_of_amounts_owed(rows: Seq<Row>)
    requires
        forall|i: int| 0 <= i < rows.len() ==> amount_of(#[trigger] rows[i]) >= 0,
        sum_of(rows) <= i128::MAX,
    ensures
        total_of(rows) == Some(sum_of(rows) as i128),
        sum_of(rows) >= 0,
    decreases rows.len(),
{
    if rows.len() > 0 {
        let before = rows.drop_last();
        assert(amount_of(rows[rows.len() - 1]) >= 0);
        assert forall|i: int| 0 <= i < before.len() implies amount_of(#[trigger] before[i]) >= 0 by {
            assert(before[i] == rows[i]);
        }
        lemma_sum_is_not_negative(before);
        lemma_total_of_amounts_owed(before);
    }
}

/// Amounts none of which is negative add up to an amount that is not
/// negative.
proof fn lemma_sum_is_not_negative(rows: Seq<Row>)
    requires
        forall|i: int| 0 <= i < rows.len() ==> amount_of(#[trigger] rows[i]) >= 0,
    ensures
        sum_of(rows) >= 0,
    decreases rows.len(),
{
    if rows.len() > 0 {
        let before = rows.drop_last();
        assert(amount_of(rows[rows.len() - 1]) >= 0);
        assert forall|i: int| 0 <= i < before.len() implies amount_of(#[trigger] before[i]) >= 0 by {
            assert(before[i] == rows[i]);
        }
        lemma_sum_is_not_negative(before);
    }
}

/// The amount that a row stands for.
pub fn amount(row: &Row) -> (value: i128)
    ensures
        value == amount_of(*row),
{
    match row {
        Row::Sale(sale) => sale.total_price,
        Row::Expense(expense) => expense.amount as i128,
        Row::Payment(payment) => payment.amount as i128,
        _ => 0,
    }
}

/// Adds up the amounts of some rows.
pub fn total(rows: &Vec<Row>) -> (sum: Option<i128>)
    ensures
        sum == total_of(rows@),
{
    let mut so_far: i128 = 0;
    let mut at: usize = 0;
    while at < rows.len()
        invariant
            at <= rows.len(),
            total_of(rows@.take(at as int)) == Some(so_far),
        decreases rows.len() - at,
    {
        proof {
            assert(rows@.take(at as int + 1).drop_last() =~= rows@.take(at as int));
        }
        match so_far.checked_add(amount(&rows[at])) {
            Some(next) => {
                so_far = next;
            },
            None => {
                proof {
                    lemma_total_stays_lost(rows@, at as int + 1);
                }
                return None;
            },
        }
        at += 1;
    }
    proof {
        assert(rows@.take(rows.len() as int) =~= rows@);
    }
    Some(so_far)
}

/// Whether an instant lies within a range, the ends included; every instant
/// lies within no range at all.
pub open spec fn in_range(at: i64, range: Option<(i64, i64)>) -> bool {
    match range {
        Some((start, end)) => start <= at <= end,
        None => true,
    }
}

/// The first line for a product among some lines.
pub open spec fn line_of(lines: Seq<SalesReport>, product_id: u128) -> Option<int> {
    if exists|i: int| 0 <= i < lines.len() && (#[trigger] lines[i]).product_id == product_id {
        Some(
            choose|i: int|
                0 <= i < lines.len() && (#[trigger] lines[i]).product_id == product_id && forall|
                    j: int,
                |
                    0 <= j < i ==> (#[trigger] lines[j]).product_id != product_id,
        )
    } else {
        None
    }
}

/// The lines with one more sale: added to the line for its product, or on a
/// line of its own at the end where its product has none.
pub open spec fn credited(lines: Seq<SalesReport>, sale: Sale) -> Option<Seq<SalesReport>> {
    match line_of(lines, sale.product_id) {
        Some(at) => {
            let quantity = lines[at].total_quantity + sale.quantity;
            let revenue = lines[at].total_revenue + sale.total_price;
            if i64::MIN <= quantity <= i64::MAX && i128::MIN <= revenue <= i128::MAX {
                Some(
                    lines.update(
                        at,
                        SalesReport {
                            product_id: lines[at].product_id,
                            product_name: lines[at].product_name,
                            total_quantity: quantity as i64,
                            total_revenue: revenue as i128,
                        },
                    ),
                )
            } else {
                None
            }
        },
        None => Some(
            lines.push(
                SalesReport {
                    product_id: sale.product_id,
                    product_name: sale.product_name,
                    total_quantity: sale.quantity as i64,
                    total_revenue: sale.total_price,
                },
            ),
        ),
    }
}

/// One line for each product among the sales made within the range, with
/// what the product sold there, in the order in which the products first
/// occur. Products are told apart by their identifiers, not by their names.
pub open spec fn grouped(sales: Seq<Sale>, range: Option<(i64, i64)>) -> Option<Seq<SalesReport>>
    decreases sales.len(),
{
    if sales.len() == 0 {
        Some(Seq::empty())
    } else {
        match grouped(sales.drop_last(), range) {
            Some(lines) => if in_range(sales.last().created_at, range) {
                credited(lines, sales.last())
            } else {
                Some(lines)
            },
            None => None,
        }
    }
}

/// The report on the sales made within the range: what each product sold,
/// from the highest revenue to the lowest.
pub open spec fn report_of(sales: Seq<Sale>, range: Option<(i64, i64)>) -> Option<Seq<SalesReport>> {
    match grouped(sales, range) {
        Some(lines) => Some(arranged(lines)),
        None => None,
    }
}

/// Whether a sale was made within the range and is of the given product.
pub open spec fn counts_for(sale: Sale, range: Option<(i64, i64)>, product_id: u128) -> bool {
    in_range(sale.created_at, range) && sale.product_id == product_id
}

/// Whether any sale of the given product was made within the range.
pub open spec fn sold_within(sales: Seq<Sale>, range: Option<(i64, i64)>, product_id: u128) -> bool {
    exists|k: int| 0 <= k < sales.len() && counts_for(#[trigger] sales[k], range, product_id)
}

/// Whether the given product has a line among some lines.
pub open spec fn has_line(lines: Seq<SalesReport>, product_id: u128) -> bool {
    exists|i: int| 0 <= i < lines.len() && (#[trigger] lines[i]).product_id == product_id
}

/// How many units of the product were sold within the range.
pub open spec fn units_sold(sales: Seq<Sale>, range: Option<(i64, i64)>, product_id: u128) -> int
    decreases sales.len(),
{
    if sales.len() == 0 {
        0
    } else if counts_for(sales.last(), range, product_id) {
        units_sold(sales.drop_last(), range, product_id) + sales.last().quantity
    } else {
        units_sold(sales.drop_last(), range, product_id)
    }
}

/// What the sales of the product brought in within the range.
pub open spec fn revenue_made(sales: Seq<Sale>, range: Option<(i64, i64)>, product_id: u128) -> int
    decreases sales.len(),
{
    if sales.len() == 0 {
        0
    } else if counts_for(sales.last(), range, product_id) {
        revenue_made(sales.drop_last(), range, product_id) + sales.last().total_price
    } else {
        revenue_made(sales.drop_last(), range, product_id)
    }
}

/// A product of which no sale counts has sold nothing.
proof fn lemma_nothing_sold(sales: Seq<Sale>, range: Option<(i64, i64)>, product_id: u128)
    requires
        forall|k: int| 0 <= k < sales.len() ==> !counts_for(#[trigger] sales[k], range, product_id),
    ensures
        units_sold(sales, range, product_id) == 0,
        revenue_made(sales, range, product_id) == 0,
    decreases sales.len(),
{
    if sales.len() > 0 {
        let before = sales.drop_last();
        assert(!counts_for(sales[sales.len() - 1], range, product_id));
        assert forall|k: int| 0 <= k < before.len() implies !counts_for(
            #[trigger] before[k],
            range,
            product_id,
        ) by {
            assert(before[k] == sales[k]);
        }
        lemma_nothing_sold(before, range, product_id);
    }
}

/// The lines of a report are by product: no two lines are of the same
/// product, so that sales of different products never share a line; every
/// line says what the sales of its product, and of no other, sold within
/// the range; every sale made within the range has the line of its
/// product; and every line is the line of such a sale.
pub proof fn lemma_grouped_is_by_product(sales: Seq<Sale>, range: Option<(i64, i64)>)
    requires
        grouped(sales, range) is Some,
    ensures
        ({
            let lines = grouped(sales, range)->0;
            &&& forall|i: int, j: int|
                0 <= i < j < lines.len() ==> (#[trigger] lines[i]).product_id != (
                #[trigger] lines[j]).product_id
            &&& forall|i: int|
                0 <= i < lines.len() ==> (#[trigger] lines[i]).total_quantity == units_sold(
                    sales,
                    range,
                    lines[i].product_id,
                ) && lines[i].total_revenue == revenue_made(sales, range, lines[i].product_id)
            &&& forall|k: int|
                0 <= k < sales.len() && in_range((#[trigger] sales[k]).created_at, range)
                    ==> line_of(lines, sales[k].product_id) is Some
            &&& forall|i: int|
                0 <= i < lines.len() ==> sold_within(sales, range, (#[trigger] lines[i]).product_id)
        }),
    decreases sales.len(),
{
    if sales.len() > 0 {
        let before = sales.drop_last();
        let last = sales.last();
        let product_id = last.product_id;
        let old_lines = grouped(before, range)->0;
        let lines = grouped(sales, range)->0;
        lemma_grouped_is_by_product(before, range);
        assert forall|k: int| 0 <= k < before.len() implies #[trigger] before[k] == sales[k] by {}
        if in_range(last.created_at, range) {
            match line_of(old_lines, product_id) {
                Some(at) => {
                    assert(old_lines[at].product_id == product_id);
                    assert forall|i: int| 0 <= i < lines.len() && i != at implies (
                    #[trigger] lines[i]).product_id != product_id by {
                        assert(lines[i] == old_lines[i]);
                        if i < at {
                            assert(old_lines[i].product_id != old_lines[at].product_id);
                        } else {
                            assert(old_lines[at].product_id != old_lines[i].product_id);
                        }
                    }
                    assert forall|i: int, j: int| 0 <= i < j < lines.len() implies (
                    #[trigger] lines[i]).product_id != (#[trigger] lines[j]).product_id by {
                        assert(lines[i].product_id == old_lines[i].product_id);
                        assert(lines[j].product_id == old_lines[j].product_id);
                    }
                    assert forall|k: int|
                        0 <= k < sales.len() && in_range(
                            (#[trigger] sales[k]).created_at,
                            range,
                        ) implies line_of(lines, sales[k].product_id) is Some by {
                        if k < before.len() {
                            assert(before[k] == sales[k]);
                            let found = line_of(old_lines, sales[k].product_id)->0;
                            assert(lines[found].product_id == old_lines[found].product_id);
                        } else {
                            assert(lines[at].product_id == product_id);
                        }
                    }
                    assert forall|i: int| 0 <= i < lines.len() implies sold_within(
                        sales,
                        range,
                        (#[trigger] lines[i]).product_id,
                    ) by {
                        assert(lines[i].product_id == old_lines[i].product_id);
                        assert(sold_within(before, range, old_lines[i].product_id));
                        let k = choose|k: int|
                            0 <= k < before.len() && counts_for(
                                #[trigger] before[k],
                                range,
                                old_lines[i].product_id,
                            );
                        assert(counts_for(sales[k], range, lines[i].product_id));
                    }
                },
                None => {
                    assert forall|k: int| 0 <= k < before.len() implies !counts_for(
                        #[trigger] before[k],
                        range,
                        product_id,
                    ) by {
                        if counts_for(before[k], range, product_id) {
                            assert(before[k] == sales[k]);
                            assert(in_range(before[k].created_at, range));
                            assert(line_of(old_lines, before[k].product_id) is Some);
                        }
                    }
                    lemma_nothing_sold(before, range, product_id);
                    assert forall|i: int| 0 <= i < old_lines.len() implies (
                    #[trigger] old_lines[i]).product_id != product_id by {}
                    assert forall|i: int, j: int| 0 <= i < j < lines.len() implies (
                    #[trigger] lines[i]).product_id != (#[trigger] lines[j]).product_id by {
                        if j < old_lines.len() {
                            assert(lines[i] == old_lines[i]);
                            assert(lines[j] == old_lines[j]);
                        } else {
                            assert(lines[i] == old_lines[i]);
                        }
                    }
                    assert forall|k: int|
                        0 <= k < sales.len() && in_range(
                            (#[trigger] sales[k]).created_at,
                            range,
                        ) implies line_of(lines, sales[k].product_id) is Some by {
                        if k < before.len() {
                            assert(before[k] == sales[k]);
                            let found = line_of(old_lines, sales[k].product_id)->0;
                            assert(lines[found] == old_lines[found]);
                        } else {
                            assert(lines[old_lines.len() as int].product_id == product_id);
                        }
                    }
                    assert forall|i: int| 0 <= i < lines.len() implies sold_within(
                        sales,
                        range,
                        (#[trigger] lines[i]).product_id,
                    ) by {
                        if i < old_lines.len() {
                            assert(lines[i] == old_lines[i]);
                            assert(sold_within(before, range, old_lines[i].product_id));
                            let k = choose|k: int|
                                0 <= k < before.len() && counts_for(
                                    #[trigger] before[k],
                                    range,
                                    old_lines[i].product_id,
                                );
                            assert(counts_for(sales[k], range, lines[i].product_id));
                        } else {
                            assert(counts_for(sales[sales.len() - 1], range, product_id));
                        }
                    }
                },
            }
        } else {
            assert forall|k: int|
                0 <= k < sales.len() && in_range(
                    (#[trigger] sales[k]).created_at,
                    range,
                ) implies line_of(lines, sales[k].product_id) is Some by {
                assert(before[k] == sales[k]);
            }
            assert forall|i: int| 0 <= i < lines.len() implies sold_within(
                        sales,
                        range,
                        (#[trigger] lines[i]).product_id,
                    ) by {
                assert(sold_within(before, range, old_lines[i].product_id));
                let k = choose|k: int|
                    0 <= k < before.len() && counts_for(
                        #[trigger] before[k],
                        range,
                        old_lines[i].product_id,
                    );
                assert(counts_for(sales[k], range, lines[i].product_id));
            }
        }
    }
}

/// Whether a line is of the product of a sale made within the range, and
/// shows the name that the sale shows.
pub open spec fn shows(line: SalesReport, sale: Sale, range: Option<(i64, i64)>) -> bool {
    counts_for(sale, range, line.product_id) && sale.product_name == line.product_name
}

/// Every line shows its product under a name that a sale of that product,
/// made within the range, shows.
pub proof fn lemma_lines_show_names_sold(sales: Seq<Sale>, range: Option<(i64, i64)>)
    requires
        grouped(sales, range) is Some,
    ensures
        ({
            let lines = grouped(sales, range)->0;
            forall|i: int|
                0 <= i < lines.len() ==> exists|k: int|
                    0 <= k < sales.len() && shows(#[trigger] lines[i], #[trigger] sales[k], range)
        }),
    decreases sales.len(),
{
    if sales.len() > 0 {
        let before = sales.drop_last();
        let last = sales.last();
        let old_lines = grouped(before, range)->0;
        let lines = grouped(sales, range)->0;
        lemma_lines_show_names_sold(before, range);
        lemma_grouped_is_by_product(before, range);
        let product_id = last.product_id;
        if in_range(last.created_at, range) {
            match line_of(old_lines, product_id) {
                Some(at) => {
                    assert(old_lines[at].product_id == product_id);
                    assert(lines.len() == old_lines.len());
                },
                None => {
                    assert(lines == old_lines.push(lines[old_lines.len() as int]));
                },
            }
        } else {
            assert(lines == old_lines);
        }
        assert forall|i: int| 0 <= i < lines.len() implies exists|k: int|
            0 <= k < sales.len() && shows(#[trigger] lines[i], #[trigger] sales[k], range) by {
            if i < old_lines.len() {
                assert(lines[i].product_id == old_lines[i].product_id);
                assert(lines[i].product_name == old_lines[i].product_name);
                let k = choose|k: int|
                    0 <= k < before.len() && shows(
                        #[trigger] old_lines[i],
                        #[trigger] before[k],
                        range,
                    );
                assert(sales[k] == before[k]);
                assert(shows(lines[i], sales[k], range));
            } else {
                assert(shows(lines[i], sales[sales.len() - 1], range));
            }
        }
    }
}

/// The report is by product and in order: its lines go from the highest
/// revenue to the lowest, no two of them are of the same product, every
/// line says what the sales of its product sold within the range, every
/// sale made within the range has a line, and every line is the line of
/// such a sale.
pub proof fn lemma_report_is_by_product(sales: Seq<Sale>, range: Option<(i64, i64)>)
    requires
        report_of(sales, range) is Some,
    ensures
        ({
            let report = report_of(sales, range)->0;
            &&& in_order(report)
            &&& forall|i: int, j: int|
                0 <= i < j < report.len() ==> (#[trigger] report[i]).product_id != (
                #[trigger] report[j]).product_id
            &&& forall|i: int|
                0 <= i < report.len() ==> (#[trigger] report[i]).total_quantity == units_sold(
                    sales,
                    range,
                    report[i].product_id,
                ) && report[i].total_revenue == revenue_made(sales, range, report[i].product_id)
            &&& forall|k: int|
                0 <= k < sales.len() && in_range((#[trigger] sales[k]).created_at, range)
                    ==> has_line(report, sales[k].product_id)
            &&& forall|i: int|
                0 <= i < report.len() ==> sold_within(
                    sales,
                    range,
                    (#[trigger] report[i]).product_id,
                )
        }),
{
    let lines = grouped(sales, range)->0;
    lemma_arranged_in_order(lines);
    lemma_report_lines_differ(sales, range);
    lemma_report_lines_add_up(sales, range);
    lemma_report_covers_the_sales(sales, range);
}

/// No two lines of a report are of the same product.
proof fn lemma_report_lines_differ(sales: Seq<Sale>, range: Option<(i64, i64)>)
    requires
        report_of(sales, range) is Some,
    ensures
        ({
            let report = report_of(sales, range)->0;
            forall|i: int, j: int|
                0 <= i < j < report.len() ==> (#[trigger] report[i]).product_id != (
                #[trigger] report[j]).product_id
        }),
{
    let lines = grouped(sales, range)->0;
    let report = arranged(lines);
    assert(forall|a: int, b: int|
        0 <= a < b < lines.len() ==> (#[trigger] lines[a]).product_id != (
        #[trigger] lines[b]).product_id) by {
        lemma_grouped_is_by_product(sales, range);
    }
    assert(lines.no_duplicates()) by {
        assert forall|a: int, b: int|
            0 <= a < lines.len() && 0 <= b < lines.len() && a != b implies lines[a]
            != lines[b] by {
            if a < b {
                assert(lines[a].product_id != lines[b].product_id);
            } else {
                assert(lines[b].product_id != lines[a].product_id);
            }
        }
    }
    lemma_arranged_keeps_items_apart(lines);
    assert forall|i: int, j: int| 0 <= i < j < report.len() implies (#[trigger] report[i]).product_id
        != (#[trigger] report[j]).product_id by {
        lemma_arranged_item_was_there(lines, i);
        lemma_arranged_item_was_there(lines, j);
        let a = choose|a: int| 0 <= a < lines.len() && lines[a] == report[i];
        let b = choose|b: int| 0 <= b < lines.len() && lines[b] == report[j];
        assert(report[i] != report[j]);
        if a < b {
            assert(lines[a].product_id != lines[b].product_id);
        } else if b < a {
            assert(lines[b].product_id != lines[a].product_id);
        }
    }
}

/// Every line of a report says what the sales of its product sold.
proof fn lemma_report_lines_add_up(sales: Seq<Sale>, range: Option<(i64, i64)>)
    requires
        report_of(sales, range) is Some,
    ensures
        ({
            let report = report_of(sales, range)->0;
            forall|i: int|
                0 <= i < report.len() ==> (#[trigger] report[i]).total_quantity == units_sold(
                    sales,
                    range,
                    report[i].product_id,
                ) && report[i].total_revenue == revenue_made(sales, range, report[i].product_id)
        }),
{
    let lines = grouped(sales, range)->0;
    let report = arranged(lines);
    assert(forall|a: int|
        0 <= a < lines.len() ==> (#[trigger] lines[a]).total_quantity == units_sold(
            sales,
            range,
            lines[a].product_id,
        ) && lines[a].total_revenue == revenue_made(sales, range, lines[a].product_id)) by {
        lemma_grouped_is_by_product(sales, range);
    }
    assert forall|i: int| 0 <= i < report.len() implies (#[trigger] report[i]).total_quantity
        == units_sold(sales, range, report[i].product_id) && report[i].total_revenue
        == revenue_made(sales, range, report[i].product_id) by {
        lemma_arranged_item_was_there(lines, i);
        let a = choose|a: int| 0 <= a < lines.len() && lines[a] == report[i];
        assert(lines[a].total_quantity == units_sold(sales, range, lines[a].product_id));
    }
}

/// Every sale made within the range has a line in the report, and every
/// line is the line of such a sale.
proof fn lemma_report_covers_the_sales(sales: Seq<Sale>, range: Option<(i64, i64)>)
    requires
        report_of(sales, range) is Some,
    ensures
        ({
            let report = report_of(sales, range)->0;
            &&& forall|k: int|
                0 <= k < sales.len() && in_range((#[trigger] sales[k]).created_at, range)
                    ==> has_line(report, sales[k].product_id)
            &&& forall|i: int|
                0 <= i < report.len() ==> sold_within(
                    sales,
                    range,
                    (#[trigger] report[i]).product_id,
                )
        }),
{
    let lines = grouped(sales, range)->0;
    let report = arranged(lines);
    assert forall|k: int|
        0 <= k < sales.len() && in_range((#[trigger] sales[k]).created_at, range) implies has_line(
        report,
        sales[k].product_id,
    ) by {
        assert(line_of(lines, sales[k].product_id) is Some) by {
            lemma_grouped_is_by_product(sales, range);
        }
        let a = choose|a: int|
            0 <= a < lines.len() && (#[trigger] lines[a]).product_id == sales[k].product_id;
        lemma_item_is_arranged(lines, a);
        let i = choose|i: int| 0 <= i < report.len() && report[i] == lines[a];
        assert(report[i].product_id == sales[k].product_id);
    }
    assert forall|i: int| 0 <= i < report.len() implies sold_within(
        sales,
        range,
        (#[trigger] report[i]).product_id,
    ) by {
        lemma_arranged_item_was_there(lines, i);
        let a = choose|a: int| 0 <= a < lines.len() && lines[a] == report[i];
        assert(sold_within(sales, range, lines[a].product_id)) by {
            lemma_grouped_is_by_product(sales, range);
        }
    }
}

/// The sum of some numbers.
pub open spec fn sum(numbers: Seq<int>) -> int
    decreases numbers.len(),
{
    if numbers.len() == 0 {
        0
    } else {
        numbers.first() + sum(numbers.drop_first())
    }
}

/// The revenues that some lines show, in the order of the lines.
pub open spec fn revenues(lines: Seq<SalesReport>) -> Seq<int> {
    lines.map_values(|line: SalesReport| line.total_revenue as int)
}

/// The quantities that some lines show, in the order of the lines.
pub open spec fn quantities(lines: Seq<SalesReport>) -> Seq<int> {
    lines.map_values(|line: SalesReport| line.total_quantity as int)
}

/// What all sales made within the range brought in.
pub open spec fn revenue_within(sales: Seq<Sale>, range: Option<(i64, i64)>) -> int
    decreases sales.len(),
{
    if sales.len() == 0 {
        0
    } else if in_range(sales.last().created_at, range) {
        revenue_within(sales.drop_last(), range) + sales.last().total_price
    } else {
        revenue_within(sales.drop_last(), range)
    }
}

/// How many units all sales made within the range sold.
pub open spec fn units_within(sales: Seq<Sale>, range: Option<(i64, i64)>) -> int
    decreases sales.len(),
{
    if sales.len() == 0 {
        0
    } else if in_range(sales.last().created_at, range) {
        units_within(sales.drop_last(), range) + sales.last().quantity
    } else {
        units_within(sales.drop_last(), range)
    }
}

/// One more number at the end adds itself to the sum.
proof fn lemma_sum_push(numbers: Seq<int>, number: int)
    ensures
        sum(numbers.push(number)) == sum(numbers) + number,
    decreases numbers.len(),
{
    if numbers.len() == 0 {
        assert(numbers.push(number).drop_first() =~= numbers);
    } else {
        lemma_sum_push(numbers.drop_first(), number);
        assert(numbers.push(number).drop_first() =~= numbers.drop_first().push(number));
    }
}

/// A number put in the place of another changes the sum by their
/// difference.
proof fn lemma_sum_update(numbers: Seq<int>, at: int, number: int)
    requires
        0 <= at < numbers.len(),
    ensures
        sum(numbers.update(at, number)) == sum(numbers) - numbers[at] + number,
    decreases numbers.len(),
{
    if at == 0 {
        assert(numbers.update(at, number).drop_first() =~= numbers.drop_first());
    } else {
        lemma_sum_update(numbers.drop_first(), at - 1, number);
        assert(numbers.update(at, number).drop_first() =~= numbers.drop_first().update(
            at - 1,
            number,
        ));
    }
}

/// Lines put in order show what they showed, in all.
proof fn lemma_arranged_lines_add_up(lines: Seq<SalesReport>)
    ensures
        sum(revenues(arranged(lines))) == sum(revenues(lines)),
        sum(quantities(arranged(lines))) == sum(quantities(lines)),
    decreases lines.len(),
{
    if lines.len() > 0 {
        let rest = lines.drop_first();
        lemma_arranged_lines_add_up(rest);
        lemma_placed_lines_add_up(lines.first(), arranged(rest));
        assert(revenues(lines).drop_first() =~= revenues(rest));
        assert(quantities(lines).drop_first() =~= quantities(rest));
    }
}

/// A line placed among lines adds what it shows to what they show.
proof fn lemma_placed_lines_add_up(line: SalesReport, sorted: Seq<SalesReport>)
    ensures
        sum(revenues(placed(line, sorted))) == sum(revenues(sorted)) + line.total_revenue,
        sum(quantities(placed(line, sorted))) == sum(quantities(sorted)) + line.total_quantity,
    decreases sorted.len(),
{
    let all = placed(line, sorted);
    if sorted.len() == 0 || line.precedes(&sorted.first()) {
        assert(all =~= seq![line] + sorted);
        assert(revenues(all).drop_first() =~= revenues(sorted));
        assert(quantities(all).drop_first() =~= quantities(sorted));
    } else {
        let rest = sorted.drop_first();
        lemma_placed_lines_add_up(line, rest);
        assert(all =~= seq![sorted.first()] + placed(line, rest));
        assert(revenues(all).drop_first() =~= revenues(placed(line, rest)));
        assert(quantities(all).drop_first() =~= quantities(placed(line, rest)));
        assert(revenues(sorted).drop_first() =~= revenues(rest));
        assert(quantities(sorted).drop_first() =~= quantities(rest));
    }
}

/// The lines of a report account for every sale made within the range:
/// what they show adds up to what those sales sold and brought in.
pub proof fn lemma_report_adds_up(sales: Seq<Sale>, range: Option<(i64, i64)>)
    requires
        report_of(sales, range) is Some,
    ensures
        sum(revenues(report_of(sales, range)->0)) == revenue_within(sales, range),
        sum(quantities(report_of(sales, range)->0)) == units_within(sales, range),
{
    lemma_grouped_adds_up(sales, range);
    lemma_arranged_lines_add_up(grouped(sales, range)->0);
}

/// What the lines show adds up to what the sales made within the range
/// sold and brought in.
proof fn lemma_grouped_adds_up(sales: Seq<Sale>, range: Option<(i64, i64)>)
    requires
        grouped(sales, range) is Some,
    ensures
        sum(revenues(grouped(sales, range)->0)) == revenue_within(sales, range),
        sum(quantities(grouped(sales, range)->0)) == units_within(sales, range),
    decreases sales.len(),
{
    if sales.len() > 0 {
        let before = sales.drop_last();
        let last = sales.last();
        let old_lines = grouped(before, range)->0;
        let lines = grouped(sales, range)->0;
        lemma_grouped_adds_up(before, range);
        lemma_grouped_is_by_product(before, range);
        if in_range(last.created_at, range) {
            match line_of(old_lines, last.product_id) {
                Some(at) => {
                    assert(old_lines[at].product_id == last.product_id);
                    lemma_sum_update(revenues(old_lines), at, lines[at].total_revenue as int);
                    lemma_sum_update(quantities(old_lines), at, lines[at].total_quantity as int);
                    assert(revenues(lines) =~= revenues(old_lines).update(
                        at,
                        lines[at].total_revenue as int,
                    ));
                    assert(quantities(lines) =~= quantities(old_lines).update(
                        at,
                        lines[at].total_quantity as int,
                    ));
                },
                None => {
                    let line = lines[old_lines.len() as int];
                    assert(lines == old_lines.push(line));
                    lemma_sum_push(revenues(old_lines), line.total_revenue as int);
                    lemma_sum_push(quantities(old_lines), line.total_quantity as int);
                    assert(revenues(lines) =~= revenues(old_lines).push(line.total_revenue as int));
                    assert(quantities(lines) =~= quantities(old_lines).push(
                        line.total_quantity as int,
                    ));
                },
            }
        }
    }
}

/// A range that ends before it starts holds no sale: its report is empty.
pub proof fn lemma_nothing_in_a_reversed_range(sales: Seq<Sale>, start: i64, end: i64)
    requires
        end < start,
    ensures
        grouped(sales, Some((start, end))) == Some(Seq::<SalesReport>::empty()),
        report_of(sales, Some((start, end))) == Some(Seq::<SalesReport>::empty()),
    decreases sales.len(),
{
    if sales.len() > 0 {
        lemma_nothing_in_a_reversed_range(sales.drop_last(), start, end);
    }
}

/// Lines that have no value after some sales have none after more.
proof fn lemma_grouped_stays_lost(sales: Seq<Sale>, range: Option<(i64, i64)>, upto: int)
    requires
        0 <= upto <= sales.len(),
        grouped(sales.take(upto), range) is None,
    ensures
        grouped(sales, range) is None,
    decreases sales.len() - upto,
{
    if upto == sales.len() {
        assert(sales.take(upto) =~= sales);
    } else {
        assert(sales.take(upto + 1).drop_last() =~= sales.take(upto));
        lemma_grouped_stays_lost(sales, range, upto + 1);
    }
}

/// Finds the line for a product.
fn find_line(lines: &Vec<SalesReport>, product_id: u128) -> (found: Option<usize>)
    ensures
        found matches Some(at) ==> line_of(lines@, product_id) == Some(at as int) && at
            < lines.len(),
        found is None ==> line_of(lines@, product_id) is None,
{
    let mut at: usize = 0;
    while at < lines.len()
        invariant
            at <= lines.len(),
            forall|j: int| 0 <= j < at ==> (#[trigger] lines@[j]).product_id != product_id,
        decreases lines.len() - at,
    {
        if lines[at].product_id == product_id {
            proof {
                let first = choose|i: int|
                    0 <= i < lines@.len() && (#[trigger] lines@[i]).product_id == product_id
                        && forall|j: int|
                        0 <= j < i ==> (#[trigger] lines@[j]).product_id != product_id;
                assert(lines@[at as int].product_id == product_id);
                assert(first == at as int);
            }
            return Some(at);
        }
        at += 1;
    }
    None
}

/// Adds a sale to the lines. Returns whether the sums stayed in range; where
/// they did not, the lines are as they were.
fn credit(lines: &mut Vec<SalesReport>, sale: &Sale) -> (kept: bool)
    ensures
        kept ==> credited(old(lines)@, *sale) == Some(final(lines)@),
        !kept ==> credited(old(lines)@, *sale) is None && final(lines)@ == old(lines)@,
{
    match find_line(lines, sale.product_id) {
        Some(at) => {
            let quantity = lines[at].total_quantity.checked_add(sale.quantity as i64);
            let revenue = lines[at].total_revenue.checked_add(sale.total_price);
            match (quantity, revenue) {
                (Some(total_quantity), Some(total_revenue)) => {
                    let product_id = lines[at].product_id;
                    let product_name = lines[at].product_name.clone();
                    lines.set(
                        at,
                        SalesReport { product_id, product_name, total_quantity, total_revenue },
                    );
                    true
                },
                _ => false,
            }
        },
        None => {
            lines.push(
                SalesReport {
                    product_id: sale.product_id,
                    product_name: sale.product_name.clone(),
                    total_quantity: sale.quantity as i64,
                    total_revenue: sale.total_price,
                },
            );
            true
        },
    }
}

/// Whether an instant lies within a range.
pub fn within(at: i64, range: Option<(i64, i64)>) -> (inside: bool)
    ensures
        inside == in_range(at, range),
{
    match range {
        Some((start, end)) => start <= at && at <= end,
        None => true,
    }
}

/// Reports what each product sold within the range, from the highest
/// revenue to the lowest; `None` where a sum leaves its range.
pub fn report(sales: &Vec<Sale>, range: Option<(i64, i64)>) -> (lines: Option<Vec<SalesReport>>)
    ensures
        lines matches Some(found) ==> report_of(sales@, range) == Some(found@),
        lines is None ==> report_of(sales@, range) is None,
{
    let mut lines: Vec<SalesReport> = Vec::new();
    let mut at: usize = 0;
    while at < sales.len()
        invariant
            at <= sales.len(),
            grouped(sales@.take(at as int), range) == Some(lines@),
        decreases sales.len() - at,
    {
        proof {
            assert(sales@.take(at as int + 1).drop_last() =~= sales@.take(at as int));
        }
        if within(sales[at].created_at, range) {
            if !credit(&mut lines, &sales[at]) {
                proof {
                    lemma_grouped_stays_lost(sales@, range, at as int + 1);
                }
                return None;
            }
        }
        at += 1;
    }
    proof {
        assert(sales@.take(sales.len() as int) =~= sales@);
    }
    Some(arrange(lines))
}

/// Whether a row is a sale made in the given month of the given year.
pub open spec fn falls_in(row: Row, year: Option<i32>, month: u32) -> bool {
    match (row, year) {
        (Row::Sale(sale), Some(wanted)) => month_of(sale.created_at) == Some((wanted, month)),
        _ => false,
    }
}

/// The sum of the sales made in the given month.
pub open spec fn month_total(rows: Seq<Row>, year: Option<i32>, month: u32) -> Option<i128>
    decreases rows.len(),
{
    if rows.len() == 0 {
        Some(0)
    } else if falls_in(rows.last(), year, month) {
        added(month_total(rows.drop_last(), year, month), amount_of(rows.last()))
    } else {
        month_total(rows.drop_last(), year, month)
    }
}

/// Whether any sale was made in the given month.
pub open spec fn month_sold(rows: Seq<Row>, year: Option<i32>, month: u32) -> bool
    decreases rows.len(),
{
    if rows.len() == 0 {
        false
    } else {
        month_sold(rows.drop_last(), year, month) || falls_in(rows.last(), year, month)
    }
}

/// The months up to `last` in which a sale was made, in the order of the
/// calendar, each with its sum.
pub open spec fn months_upto(rows: Seq<Row>, year: Option<i32>, last: u32) -> Seq<MonthlySale>
    decreases last,
{
    if last == 0 {
        Seq::empty()
    } else {
        let before = months_upto(rows, year, (last - 1) as u32);
        match month_total(rows, year, last) {
            Some(sales) if month_sold(rows, year, last) => before.push(
                MonthlySale { month: last, sales },
            ),
            _ => before,
        }
    }
}

/// The sales of the given year by month: one entry for each month in which
/// a sale was made, January first. No value where the sum of a month leaves
/// its range. With no year there is no such sale.
pub open spec fn monthly_of(rows: Seq<Row>, year: Option<i32>) -> Option<Seq<MonthlySale>> {
    if forall|month: u32| 1 <= month <= 12 ==> (#[trigger] month_total(rows, year, month)) is Some {
        Some(months_upto(rows, year, 12))
    } else {
        None
    }
}

/// Whether a row is a sale made in the given year.
pub open spec fn falls_in_year(row: Row, year: Option<i32>) -> bool {
    match (row, year) {
        (Row::Sale(sale), Some(wanted)) => month_of(sale.created_at) matches Some((in_year, _))
            && in_year == wanted,
        _ => false,
    }
}

/// A sale of the year falls in one of its twelve months, and in one only.
pub proof fn lemma_sale_of_the_year_has_its_month(row: Row, year: Option<i32>)
    requires
        falls_in_year(row, year),
    ensures
        exists|month: u32| 1 <= month <= 12 && #[trigger] falls_in(row, year, month),
        forall|one: u32, other: u32|
            #[trigger] falls_in(row, year, one) && #[trigger] falls_in(row, year, other) ==> one
                == other,
{
    let found = month_of(row->Sale_0.created_at)->0;
    let month = found.1;
    assert(falls_in(row, year, month));
}

/// The sum of the sales made in the given month, however large.
pub open spec fn month_sum(rows: Seq<Row>, year: Option<i32>, month: u32) -> int
    decreases rows.len(),
{
    if rows.len() == 0 {
        0
    } else if falls_in(rows.last(), year, month) {
        month_sum(rows.drop_last(), year, month) + amount_of(rows.last())
    } else {
        month_sum(rows.drop_last(), year, month)
    }
}

/// The sum of the sales made in the given year, however large.
pub open spec fn year_sum(rows: Seq<Row>, year: Option<i32>) -> int
    decreases rows.len(),
{
    if rows.len() == 0 {
        0
    } else if falls_in_year(rows.last(), year) {
        year_sum(rows.drop_last(), year) + amount_of(rows.last())
    } else {
        year_sum(rows.drop_last(), year)
    }
}

/// The sum of the sales made in the months up to `last`.
pub open spec fn months_sum(rows: Seq<Row>, year: Option<i32>, last: u32) -> int
    decreases last,
{
    if last == 0 {
        0
    } else {
        months_sum(rows, year, (last - 1) as u32) + month_sum(rows, year, last)
    }
}

/// What the entries of some months add up to.
pub open spec fn entries_sum(months: Seq<MonthlySale>) -> int
    decreases months.len(),
{
    if months.len() == 0 {
        0
    } else {
        entries_sum(months.drop_last()) + months.last().sales
    }
}

/// The sum that a month's total is, where it has a value; a month without
/// sales has the sum zero.
proof fn lemma_month_total_is_the_sum(rows: Seq<Row>, year: Option<i32>, month: u32)
    ensures
        month_total(rows, year, month) matches Some(total) ==> total == month_sum(rows, year, month),
        !month_sold(rows, year, month) ==> month_sum(rows, year, month) == 0,
    decreases rows.len(),
{
    if rows.len() > 0 {
        lemma_month_total_is_the_sum(rows.drop_last(), year, month);
    }
}

/// One more row adds its amount to the months up to `last` where it falls
/// in one of them, and nothing where it does not.
proof fn lemma_months_sum_with_one_more(rows: Seq<Row>, year: Option<i32>, last: u32)
    requires
        rows.len() > 0,
        last <= 12,
    ensures
        months_sum(rows, year, last) == months_sum(rows.drop_last(), year, last) + if exists|
            month: u32,
        |
            1 <= month <= last && #[trigger] falls_in(rows.last(), year, month) {
            amount_of(rows.last()) as int
        } else {
            0
        },
    decreases last,
{
    if last > 0 {
        let fewer = (last - 1) as u32;
        lemma_months_sum_with_one_more(rows, year, fewer);
        if falls_in(rows.last(), year, last) {
            assert forall|month: u32| 1 <= month <= fewer implies !#[trigger] falls_in(
                rows.last(),
                year,
                month,
            ) by {}
        } else {
            assert forall|month: u32|
                1 <= month <= last && #[trigger] falls_in(rows.last(), year, month) implies month
                <= fewer by {}
        }
    }
}

/// The months of a year add up to the year.
pub proof fn lemma_months_add_up_to_the_year(rows: Seq<Row>, year: Option<i32>)
    ensures
        months_sum(rows, year, 12) == year_sum(rows, year),
    decreases rows.len(),
{
    if rows.len() == 0 {
        reveal_with_fuel(months_sum, 13);
    } else {
        lemma_months_add_up_to_the_year(rows.drop_last(), year);
        lemma_months_sum_with_one_more(rows, year, 12);
        if falls_in_year(rows.last(), year) {
            lemma_sale_of_the_year_has_its_month(rows.last(), year);
        }
    }
}

/// The entries of the months up to `last` add up to what those months
/// sold.
proof fn lemma_entries_add_up(rows: Seq<Row>, year: Option<i32>, last: u32)
    requires
        last <= 12,
        forall|month: u32| 1 <= month <= last ==> (#[trigger] month_total(rows, year, month)) is Some,
    ensures
        entries_sum(months_upto(rows, year, last)) == months_sum(rows, year, last),
    decreases last,
{
    if last > 0 {
        let fewer = (last - 1) as u32;
        lemma_entries_add_up(rows, year, fewer);
        lemma_month_total_is_the_sum(rows, year, last);
        assert(month_total(rows, year, last) is Some);
        let before = months_upto(rows, year, fewer);
        if month_sold(rows, year, last) {
            let entry = MonthlySale { month: last, sales: month_total(rows, year, last)->0 };
            assert(months_upto(rows, year, last) == before.push(entry));
            assert(before.push(entry).drop_last() =~= before);
        }
    }
}

/// The sales by month of a year add up to the sales of the year.
pub proof fn lemma_monthly_adds_up_to_the_year(rows: Seq<Row>, year: Option<i32>)
    requires
        monthly_of(rows, year) is Some,
    ensures
        entries_sum(monthly_of(rows, year)->0) == year_sum(rows, year),
{
    lemma_entries_add_up(rows, year, 12);
    lemma_months_add_up_to_the_year(rows, year);
}

/// A month's sum that has no value after some rows has none after more.
proof fn lemma_month_total_stays_lost(rows: Seq<Row>, year: Option<i32>, month: u32, upto: int)
    requires
        0 <= upto <= rows.len(),
        month_total(rows.take(upto), year, month) is None,
    ensures
        month_total(rows, year, month) is None,
    decreases rows.len() - upto,
{
    if upto == rows.len() {
        assert(rows.take(upto) =~= rows);
    } else {
        assert(rows.take(upto + 1).drop_last() =~= rows.take(upto));
        lemma_month_total_stays_lost(rows, year, month, upto + 1);
    }
}

/// Adds up the sales of the given year by month.
pub fn monthly(rows: &Vec<Row>, year: Option<i32>) -> (months: Option<Vec<MonthlySale>>)
    ensures
        months matches Some(found) ==> monthly_of(rows@, year) == Some(found@),
        months is None ==> monthly_of(rows@, year) is None,
{
    let mut totals: Vec<i128> = Vec::new();
    let mut sold: Vec<bool> = Vec::new();
    let mut filled: u32 = 0;
    while filled < 12
        invariant
            filled <= 12,
            totals@.len() == filled,
            sold@.len() == filled,
            forall|k: int| 0 <= k < filled ==> totals@[k] == 0 && !sold@[k],
        decreases 12 - filled,
    {
        totals.push(0);
        sold.push(false);
        filled += 1;
    }
    let mut at: usize = 0;
    while at < rows.len()
        invariant
            at <= rows.len(),
            totals@.len() == 12,
            sold@.len() == 12,
            forall|m: u32|
                1 <= m <= 12 ==> #[trigger] month_total(rows@.take(at as int), year, m) == Some(
                    totals@[m - 1],
                ),
            forall|m: u32|
                1 <= m <= 12 ==> #[trigger] month_sold(rows@.take(at as int), year, m) == sold@[m
                    - 1],
        decreases rows.len() - at,
    {
        let ghost before = rows@.take(at as int);
        let ghost after = rows@.take(at as int + 1);
        proof {
            assert(after.drop_last() =~= before);
            assert(after.last() == rows@[at as int]);
        }
        let mut hit: Option<u32> = None;
        match (&rows[at], year) {
            (Row::Sale(sale), Some(wanted)) => {
                match month(sale.created_at) {
                    Some((in_year, in_month)) => {
                        if in_year == wanted {
                            hit = Some(in_month);
                        }
                    },
                    None => {},
                }
            },
            _ => {},
        }
        assert(forall|m: u32| 1 <= m <= 12 ==> (falls_in(rows@[at as int], year, m) <==> hit == Some(m)));
        let ghost old_totals = totals@;
        let ghost old_sold = sold@;
        match hit {
            Some(in_month) => {
                let slot: usize = (in_month - 1) as usize;
                match totals[slot].checked_add(amount(&rows[at])) {
                    Some(next) => {
                        totals.set(slot, next);
                        sold.set(slot, true);
                    },
                    None => {
                        proof {
                            assert(month_total(before, year, in_month) == Some(totals@[in_month - 1]));
                            assert(falls_in(rows@[at as int], year, in_month));
                            assert(month_total(after, year, in_month) is None);
                            lemma_month_total_stays_lost(rows@, year, in_month, at as int + 1);
                        }
                        return None;
                    },
                }
            },
            None => {},
        }
        proof {
            assert forall|m: u32| 1 <= m <= 12 implies #[trigger] month_total(after, year, m)
                == Some(totals@[m - 1]) by {
                assert(month_total(before, year, m) == Some(old_totals[m - 1]));
            }
            assert forall|m: u32| 1 <= m <= 12 implies #[trigger] month_sold(after, year, m)
                == sold@[m - 1] by {
                assert(month_sold(before, year, m) == old_sold[m - 1]);
            }
        }
        at += 1;
    }
    proof {
        assert(rows@.take(rows.len() as int) =~= rows@);
    }
    let mut months: Vec<MonthlySale> = Vec::new();
    let mut next: u32 = 1;
    while next <= 12
        invariant
            1 <= next <= 13,
            totals@.len() == 12,
            sold@.len() == 12,
            forall|m: u32| 1 <= m <= 12 ==> #[trigger] month_total(rows@, year, m) == Some(totals@[m - 1]),
            forall|m: u32| 1 <= m <= 12 ==> #[trigger] month_sold(rows@, year, m) == sold@[m - 1],
            months@ == months_upto(rows@, year, (next - 1) as u32),
        decreases 13 - next,
    {
        let slot: usize = (next - 1) as usize;
        proof {
            assert(month_total(rows@, year, next) == Some(totals@[next - 1]));
            assert(month_sold(rows@, year, next) == sold@[next - 1]);
        }
        if sold[slot] {
            months.push(MonthlySale { month: next, sales: totals[slot] });
        }
        next += 1;
    }
    Some(months)
}

/// The English short name of a month, as reports show it; "N/A" for a
/// number that is no month.
pub open spec fn month_label_of(month: u32) -> Seq<char> {
    match month {
        1 => "Jan"@,
        2 => "Feb"@,
        3 => "Mar"@,
        4 => "Apr"@,
        5 => "May"@,
        6 => "Jun"@,
        7 => "Jul"@,
        8 => "Aug"@,
        9 => "Sep"@,
        10 => "Oct"@,
        11 => "Nov"@,
        12 => "Dec"@,
        _ => "N/A"@,
    }
}

/// The English short name of a month.
pub fn month_label(month: u32) -> (label: &'static str)
    ensures
        label@ == month_label_of(month),
{
    match month {
        1 => "Jan",
        2 => "Feb",
        3 => "Mar",
        4 => "Apr",
        5 => "May",
        6 => "Jun",
        7 => "Jul",
        8 => "Aug",
        9 => "Sep",
        10 => "Oct",
        11 => "Nov",
        12 => "Dec",
        _ => "N/A",
    }
}

} // verus!

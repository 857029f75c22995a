//! The report on sales by product.
use vstd::prelude::*;
use crate::calendar::{instant, instant_of};
pub use crate::reports::{ReportDateRange, SalesReport};
use crate::task::{Purpose, Task};

verus! {

/// `GET /reports/sales`: what each product sold, all sales counted.
pub fn sales_report() -> (task: Task)
    ensures
        task == Task::Sales(Purpose::Report(None)),
{
    Task::Sales(Purpose::Report(None))
}

/// The instants between which a report on the given days runs: from the
/// first instant of the first day to the last second of the last day;
/// `None` where the calendar does not have one of the days.
pub open spec fn span_of(query: ReportDateRange) -> Option<(i64, i64)> {
    match (instant_of(query.start_date, 0, 0, 0), instant_of(query.end_date, 23, 59, 59)) {
        (Some(start), Some(end)) => Some((start, end)),
        _ => None,
    }
}

/// `GET /reports/sales_by_date`: what each product sold from 00:00:00 on
/// the first day to 23:59:59 on the last. A day that the calendar does not
/// have makes the request malformed.
pub fn sales_by_date(query: ReportDateRange) -> (task: Task)
    ensures
        task == Task::ReportBetween(span_of(query)),
{
    match (instant(query.start_date, 0, 0, 0), instant(query.end_date, 23, 59, 59)) {
        (Some(start), Some(end)) => Task::ReportBetween(Some((start, end))),
        _ => Task::ReportBetween(None),
    }
}

} // verus!

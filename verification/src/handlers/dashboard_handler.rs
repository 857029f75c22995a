//! The figures of the dashboard.
use vstd::prelude::*;
use crate::calendar::{month, month_of, now};
use crate::models::Table;
use crate::task::Task;

verus! {

/// `GET /clients/count`.
pub fn clients_count() -> (task: Task)
    ensures
        task == Task::Count(Table::Clients),
{
    Task::Count(Table::Clients)
}

/// `GET /sales/count`.
pub fn sales_count() -> (task: Task)
    ensures
        task == Task::Count(Table::Sales),
{
    Task::Count(Table::Sales)
}

/// `GET /sales/revenue`.
pub fn sales_revenue() -> (task: Task)
    ensures
        task == Task::Total(Table::Sales),
{
    Task::Total(Table::Sales)
}

/// `GET /expenses/total`.
pub fn expenses_total() -> (task: Task)
    ensures
        task == Task::Total(Table::Expenses),
{
    Task::Total(Table::Expenses)
}

/// The task of adding up, month by month, the sales of the year in which
/// `today` falls.
pub open spec fn monthly_in_year_of(today: i64) -> Task {
    Task::Monthly {
        year: match month_of(today) {
            Some((year, _)) => Some(year),
            None => None,
        },
    }
}

/// The sales by month of the year in which the instant `today` falls.
pub fn sales_monthly_at(today: i64) -> (task: Task)
    ensures
        task == monthly_in_year_of(today),
{
    Task::Monthly {
        year: match month(today) {
            Some((year, _)) => Some(year),
            None => None,
        },
    }
}

/// `GET /sales/monthly`: the sales by month of the year in which the
/// clock stands. The clock always stands in a year.
pub fn sales_monthly() -> (task: Task)
    ensures
        exists|today: i64|
            month_of(today) is Some && task == #[trigger] monthly_in_year_of(today),
        task matches Task::Monthly { year: Some(_) },
{
    let today = now();
    let found = month(today);
    assert(month_of(today) == found);
    let task = sales_monthly_at(today);
    assert(month_of(today) is Some && task == monthly_in_year_of(today));
    task
}

} // verus!
